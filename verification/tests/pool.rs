use erdnuss_comms::frame_pool::{FrameStorage, SendFrameBox, WireFrameBox};
use erdnuss_comms::CmdAddr;

#[test]
fn storage_taken_once() {
    let mut storage = FrameStorage::new(8);
    let first = storage.take();
    assert!(first.is_some());
    assert_eq!(first.unwrap().capacity(), 8);
    assert!(storage.take().is_none());
    assert!(storage.take().is_none());
}

#[test]
fn allocate_until_exhausted_then_release() {
    let mut storage = FrameStorage::new(3);
    let mut pool = storage.take().unwrap();
    assert_eq!(pool.count_allocatable(), 3);
    let a = pool.allocate_raw().unwrap();
    let b = pool.allocate_raw().unwrap();
    let c = pool.allocate_raw().unwrap();
    assert_eq!(pool.count_allocatable(), 0);
    assert!(pool.allocate_raw().is_none());
    // Slot flags count the live handles: three handles, three non-zero flags.
    assert_ne!(a.slot, b.slot);
    assert_ne!(b.slot, c.slot);
    assert_ne!(a.slot, c.slot);
    assert!(pool.release(b).is_ok());
    assert_eq!(pool.count_allocatable(), 1);
    let again = pool.allocate_raw().unwrap();
    assert_eq!(pool.count_allocatable(), 0);
    assert!(pool.release(a).is_ok());
    assert!(pool.release(c).is_ok());
    assert!(pool.release(again).is_ok());
    assert_eq!(pool.count_allocatable(), 3);
}

#[test]
fn allocated_frame_starts_at_max_length() {
    let mut storage = FrameStorage::new(1);
    let mut pool = storage.take().unwrap();
    let fb = pool.allocate_raw().unwrap();
    assert_eq!(fb.len(), 255);
    assert_eq!(fb.as_bytes().len(), 255);
}

#[test]
fn split_capacities_add_up() {
    let mut storage = FrameStorage::new(10);
    let mut left = storage.take().unwrap();
    let right = left.split(4).unwrap();
    assert_eq!(left.capacity() + right.capacity(), 10);
    assert_eq!(left.capacity(), 4);
    assert_eq!(right.capacity(), 6);
}

#[test]
fn split_at_zero_and_at_capacity_fail() {
    let mut storage = FrameStorage::new(5);
    let mut pool = storage.take().unwrap();
    assert!(pool.split(0).is_none());
    assert!(pool.split(5).is_none());
    assert!(pool.split(6).is_none());
    assert_eq!(pool.capacity(), 5);
    assert!(pool.split(4).is_some());
}

#[test]
fn split_halves_never_collide() {
    let mut storage = FrameStorage::new(6);
    let mut left = storage.take().unwrap();
    let mut right = left.split(3).unwrap();
    for _ in 0..3 {
        let a = left.allocate_raw().unwrap();
        let b = right.allocate_raw().unwrap();
        assert_ne!(a.slot, b.slot);
    }
    assert!(left.allocate_raw().is_none());
    assert!(right.allocate_raw().is_none());
}

#[test]
fn release_refuses_foreign_frame() {
    let mut storage_a = FrameStorage::new(2);
    let mut storage_b = FrameStorage::new(2);
    let mut pool_a = storage_a.take().unwrap();
    let mut pool_b = storage_b.take().unwrap();
    let a0 = pool_a.allocate_raw().unwrap();
    let _b0 = pool_b.allocate_raw().unwrap();
    let b1 = pool_b.allocate_raw().unwrap();
    // b1's slot is allocated in pool_b, but handing it to pool_a only
    // releases pool_a's own slot of that index if it is live there.
    // Slot 1 of pool_a was never allocated, so the release is refused.
    assert_eq!(a0.slot, 0);
    assert_eq!(b1.slot, 1);
    let back = pool_a.release(b1);
    assert!(back.is_err());
    assert_eq!(pool_a.count_allocatable(), 1);
    let _ = pool_b.release(back.unwrap_err());
    let _ = pool_a.release(a0);
}

#[test]
fn frame_set_len_bounds() {
    let mut storage = FrameStorage::new(1);
    let mut pool = storage.take().unwrap();
    let mut fb = pool.allocate_raw().unwrap();
    fb.set_len(1);
    assert_eq!(fb.len(), 1);
    fb.set_len(255);
    assert_eq!(fb.len(), 255);
    // A zero length would alias the free sentinel, 256 does not fit a
    // slot: both are rejected and leave the frame unchanged.
    fb.set_len(0);
    assert_eq!(fb.len(), 255);
    fb.set_len(256);
    assert_eq!(fb.len(), 255);
}

#[test]
fn frame_bytes_read_write() {
    let mut storage = FrameStorage::new(1);
    let mut pool = storage.take().unwrap();
    let mut fb = pool.allocate_raw().unwrap();
    fb.set_len(3);
    fb.set(0, 0xAA);
    fb.set(1, 0xBB);
    fb.set(2, 0xCC);
    assert_eq!(fb.as_bytes(), &[0xAA, 0xBB, 0xCC]);
    assert_eq!(fb.get(1), 0xBB);
    fb.fill_from(&vec![1, 2, 3, 4]);
    assert_eq!(fb.as_bytes(), &[1, 2, 3, 4]);
}

#[test]
fn wire_frame_views() {
    let mut storage = FrameStorage::new(1);
    let mut pool = storage.take().unwrap();
    let mut fb = pool.allocate_raw().unwrap();
    fb.fill_from(&vec![0x47, 0x0D, 0x0E]);
    let mut wfb = WireFrameBox::new_unchecked(fb);
    assert_eq!(wfb.cmd_addr(), CmdAddr::ReplyFromAddr(7));
    assert_eq!(wfb.payload(), &[0x0D, 0x0E]);
    assert_eq!(wfb.len(), 2);
    assert!(!wfb.is_empty());
    wfb.payload_mut(0, 0x0F);
    assert_eq!(wfb.payload(), &[0x0F, 0x0E]);
    wfb.set_len(1);
    assert_eq!(wfb.len(), 1);
    let inner = wfb.into_inner();
    assert_eq!(inner.as_bytes(), &[0x47, 0x0F]);
}

#[test]
fn send_frame_views() {
    let mut storage = FrameStorage::new(1);
    let mut pool = storage.take().unwrap();
    let fb = pool.allocate_raw().unwrap();
    let mut sfb = SendFrameBox::from(fb);
    sfb.set_len(3);
    assert_eq!(sfb.len(), 3);
    assert!(!sfb.is_empty());
    sfb.payload_mut(0, 0x0A);
    sfb.payload_mut(1, 0x0B);
    sfb.payload_mut(2, 0x0C);
    assert_eq!(sfb.payload(), &[0x0A, 0x0B, 0x0C]);
    sfb.set_len(0);
    assert!(sfb.is_empty());
    let inner = sfb.into_inner();
    assert_eq!(inner.len(), 1);
}
