use erdnuss_comms::frame_pool::FrameStorage;
use erdnuss_comms::peer::{Peer, PeerState};

fn active_peer(mac: u64) -> Peer {
    let mut p = Peer::new();
    let _ = p.promote_to_pending(mac);
    let _ = p.promote_to_active();
    p
}

#[test]
fn fresh_peer_is_free_with_zero_mac() {
    let p = Peer::new();
    assert_eq!(p.state, PeerState::Free);
    assert_eq!(p.mac(), 0);
    assert!(!p.is_active());
    assert!(p.is_pending().is_none());
    assert!(p.is_known().is_none());
}

#[test]
fn lifecycle_promotions_keep_free_iff_mac_zero() {
    let mut p = Peer::new();
    let _ = p.promote_to_pending(0x1122_3344_5566_7788);
    assert_eq!(p.is_pending(), Some(0x1122_3344_5566_7788));
    assert_ne!(p.mac(), 0);
    let _ = p.promote_to_active();
    assert!(p.is_active());
    assert!(p.is_active_mac(0x1122_3344_5566_7788));
    assert!(!p.is_active_mac(0xDEAD));
    let _ = p.reset_to_known(42);
    assert_eq!(p.is_known(), Some((0x1122_3344_5566_7788, 42)));
    let _ = p.promote_to_active();
    assert!(p.is_active());
    let _ = p.reset_to_free();
    assert_eq!(p.state, PeerState::Free);
    assert_eq!(p.mac(), 0);
}

#[test]
fn warm_start_known() {
    let mut p = Peer::new();
    let _ = p.promote_to_known_with_mac(0xABCD, 7);
    assert_eq!(p.is_known(), Some((0xABCD, 7)));
    assert_eq!(p.counter, 0);
}

#[test]
fn pending_peer_evicted_by_one_error() {
    let mut p = Peer::new();
    let _ = p.promote_to_pending(0xABCD);
    let _ = p.increment_error(100);
    assert_eq!(p.state, PeerState::Free);
    assert_eq!(p.mac(), 0);
}

#[test]
fn active_peer_demoted_by_fourth_error_only() {
    let mut p = active_peer(0xABCD);
    let _ = p.increment_error(1);
    let _ = p.increment_error(2);
    let _ = p.increment_error(3);
    assert!(p.is_active());
    assert_eq!(p.counter, 3);
    let _ = p.increment_error(4);
    assert_eq!(p.is_known(), Some((0xABCD, 4)));
    assert_eq!(p.counter, 0);
    // A fifth error does not demote or change the record again.
    let _ = p.increment_error(5);
    assert_eq!(p.is_known(), Some((0xABCD, 4)));
    assert_eq!(p.counter, 0);
}

#[test]
fn success_clears_the_counter() {
    let mut p = active_peer(0xABCD);
    let _ = p.increment_error(1);
    let _ = p.increment_error(2);
    assert_eq!(p.counter, 2);
    p.set_success();
    assert_eq!(p.counter, 0);
    assert!(p.is_active());
}

#[test]
fn free_and_known_ignore_errors() {
    let mut p = Peer::new();
    let _ = p.increment_error(1);
    assert_eq!(p.state, PeerState::Free);
    let _ = p.promote_to_known_with_mac(0xABCD, 3);
    let _ = p.increment_error(9);
    assert_eq!(p.is_known(), Some((0xABCD, 3)));
}

#[test]
fn outgoing_queue_is_fifo_and_bounded() {
    let mut storage = FrameStorage::new(16);
    let mut pool = storage.take().unwrap();
    let mut p = active_peer(0xABCD);
    for k in 0..8u8 {
        let mut fb = pool.allocate_raw().unwrap();
        fb.set_len(1);
        fb.set(0, k);
        assert!(p.enqueue_outgoing(fb).is_ok());
    }
    let extra = pool.allocate_raw().unwrap();
    let extra_slot = extra.slot;
    let back = p.enqueue_outgoing(extra);
    assert!(back.is_err());
    assert_eq!(back.unwrap_err().slot, extra_slot);
    for k in 0..8u8 {
        let fb = p.dequeue_outgoing().unwrap();
        assert_eq!(fb.get(0), k);
    }
    assert!(p.dequeue_outgoing().is_none());
}

#[test]
fn incoming_queue_is_fifo() {
    let mut p = active_peer(0xABCD);
    let mut storage = FrameStorage::new(4);
    p.set_pool(storage.take().unwrap());
    for k in 0..3u8 {
        let mut fb = p.alloc_incoming().unwrap();
        fb.fill_from(&vec![0x47, k]);
        p.enqueue_incoming(fb);
    }
    for k in 0..3u8 {
        let fb = p.dequeue_incoming().unwrap();
        assert_eq!(fb.get(1), k);
    }
    assert!(p.dequeue_incoming().is_none());
}

#[test]
fn idle_means_free_with_fully_free_pool() {
    let mut p = Peer::new();
    let mut storage = FrameStorage::new(4);
    p.set_pool(storage.take().unwrap());
    assert!(p.is_idle());
    // A live receive frame makes the slot ineligible until released.
    let fb = p.alloc_incoming().unwrap();
    assert!(!p.is_idle());
    assert!(p.incoming_pool.release(fb).is_ok());
    assert!(p.is_idle());
    // A non-Free record is never idle.
    let mut p2 = active_peer(0xABCD);
    let mut storage2 = FrameStorage::new(4);
    p2.set_pool(storage2.take().unwrap());
    assert!(!p2.is_idle());
}

#[test]
fn eviction_clears_queues_and_frees_pool_slots() {
    let mut p = active_peer(0xABCD);
    let mut storage = FrameStorage::new(4);
    p.set_pool(storage.take().unwrap());
    let mut fb = p.alloc_incoming().unwrap();
    fb.fill_from(&vec![0x47, 1]);
    p.enqueue_incoming(fb);
    for _ in 0..4 {
        let _ = p.increment_error(10);
    }
    // Demoted to Known: queues cleared, the queued receive frame's slot
    // returned to the pool.
    assert_eq!(p.is_known(), Some((0xABCD, 10)));
    assert!(p.dequeue_incoming().is_none());
    assert_eq!(p.incoming_pool.count_allocatable(), 4);
}
