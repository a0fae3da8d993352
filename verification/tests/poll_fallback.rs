use netmap_rs::fallback::{FallbackRxRing, FallbackTxRing};
use netmap_rs::poll::{rx_poll_decision, tx_poll_decision, RxPollAction, TxPollAction};
use netmap_rs::ring::{pipe_sync, RxRing, TxRing};
use netmap_rs::Error;

#[test]
fn read_poll_empty_ring_suspends() {
    assert_eq!(rx_poll_decision(3, 3, 8, 0, 64), RxPollAction::Pending);
}

#[test]
fn read_poll_consumes_empty_slot() {
    // A zero-length slot is silently consumed.
    assert_eq!(
        rx_poll_decision(2, 5, 8, 0, 64),
        RxPollAction::ConsumeEmpty { next: 3 }
    );
    // A full caller buffer likewise consumes the slot without bytes.
    assert_eq!(
        rx_poll_decision(2, 5, 8, 10, 0),
        RxPollAction::ConsumeEmpty { next: 3 }
    );
}

#[test]
fn read_poll_delivers_min_and_wraps() {
    assert_eq!(
        rx_poll_decision(2, 5, 8, 100, 64),
        RxPollAction::Deliver { len: 64, next: 3 }
    );
    assert_eq!(
        rx_poll_decision(2, 5, 8, 10, 64),
        RxPollAction::Deliver { len: 10, next: 3 }
    );
    // The cursor wraps at the end of the ring.
    assert_eq!(
        rx_poll_decision(7, 2, 8, 10, 64),
        RxPollAction::Deliver { len: 10, next: 0 }
    );
}

#[test]
fn write_poll_decisions_in_order() {
    // An empty buffer completes at once with zero bytes.
    assert_eq!(tx_poll_decision(0, 7, 8, 0, 2048), TxPollAction::WriteZero);
    // An oversize buffer fails at once.
    assert_eq!(tx_poll_decision(0, 7, 8, 2049, 2048), TxPollAction::TooLarge);
    // A full ring suspends: head + 1 == tail.
    assert_eq!(tx_poll_decision(6, 7, 8, 64, 2048), TxPollAction::Pending);
    // Otherwise one packet is written at head.
    assert_eq!(
        tx_poll_decision(3, 7, 8, 64, 2048),
        TxPollAction::Write { slot: 3, next: 4 }
    );
    // The cursor wraps at the end of the ring.
    assert_eq!(
        tx_poll_decision(7, 3, 8, 64, 2048),
        TxPollAction::Write { slot: 7, next: 0 }
    );
}

/// A 64-byte buffer written on one end of a pipe arrives as one packet
/// of exactly 64 bytes on the other, as the asynchronous adapter sends
/// it: one write-poll call writes one packet.
#[test]
fn async_pipe_round_trip_payload() {
    let payload_text = b"tokio_async_pipe_payload_test_data";
    let mut buffer = [0u8; 64];
    buffer[..payload_text.len()].copy_from_slice(payload_text);

    let mut tx = TxRing::new(8, 2048, 0);
    let mut rx = RxRing::new(8, 2048, 0);

    // The write path decides to write the whole buffer as one packet.
    match tx_poll_decision(0, 7, 8, buffer.len(), 2048) {
        TxPollAction::Write { slot, next } => {
            assert_eq!(slot, 0);
            assert_eq!(next, 1);
        }
        other => panic!("expected a write decision, got {:?}", other),
    }
    tx.send(&buffer).unwrap();
    pipe_sync(&mut tx, &mut rx);

    let frame = rx.recv().expect("receive timed out");
    assert_eq!(frame.len(), 64);
    assert_eq!(frame.payload(), &buffer);
}

#[test]
fn fallback_bounded_send() {
    let mut tx = FallbackTxRing::new(32);
    for i in 0..32 {
        tx.send(&[i as u8]).unwrap();
    }
    match tx.send(b"overflow") {
        Err(Error::WouldBlock) => {}
        Err(e) => panic!("Expected WouldBlock, got {:?}", e),
        Ok(_) => panic!("Expected WouldBlock, but send succeeded"),
    }
}

#[test]
fn fallback_recv_in_order() {
    let mut rx = FallbackRxRing::new(32);
    assert!(rx.recv().is_none());
    rx.send(b"test").unwrap();
    rx.send(b"more").unwrap();
    let frame = rx.recv().unwrap();
    assert_eq!(frame.payload(), b"test");
    let frame = rx.recv().unwrap();
    assert_eq!(frame.payload(), b"more");
    assert!(rx.recv().is_none());
}
