use netmap_rs::netmap::Netmap;
use netmap_rs::ring::{pipe_sync, Ring, RingDir, RxRing, TxRing};
use netmap_rs::Error;

/// Payload of length `buf_size + 1` is rejected with the offending
/// length reported verbatim; the same ring then takes `buf_size` bytes.
#[test]
fn oversize_payload_reported_verbatim() {
    let mut tx = TxRing::new(8, 64, 0);
    let too_big = vec![0u8; 65];
    match tx.send(&too_big) {
        Err(Error::PacketTooLarge(len)) => assert_eq!(len, 65),
        other => panic!("expected PacketTooLarge, got {:?}", other),
    }
    let max = vec![0u8; 64];
    assert!(tx.send(&max).is_ok());
}

/// Reserving every slot of an empty TX ring fails: one slot is kept back
/// to tell a full ring from an empty one.
#[test]
fn reserve_whole_ring_fails() {
    let mut tx = TxRing::new(8, 64, 0);
    assert!(matches!(tx.reserve_batch(8), Err(Error::InsufficientSpace)));
    assert!(matches!(tx.reserve_batch(7), Err(Error::InsufficientSpace)));
    // A fresh ring of 8 slots has 6 slots free.
    assert!(tx.reserve_batch(6).is_ok());
}

/// A full ring rejects further sends until a barrier reclaims slots.
#[test]
fn full_ring_rejects_send_until_sync() {
    let mut tx = TxRing::new(4, 16, 0);
    assert!(tx.send(b"a").is_ok());
    assert!(tx.send(b"b").is_ok());
    assert!(matches!(tx.send(b"c"), Err(Error::InsufficientSpace)));
    tx.sync();
    assert!(tx.send(b"c").is_ok());
    assert!(tx.send(b"d").is_ok());
    assert!(matches!(tx.send(b"e"), Err(Error::InsufficientSpace)));
}

/// Loopback of a single packet over a connected pair.
#[test]
fn loopback_single_packet() {
    let mut tx = TxRing::new(8, 64, 0);
    let mut rx = RxRing::new(8, 64, 0);
    tx.send(b"hello_vale_single").unwrap();
    let moved = pipe_sync(&mut tx, &mut rx);
    assert_eq!(moved, 1);
    let frame = rx.recv().expect("expected a delivered packet");
    assert_eq!(frame.payload(), b"hello_vale_single");
    assert!(rx.recv().is_none());
}

/// Batched loopback of eight packets: packet `i` carries a 10-byte
/// payload whose first byte is `i`; the receiver sees the first bytes
/// `0..=7` in order.
#[test]
fn loopback_batch_of_eight() {
    let mut tx = TxRing::new(16, 64, 0);
    let mut rx = RxRing::new(16, 64, 0);

    let reservation = tx.reserve_batch(8).expect("batch reservation failed");
    assert_eq!(reservation.len(), 8);
    for i in 0..8u8 {
        let mut payload = [0u8; 10];
        payload[0] = i;
        reservation
            .packet(&mut tx, i as usize, &payload)
            .expect("failed to fill packet slot");
    }
    reservation.commit(&mut tx);

    let moved = pipe_sync(&mut tx, &mut rx);
    assert_eq!(moved, 8);
    for i in 0..8u8 {
        let frame = rx.recv().expect("missing frame of the batch");
        assert_eq!(frame.len(), 10);
        assert_eq!(frame.payload()[0], i);
        assert!(frame.payload()[1..].iter().all(|&b| b == 0));
    }
    assert!(rx.recv().is_none());
}

/// A reservation checks its own bounds and the payload bound.
#[test]
fn reservation_bounds() {
    let mut tx = TxRing::new(8, 16, 0);
    let reservation = tx.reserve_batch(2).unwrap();
    assert!(matches!(
        reservation.packet(&mut tx, 2, b"x"),
        Err(Error::InvalidRingIndex(2))
    ));
    match reservation.packet(&mut tx, 0, &[0u8; 17]) {
        Err(Error::PacketTooLarge(len)) => assert_eq!(len, 17),
        other => panic!("expected PacketTooLarge, got {:?}", other),
    }
    assert!(reservation.packet(&mut tx, 0, b"ok").is_ok());
    assert!(reservation.packet(&mut tx, 1, b"ok").is_ok());
}

/// Dropping a reservation without committing leaves the ring unchanged.
#[test]
fn dropped_reservation_advances_nothing() {
    let mut tx = TxRing::new(8, 16, 0);
    let mut rx = RxRing::new(8, 16, 0);
    {
        let reservation = tx.reserve_batch(3).unwrap();
        reservation.packet(&mut tx, 0, b"gone").unwrap();
        // The reservation is dropped here without commit.
    }
    let moved = pipe_sync(&mut tx, &mut rx);
    assert_eq!(moved, 0);
    assert!(rx.recv().is_none());
}

/// Intra-host duplex over two connected pairs, as a pipe provides.
#[test]
fn pipe_duplex() {
    // Master-to-slave direction.
    let mut master_tx = TxRing::new(8, 64, 0);
    let mut slave_rx = RxRing::new(8, 64, 0);
    // Slave-to-master direction.
    let mut slave_tx = TxRing::new(8, 64, 0);
    let mut master_rx = RxRing::new(8, 64, 0);

    master_tx.send(b"master_to_slave_pipe_test").unwrap();
    pipe_sync(&mut master_tx, &mut slave_rx);
    let frame = slave_rx.recv().expect("slave received nothing");
    assert_eq!(frame.payload(), b"master_to_slave_pipe_test");

    slave_tx.send(b"slave_to_master_pipe_test").unwrap();
    pipe_sync(&mut slave_tx, &mut master_rx);
    let frame = master_rx.recv().expect("master received nothing");
    assert_eq!(frame.payload(), b"slave_to_master_pipe_test");
}

/// Batched receive fills the front of the buffer, oldest first, and
/// leaves the rest alone.
#[test]
fn recv_batch_fills_front() {
    let mut tx = TxRing::new(8, 16, 0);
    let mut rx = RxRing::new(8, 16, 0);
    tx.send(b"one").unwrap();
    tx.send(b"two").unwrap();
    tx.send(b"three").unwrap();
    pipe_sync(&mut tx, &mut rx);

    let mut batch = vec![netmap_rs::Frame::new(b""), netmap_rs::Frame::new(b"")];
    let got = rx.recv_batch(&mut batch);
    assert_eq!(got, 2);
    assert_eq!(batch[0].payload(), b"one");
    assert_eq!(batch[1].payload(), b"two");

    let got = rx.recv_batch(&mut batch);
    assert_eq!(got, 1);
    assert_eq!(batch[0].payload(), b"three");
    assert_eq!(batch[1].payload(), b"two");

    let got = rx.recv_batch(&mut batch);
    assert_eq!(got, 0);
}

/// Delivery stops when the receive ring runs out of room; what is left
/// pending moves over on the next barrier.
#[test]
fn partial_delivery_keeps_order() {
    let mut tx = TxRing::new(16, 16, 0);
    // A receive ring of 4 slots has room for 3 packets.
    let mut rx = RxRing::new(4, 16, 0);
    for i in 0..5u8 {
        tx.send(&[i]).unwrap();
    }
    let moved = pipe_sync(&mut tx, &mut rx);
    assert_eq!(moved, 3);
    for i in 0..3u8 {
        assert_eq!(rx.recv().unwrap().payload(), &[i]);
    }
    let moved = pipe_sync(&mut tx, &mut rx);
    assert_eq!(moved, 2);
    for i in 3..5u8 {
        assert_eq!(rx.recv().unwrap().payload(), &[i]);
    }
    assert!(rx.recv().is_none());
}

/// A ring index at the effective ring count is rejected with the index
/// reported verbatim; each valid handle is issued exactly once.
#[test]
fn invalid_ring_index() {
    let mut nm = Netmap::new(1, 1, false, 8, 64);
    assert_eq!(nm.num_tx_rings(), 1);
    assert_eq!(nm.num_rx_rings(), 1);
    assert!(!nm.is_host_if());

    match nm.rx_ring(1) {
        Err(Error::InvalidRingIndex(i)) => assert_eq!(i, 1),
        _ => panic!("expected InvalidRingIndex for RX ring 1"),
    }
    assert!(nm.rx_ring(0).is_ok());
    // The handle was issued: a second take is refused.
    assert!(matches!(nm.rx_ring(0), Err(Error::InvalidRingIndex(0))));

    match nm.tx_ring(1) {
        Err(Error::InvalidRingIndex(i)) => assert_eq!(i, 1),
        _ => panic!("expected InvalidRingIndex for TX ring 1"),
    }
    assert!(nm.tx_ring(0).is_ok());
    assert!(matches!(nm.tx_ring(0), Err(Error::InvalidRingIndex(0))));
}

/// The plain ring type reports its index and geometry, and a barrier on
/// a receive ring with no source publishes nothing.
#[test]
fn ring_geometry_and_bare_sync() {
    let mut ring = Ring::new(RingDir::Rx, 8, 64, 3);
    assert_eq!(ring.index(), 3);
    assert_eq!(ring.num_slots(), 8);
    assert_eq!(ring.buf_size(), 64);
    ring.sync();

    let mut tx = TxRing::new(8, 64, 2);
    assert_eq!(tx.max_payload_size(), 64);
    assert_eq!(tx.num_slots(), 8);
    let mut rx = RxRing::new(8, 64, 2);
    assert_eq!(rx.num_slots(), 8);
    // A barrier on an unconnected receive ring leaves nothing to read.
    rx.sync();
    assert!(rx.recv().is_none());
    // An empty payload is a valid packet.
    tx.send(b"").unwrap();
    pipe_sync(&mut tx, &mut rx);
    let frame = rx.recv().unwrap();
    assert!(frame.is_empty());
    assert_eq!(frame.len(), 0);
}
