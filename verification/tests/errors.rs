use std::io;

use netmap_rs::netmap::{Netmap, NetmapBuilder};
use netmap_rs::Error;

#[test]
fn messages_name_each_failure() {
    assert_eq!(
        Error::Io(io::Error::new(io::ErrorKind::Other, "x")).message(),
        "I/O error"
    );
    assert_eq!(Error::WouldBlock.message(), "Operation would block");
    assert_eq!(
        Error::BindFail("eth0".to_string()).message(),
        "Failed to bind to interface"
    );
    assert_eq!(Error::InvalidRingIndex(3).message(), "Invalid ring index");
    assert_eq!(
        Error::PacketTooLarge(2049).message(),
        "Packet too large for ring buffer"
    );
    assert_eq!(
        Error::InsufficientSpace.message(),
        "Not enough space in ring buffer"
    );
    assert_eq!(
        Error::UnsupportedPlatform("hurd".to_string()).message(),
        "Platform not yet supported"
    );
    assert_eq!(
        Error::FallbackUnsupported("batch".to_string()).message(),
        "Feature not supported in fallback mode"
    );
}

/// A recoverable error embeds into a platform error with the `Other`
/// kind; only the I/O variant keeps its own kind.
#[test]
fn non_io_errors_embed_as_other() {
    let e = Error::WouldBlock.into_io_error();
    assert_eq!(e.kind(), io::ErrorKind::Other);

    let e = Error::InsufficientSpace.into_io_error();
    assert_eq!(e.kind(), io::ErrorKind::Other);

    let inner = io::Error::new(io::ErrorKind::PermissionDenied, "no");
    let e = Error::Io(inner).into_io_error();
    assert_eq!(e.kind(), io::ErrorKind::PermissionDenied);
}

/// Requested ring counts wrap into the request's sixteen-bit fields as
/// the setters store them.
#[test]
fn ring_count_setters_store_low_bits() {
    let req = NetmapBuilder::new("eth0")
        .num_tx_rings(4)
        .num_rx_rings(70000)
        .build_nmreq()
        .unwrap();
    assert_eq!(req.nr_tx_rings, 4);
    assert_eq!(req.nr_rx_rings, (70000 % 65536) as u16);
}

/// An endpoint with no rings rejects every index.
#[test]
fn zero_ring_endpoint_rejects_all_indices() {
    let mut nm = Netmap::new(0, 0, true, 8, 64);
    assert!(nm.is_host_if());
    assert!(matches!(nm.tx_ring(0), Err(Error::InvalidRingIndex(0))));
    assert!(matches!(nm.rx_ring(0), Err(Error::InvalidRingIndex(0))));
}
