use netmap_rs::error::Error;
use netmap_rs::frame::Frame;
use std::io;

// Test that the crate compiles with all features
#[test]
fn test_crate_compiles() {
    // This test just ensures the crate compiles
    assert!(true);
}

// Test error handling
#[test]
fn test_error_conversions() {
    // Test IO error conversion
    let io_error = io::Error::new(io::ErrorKind::NotFound, "test error");
    let netmap_error: Error = io_error.into();

    // Convert back to IO error: an Io variant passes its platform error
    // through unchanged, so the kind survives the round trip.
    let io_error_again: io::Error = netmap_error.into_io_error();
    assert_eq!(io_error_again.kind(), io::ErrorKind::NotFound);
}

// Test Frame functionality
#[test]
fn test_frame_creation() {
    let data = b"test packet data";

    // Test new() method
    let frame1 = Frame::new(data);
    assert_eq!(frame1.len(), data.len());
    assert_eq!(frame1.payload(), data);

    // Test new_borrowed() method (should be same as new)
    let frame2 = Frame::new_borrowed(data);
    assert_eq!(frame2.len(), data.len());
    assert_eq!(frame2.payload(), data);

    // Test new_owned() method
    let owned_data = data.to_vec();
    let frame3 = Frame::new_owned(owned_data);
    assert_eq!(frame3.len(), data.len());
    assert_eq!(frame3.payload(), data);

    // Test From implementation
    let frame4: Frame = data.as_slice().into();
    assert_eq!(frame4.len(), data.len());
    assert_eq!(frame4.payload(), data);
}

// Test feature flags
#[test]
fn test_sys_feature_enabled() {
    // Test that sys-specific types are available
    let _ = netmap_rs::netmap::NetmapBuilder::new("test");
}

#[test]
fn test_sys_feature_disabled() {
    // Test that sys-specific types are not available without feature
    // This should compile but the types won't be accessible
}

// Test that all error variants can be created
#[test]
fn test_all_error_variants() {
    let errors = vec![
        Error::Io(io::Error::new(io::ErrorKind::Other, "test")),
        Error::WouldBlock,
        Error::BindFail("test interface".to_string()),
        Error::InvalidRingIndex(42),
        Error::PacketTooLarge(9000),
        Error::InsufficientSpace,
        Error::UnsupportedPlatform("test platform".to_string()),
        Error::FallbackUnsupported("test feature".to_string()),
    ];

    for error in errors {
        // Just ensure they can be created and described
        let _ = error.message();
    }
}

// Test documentation examples compile
#[test]
fn test_doc_examples() {
    // This ensures the examples in lib.rs compile correctly
    // We can't actually run them without netmap, but we can ensure they parse

    // Example from lib.rs documentation
    let _example = r#"
use netmap_rs::prelude::*;
use std::thread::sleep;
use std::time::Duration;

fn main() -> Result<(), Error> {
    let nm = NetmapBuilder::new("netmap:eth0")
        .num_tx_rings(1)
        .num_rx_rings(1)
        .build()?;

    let mut tx_ring = nm.tx_ring(0)?;
    let mut rx_ring = nm.rx_ring(0)?;

    let packet_data = b"hello netmap!";
    tx_ring.send(packet_data)?;
    tx_ring.sync();

    rx_ring.sync();
    while let Some(frame) = rx_ring.recv() {
        println!("Received packet: {:?}", frame.payload());
        break;
    }

    Ok(())
}
"#;

    // Just ensure the example string exists
    assert!(!_example.is_empty());
}

#[test]
fn it_works() {
    assert_eq!(2 + 2, 4);
}
