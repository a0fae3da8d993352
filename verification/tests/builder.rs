use netmap_rs::netmap::{
    effective_counts, NetmapBuilder, IFNAMSIZ, NETMAP_API_VERSION, NR_REG_NIC_ONLY, NR_REG_SW_ONLY,
};
use netmap_rs::Error;

/// Parsing an identifier with and without the framework prefix yields the
/// same request structure.
#[test]
fn prefix_and_bare_name_build_equal_requests() {
    let with_prefix = NetmapBuilder::new("netmap:eth0").build_nmreq().unwrap();
    let bare = NetmapBuilder::new("eth0").build_nmreq().unwrap();
    assert_eq!(with_prefix, bare);

    let with_prefix = NetmapBuilder::new("netmap:eth0^").build_nmreq().unwrap();
    let bare = NetmapBuilder::new("eth0^").build_nmreq().unwrap();
    assert_eq!(with_prefix, bare);
}

#[test]
fn hardware_request_fields() {
    let req = NetmapBuilder::new("eth0")
        .num_tx_rings(2)
        .num_rx_rings(3)
        .build_nmreq()
        .unwrap();
    assert_eq!(req.nr_name.len(), IFNAMSIZ);
    assert_eq!(&req.nr_name[..4], b"eth0");
    assert!(req.nr_name[4..].iter().all(|&b| b == 0));
    assert_eq!(req.nr_version, NETMAP_API_VERSION);
    assert_eq!(req.nr_tx_rings, 2);
    assert_eq!(req.nr_rx_rings, 3);
    assert_eq!(req.nr_host_tx_rings, 0);
    assert_eq!(req.nr_host_rx_rings, 0);
    assert_eq!(req.nr_flags & NR_REG_NIC_ONLY, NR_REG_NIC_ONLY);
    assert_eq!(req.nr_flags & NR_REG_SW_ONLY, 0);
}

#[test]
fn host_suffix_selects_host_fields() {
    let req = NetmapBuilder::new("netmap:eth0^")
        .num_tx_rings(1)
        .num_rx_rings(1)
        .build_nmreq()
        .unwrap();
    // The caret is stripped from the stored name.
    assert_eq!(&req.nr_name[..4], b"eth0");
    assert!(req.nr_name[4..].iter().all(|&b| b == 0));
    assert_eq!(req.nr_flags & NR_REG_SW_ONLY, NR_REG_SW_ONLY);
    assert_eq!(req.nr_tx_rings, 0);
    assert_eq!(req.nr_rx_rings, 0);
    assert_eq!(req.nr_host_tx_rings, 1);
    assert_eq!(req.nr_host_rx_rings, 1);
}

#[test]
fn pipe_defaults_to_one_ring_each_and_no_mode_bit() {
    let req = NetmapBuilder::new("pipe{abc}").build_nmreq().unwrap();
    assert_eq!(&req.nr_name[..9], b"pipe{abc}");
    assert_eq!(req.nr_flags, 0);
    assert_eq!(req.nr_tx_rings, 1);
    assert_eq!(req.nr_rx_rings, 1);
    assert_eq!(req.nr_host_tx_rings, 0);
    assert_eq!(req.nr_host_rx_rings, 0);
}

#[test]
fn vale_port_name_is_kept_whole() {
    let req = NetmapBuilder::new("vale0:1").build_nmreq().unwrap();
    assert_eq!(&req.nr_name[..7], b"vale0:1");
    assert_eq!(req.nr_flags & NR_REG_NIC_ONLY, NR_REG_NIC_ONLY);
}

#[test]
fn extra_flags_are_ored_in() {
    let req = NetmapBuilder::new("eth0").flags(0x4000).build_nmreq().unwrap();
    assert_eq!(req.nr_flags & 0x4000, 0x4000);
    assert_eq!(req.nr_flags & NR_REG_NIC_ONLY, NR_REG_NIC_ONLY);
}

/// A base name that does not fit the fixed name field fails before any
/// call into the platform.
#[test]
fn overlong_name_fails_bind() {
    // Sixteen characters: one too many for a field of 15 plus NUL.
    let r = NetmapBuilder::new("abcdefghijklmnop").build_nmreq();
    assert!(matches!(r, Err(Error::BindFail(_))));

    // Fifteen characters still fit.
    let r = NetmapBuilder::new("abcdefghijklmno").build_nmreq();
    assert!(r.is_ok());
}

#[test]
fn effective_counts_select_by_attachment_kind() {
    assert_eq!(effective_counts(true, false, 1, 1, 0, 0), (1, 1, false));
    assert_eq!(effective_counts(true, true, 2, 3, 4, 5), (2, 3, false));
    assert_eq!(effective_counts(false, true, 2, 3, 4, 5), (4, 5, true));
    assert_eq!(effective_counts(false, false, 2, 3, 4, 5), (2, 3, false));
}
