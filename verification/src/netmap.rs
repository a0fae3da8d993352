//! Endpoint configuration: parsing an interface identifier, building the
//! framework's request structure, and the endpoint handle that reports the
//! discovered ring topology and yields ring handles.

use vstd::prelude::*;

use crate::error::Error;
use vstd::string::StringSliceAdditionalSpecFns;

verus! {

/// Size of the framework's fixed name field, including the trailing NUL.
pub const IFNAMSIZ: usize = 16;

/// Version stamp placed in the request structure's `nr_version` field.
pub const NETMAP_API_VERSION: u16 = 14;

/// Registration-mode bit: attach to the NIC rings only.
pub const NR_REG_NIC_ONLY: u32 = 0x1;

/// Registration-mode bit: attach to the host-stack rings only.
pub const NR_REG_SW_ONLY: u32 = 0x2;

/// Byte values of the characters the identifier grammar inspects.
pub const CH_N: u8 = 110;
pub const CH_E: u8 = 101;
pub const CH_T: u8 = 116;
pub const CH_M: u8 = 109;
pub const CH_A: u8 = 97;
pub const CH_P: u8 = 112;
pub const CH_I: u8 = 105;
pub const CH_COLON: u8 = 58;
pub const CH_LBRACE: u8 = 123;
pub const CH_RBRACE: u8 = 125;
pub const CH_CARET: u8 = 94;

/// The identifier prefix that names the framework, as bytes: `netmap:`.
pub open spec fn framework_prefix() -> Seq<u8> {
    seq![CH_N, CH_E, CH_T, CH_M, CH_A, CH_P, CH_COLON]
}

/// The shape that marks a named pipe identifier, as bytes: `pipe{`.
pub open spec fn pipe_marker() -> Seq<u8> {
    seq![CH_P, CH_I, CH_P, CH_E, CH_LBRACE]
}

/// Whether `s` starts with the byte sequence `p`.
pub open spec fn spec_has_prefix(s: Seq<u8>, p: Seq<u8>) -> bool {
    s.len() >= p.len() && s.take(p.len() as int) == p
}

/// Whether `s` contains the byte `c`.
pub open spec fn spec_contains(s: Seq<u8>, c: u8) -> bool {
    exists|i: int| 0 <= i < s.len() && s[i] == c
}

/// The identifier with the framework prefix stripped, when present.
pub open spec fn spec_base_for_req(s: Seq<u8>) -> Seq<u8> {
    if spec_has_prefix(s, framework_prefix()) {
        s.skip(framework_prefix().len() as int)
    } else {
        s
    }
}

/// The argument handed to the framework's open call: the identifier as
/// given, with the framework prefix prepended when the identifier is a
/// plain OS interface name.
pub open spec fn spec_raw_name(s: Seq<u8>) -> Seq<u8> {
    if spec_has_prefix(s, framework_prefix()) {
        s
    } else if !spec_contains(s, CH_COLON) && !spec_has_prefix(s, pipe_marker()) {
        framework_prefix() + s
    } else {
        s
    }
}

/// Whether the identifier asks for host-stack rings: a trailing `^`.
pub open spec fn spec_wants_host(s: Seq<u8>) -> bool {
    spec_base_for_req(s).len() > 0 && spec_base_for_req(s).last() == CH_CARET
}

/// The base name stored in the request: the identifier without prefix and
/// without the host-stack suffix.
pub open spec fn spec_effective_base(s: Seq<u8>) -> Seq<u8> {
    let base = spec_base_for_req(s);
    if spec_wants_host(s) {
        base.take(base.len() - 1)
    } else {
        base
    }
}

/// Whether the identifier names an intra-host pipe: shape `pipe{...}`.
pub open spec fn spec_is_pipe(s: Seq<u8>) -> bool {
    let base = spec_base_for_req(s);
    spec_has_prefix(base, pipe_marker()) && base.len() > 0 && base.last() == CH_RBRACE
}

/// The ring count a fresh builder requests: pipes default to one ring of
/// each kind, every other identifier to zero, meaning all available rings.
pub open spec fn spec_default_rings(s: Seq<u8>) -> u16 {
    if spec_is_pipe(s) {
        1u16
    } else {
        0u16
    }
}

/// Mathematical content of a [`NetmapBuilder`].
#[verifier::ext_equal]
pub struct BuilderModel {
    /// The argument for the framework's open call.
    pub raw: Seq<u8>,
    /// The base name for the request's name field.
    pub base: Seq<u8>,
    /// Whether host-stack rings were asked for.
    pub host: bool,
    /// Whether the identifier names a pipe.
    pub pipe: bool,
    /// Requested TX ring count.
    pub tx: u16,
    /// Requested RX ring count.
    pub rx: u16,
    /// Extra request flags supplied by the caller.
    pub flags: u32,
}

/// The builder state that parsing an identifier `s` yields.
pub open spec fn spec_parse(s: Seq<u8>) -> BuilderModel {
    BuilderModel {
        raw: spec_raw_name(s),
        base: spec_effective_base(s),
        host: spec_wants_host(s),
        pipe: spec_is_pipe(s),
        tx: spec_default_rings(s),
        rx: spec_default_rings(s),
        flags: 0u32,
    }
}

/// Mathematical content of an [`NmReq`].
#[verifier::ext_equal]
pub struct NmReqModel {
    /// The zero-padded name field, exactly [`IFNAMSIZ`] bytes.
    pub name: Seq<u8>,
    /// The framework's API version stamp.
    pub version: u16,
    /// Offset of the shared region; zero in a request.
    pub offset: u32,
    /// Size of the shared region; zero in a request.
    pub memsize: u32,
    /// Requested slots per TX ring; zero lets the framework decide.
    pub tx_slots: u32,
    /// Requested slots per RX ring; zero lets the framework decide.
    pub rx_slots: u32,
    /// Requested hardware (or pipe) TX rings.
    pub tx_rings: u16,
    /// Requested hardware (or pipe) RX rings.
    pub rx_rings: u16,
    /// Requested host-stack TX rings.
    pub host_tx_rings: u16,
    /// Requested host-stack RX rings.
    pub host_rx_rings: u16,
    /// Ring selector; zero requests all rings of the component.
    pub ringid: u16,
    /// Registration-mode bits ORed with the caller's extra flags.
    pub flags: u32,
}

/// The request structure that a builder state configures. The name field
/// holds the base name; the registration mode is selected exactly once:
/// no bit for a pipe, the host-only bit for a host-stack attachment, the
/// NIC-only bit otherwise; counts go into the field pair matching the
/// attachment kind.
pub open spec fn spec_build_nmreq(b: BuilderModel) -> NmReqModel {
    NmReqModel {
        name: b.base + Seq::new((IFNAMSIZ - b.base.len()) as nat, |i: int| 0u8),
        version: NETMAP_API_VERSION,
        offset: 0u32,
        memsize: 0u32,
        tx_slots: 0u32,
        rx_slots: 0u32,
        tx_rings: if b.pipe || !b.host { b.tx } else { 0u16 },
        rx_rings: if b.pipe || !b.host { b.rx } else { 0u16 },
        host_tx_rings: if !b.pipe && b.host { b.tx } else { 0u16 },
        host_rx_rings: if !b.pipe && b.host { b.rx } else { 0u16 },
        ringid: 0u16,
        flags: if b.pipe {
            b.flags
        } else if b.host {
            b.flags | NR_REG_SW_ONLY
        } else {
            b.flags | NR_REG_NIC_ONLY
        },
    }
}

/// The framework's request structure, built by
/// [`NetmapBuilder::build_nmreq`] and handed to the open call.
#[derive(Debug, PartialEq, Eq)]
pub struct NmReq {
    /// The zero-padded name field, exactly [`IFNAMSIZ`] bytes.
    pub nr_name: Vec<u8>,
    /// The framework's API version stamp.
    pub nr_version: u16,
    /// Offset of the shared region; zero in a request.
    pub nr_offset: u32,
    /// Size of the shared region; zero in a request.
    pub nr_memsize: u32,
    /// Requested slots per TX ring; zero lets the framework decide.
    pub nr_tx_slots: u32,
    /// Requested slots per RX ring; zero lets the framework decide.
    pub nr_rx_slots: u32,
    /// Requested hardware (or pipe) TX rings.
    pub nr_tx_rings: u16,
    /// Requested hardware (or pipe) RX rings.
    pub nr_rx_rings: u16,
    /// Requested host-stack TX rings.
    pub nr_host_tx_rings: u16,
    /// Requested host-stack RX rings.
    pub nr_host_rx_rings: u16,
    /// Ring selector; zero requests all rings of the component.
    pub nr_ringid: u16,
    /// Registration-mode bits ORed with the caller's extra flags.
    pub nr_flags: u32,
}

impl View for NmReq {
    type V = NmReqModel;

    closed spec fn view(&self) -> NmReqModel {
        NmReqModel {
            name: self.nr_name@,
            version: self.nr_version,
            offset: self.nr_offset,
            memsize: self.nr_memsize,
            tx_slots: self.nr_tx_slots,
            rx_slots: self.nr_rx_slots,
            tx_rings: self.nr_tx_rings,
            rx_rings: self.nr_rx_rings,
            host_tx_rings: self.nr_host_tx_rings,
            host_rx_rings: self.nr_host_rx_rings,
            ringid: self.nr_ringid,
            flags: self.nr_flags,
        }
    }
}

/// Builder for configuring and opening an endpoint of the framework.
///
/// The identifier can be a plain OS interface name (`eth0`), a virtual
/// switch port (`vale0:1`), or a named pipe (`pipe{token}`); a trailing
/// `^` asks for the host-stack rings of the interface instead of the
/// hardware rings.
pub struct NetmapBuilder {
    ifname_raw: Vec<u8>,
    base_ifname: Vec<u8>,
    wants_host_rings: bool,
    is_pipe_if: bool,
    req_num_tx_rings: u16,
    req_num_rx_rings: u16,
    additional_flags: u32,
}

impl View for NetmapBuilder {
    type V = BuilderModel;

    closed spec fn view(&self) -> BuilderModel {
        BuilderModel {
            raw: self.ifname_raw@,
            base: self.base_ifname@,
            host: self.wants_host_rings,
            pipe: self.is_pipe_if,
            tx: self.req_num_tx_rings,
            rx: self.req_num_rx_rings,
            flags: self.additional_flags,
        }
    }
}

/// Whether `s` starts with the byte sequence `p`.
fn slice_has_prefix(s: &[u8], p: &[u8]) -> (r: bool)
    ensures
        r == spec_has_prefix(s@, p@),
{
    if s.len() < p.len() {
        return false;
    }
    let mut i: usize = 0;
    while i < p.len()
        invariant
            0 <= i <= p@.len() <= s@.len(),
            forall|j: int| 0 <= j < i ==> s@[j] == p@[j],
        decreases p@.len() - i,
    {
        if s[i] != p[i] {
            proof {
                assert(s@.take(p@.len() as int)[i as int] != p@[i as int]);
            }
            return false;
        }
        i += 1;
    }
    proof {
        assert(s@.take(p@.len() as int) =~= p@);
    }
    true
}

/// Whether `s` contains the byte `c`.
fn slice_contains(s: &[u8], c: u8) -> (r: bool)
    ensures
        r == spec_contains(s@, c),
{
    let mut i: usize = 0;
    while i < s.len()
        invariant
            0 <= i <= s@.len(),
            forall|j: int| 0 <= j < i ==> s@[j] != c,
        decreases s@.len() - i,
    {
        if s[i] == c {
            return true;
        }
        i += 1;
    }
    false
}

/// Copies `s[from..to]` into a fresh vector.
fn copy_range(s: &[u8], from: usize, to: usize) -> (v: Vec<u8>)
    requires
        from <= to <= s@.len(),
    ensures
        v@ == s@.subrange(from as int, to as int),
{
    let mut v: Vec<u8> = Vec::new();
    let mut i: usize = from;
    while i < to
        invariant
            from <= i <= to <= s@.len(),
            v@ =~= s@.subrange(from as int, i as int),
        decreases to - i,
    {
        v.push(s[i]);
        proof {
            assert(v@ =~= s@.subrange(from as int, i + 1));
        }
        i += 1;
    }
    v
}

/// The framework prefix `netmap:` as a vector of bytes.
fn framework_prefix_vec() -> (v: Vec<u8>)
    ensures
        v@ == framework_prefix(),
{
    let mut v: Vec<u8> = Vec::new();
    v.push(CH_N);
    v.push(CH_E);
    v.push(CH_T);
    v.push(CH_M);
    v.push(CH_A);
    v.push(CH_P);
    v.push(CH_COLON);
    proof {
        assert(v@ =~= framework_prefix());
    }
    v
}

/// The pipe marker `pipe{` as a vector of bytes.
fn pipe_marker_vec() -> (v: Vec<u8>)
    ensures
        v@ == pipe_marker(),
{
    let mut v: Vec<u8> = Vec::new();
    v.push(CH_P);
    v.push(CH_I);
    v.push(CH_P);
    v.push(CH_E);
    v.push(CH_LBRACE);
    proof {
        assert(v@ =~= pipe_marker());
    }
    v
}

impl NetmapBuilder {
    /// Creates a new builder for the given interface identifier.
    ///
    /// The framework prefix is stripped from the base name when present and
    /// prepended to the open argument when the identifier is a plain OS
    /// interface name; a trailing `^` selects host-stack rings; a
    /// `pipe{...}` shape marks a pipe, whose ring counts default to one.
    pub fn new(ifname_str: &str) -> (b: NetmapBuilder)
        ensures
            b@ == spec_parse(ifname_str.spec_bytes()),
    {
        let bytes: &[u8] = ifname_str.as_bytes();
        let prefix = framework_prefix_vec();
        let marker = pipe_marker_vec();

        let has_prefix = slice_has_prefix(bytes, prefix.as_slice());

        // The base name before suffix handling.
        let mut base = if has_prefix {
            copy_range(bytes, prefix.len(), bytes.len())
        } else {
            copy_range(bytes, 0, bytes.len())
        };
        proof {
            assert(base@ =~= spec_base_for_req(bytes@));
        }

        // The argument for the open call.
        let raw = if has_prefix {
            copy_range(bytes, 0, bytes.len())
        } else if !slice_contains(bytes, CH_COLON) && !slice_has_prefix(bytes, marker.as_slice()) {
            let mut joined = framework_prefix_vec();
            let mut rest = copy_range(bytes, 0, bytes.len());
            joined.append(&mut rest);
            joined
        } else {
            copy_range(bytes, 0, bytes.len())
        };
        proof {
            assert(raw@ =~= spec_raw_name(bytes@));
        }

        let wants_host = base.len() > 0 && base[base.len() - 1] == CH_CARET;
        proof {
            assert(wants_host == spec_wants_host(bytes@));
        }
        let is_pipe = slice_has_prefix(base.as_slice(), marker.as_slice()) && base.len() > 0
            && base[base.len() - 1] == CH_RBRACE;
        if wants_host {
            base.pop();
        }
        proof {
            assert(base@ =~= spec_effective_base(bytes@));
        }

        let default_rings: u16 = if is_pipe {
            1
        } else {
            0
        };

        NetmapBuilder {
            ifname_raw: raw,
            base_ifname: base,
            wants_host_rings: wants_host,
            is_pipe_if: is_pipe,
            req_num_tx_rings: default_rings,
            req_num_rx_rings: default_rings,
            additional_flags: 0,
        }
    }

    /// Sets the desired number of TX rings: host rings for a host-stack
    /// identifier, pipe rings for a pipe, hardware rings otherwise. Zero
    /// asks for all available rings of the requested kind.
    pub fn num_tx_rings(self, num: usize) -> (b: Self)
        ensures
            b@ == (BuilderModel { tx: num as u16, ..self@ }),
    {
        let mut b = self;
        b.req_num_tx_rings = #[verifier::truncate] (num as u16);
        b
    }

    /// Sets the desired number of RX rings: host rings for a host-stack
    /// identifier, pipe rings for a pipe, hardware rings otherwise. Zero
    /// asks for all available rings of the requested kind.
    pub fn num_rx_rings(self, num: usize) -> (b: Self)
        ensures
            b@ == (BuilderModel { rx: num as u16, ..self@ }),
    {
        let mut b = self;
        b.req_num_rx_rings = #[verifier::truncate] (num as u16);
        b
    }

    /// Sets additional request flags, ORed with the registration-mode bits
    /// that the identifier's shape selects.
    pub fn flags(self, flags: u32) -> (b: Self)
        ensures
            b@ == (BuilderModel { flags: flags, ..self@ }),
    {
        let mut b = self;
        b.additional_flags = flags;
        b
    }

    /// The argument for the framework's open call: the identifier with
    /// the prefix prepended when it was a plain OS interface name.
    pub fn ifname_raw(&self) -> (v: &Vec<u8>)
        ensures
            v@ == self@.raw,
    {
        &self.ifname_raw
    }

    /// Whether the identifier asked for the host-stack rings.
    pub fn wants_host_rings(&self) -> (b: bool)
        ensures
            b == self@.host,
    {
        self.wants_host_rings
    }

    /// Whether the identifier names an intra-host pipe.
    pub fn is_pipe_if(&self) -> (b: bool)
        ensures
            b == self@.pipe,
    {
        self.is_pipe_if
    }

    /// Builds the framework's request structure from the configured state.
    /// Fails with [`Error::BindFail`] exactly when the base name does not
    /// fit the fixed name field, before any call into the platform.
    pub fn build_nmreq(&self) -> (r: Result<NmReq, Error>)
        ensures
            self@.base.len() >= IFNAMSIZ ==> (r matches Err(e) && e matches Error::BindFail(_)),
            self@.base.len() < IFNAMSIZ ==> (r matches Ok(req) && req@ == spec_build_nmreq(self@)),
    {
        if self.base_ifname.len() >= IFNAMSIZ {
            return Err(Error::BindFail(bytes_to_string(&self.base_ifname)));
        }

        let mut name = crate::util::copy_bytes(self.base_ifname.as_slice());
        while name.len() < IFNAMSIZ
            invariant
                self@.base.len() <= name@.len() <= IFNAMSIZ,
                name@ =~= self@.base + Seq::new((name@.len() - self@.base.len()) as nat, |i: int| 0u8),
            decreases IFNAMSIZ - name@.len(),
        {
            name.push(0u8);
            proof {
                assert(name@ =~= self@.base
                    + Seq::new((name@.len() - self@.base.len()) as nat, |i: int| 0u8));
            }
        }

        let mut req_flags = self.additional_flags;
        let mut hw_tx_rings: u16 = 0;
        let mut hw_rx_rings: u16 = 0;
        let mut host_tx_rings: u16 = 0;
        let mut host_rx_rings: u16 = 0;

        if self.is_pipe_if {
            // The pipe name is self-describing: no registration-mode bit;
            // the hardware count fields carry the pipe endpoint's rings.
            hw_tx_rings = self.req_num_tx_rings;
            hw_rx_rings = self.req_num_rx_rings;
        } else if self.wants_host_rings {
            req_flags = req_flags | NR_REG_SW_ONLY;
            host_tx_rings = self.req_num_tx_rings;
            host_rx_rings = self.req_num_rx_rings;
        } else {
            req_flags = req_flags | NR_REG_NIC_ONLY;
            hw_tx_rings = self.req_num_tx_rings;
            hw_rx_rings = self.req_num_rx_rings;
        }

        let req = NmReq {
            nr_name: name,
            nr_version: NETMAP_API_VERSION,
            nr_offset: 0,
            nr_memsize: 0,
            nr_tx_slots: 0,
            nr_rx_slots: 0,
            nr_tx_rings: hw_tx_rings,
            nr_rx_rings: hw_rx_rings,
            nr_host_tx_rings: host_tx_rings,
            nr_host_rx_rings: host_rx_rings,
            nr_ringid: 0,
            nr_flags: req_flags,
        };
        proof {
            assert(req@ =~= spec_build_nmreq(self@));
        }
        Ok(req)
    }
}

/// The effective ring counts and the host flag of a freshly opened
/// endpoint, selected from the post-open descriptor's fields by the
/// attachment kind: hardware counts for a pipe or a NIC/switch port,
/// host-stack counts for a host attachment.
pub fn effective_counts(
    is_pipe: bool,
    wants_host: bool,
    ni_tx_rings: usize,
    ni_rx_rings: usize,
    ni_host_tx_rings: usize,
    ni_host_rx_rings: usize,
) -> (r: (usize, usize, bool))
    ensures
        is_pipe ==> r == (ni_tx_rings, ni_rx_rings, false),
        !is_pipe && wants_host ==> r == (ni_host_tx_rings, ni_host_rx_rings, true),
        !is_pipe && !wants_host ==> r == (ni_tx_rings, ni_rx_rings, false),
{
    if is_pipe {
        (ni_tx_rings, ni_rx_rings, false)
    } else if wants_host {
        (ni_host_tx_rings, ni_host_rx_rings, true)
    } else {
        (ni_tx_rings, ni_rx_rings, false)
    }
}

/// Mathematical content of a [`Netmap`] endpoint: the discovered
/// topology and which ring handles have been issued.
#[verifier::ext_equal]
pub struct NetmapModel {
    /// Effective TX ring count.
    pub num_tx: nat,
    /// Effective RX ring count.
    pub num_rx: nat,
    /// Whether the endpoint attaches to the host stack.
    pub host: bool,
    /// Slots per ring.
    pub n_slots: nat,
    /// Bound on a single payload's length.
    pub buf_size: nat,
    /// Which TX ring handles have been issued.
    pub tx_taken: Seq<bool>,
    /// Which RX ring handles have been issued.
    pub rx_taken: Seq<bool>,
}

/// An opened endpoint: reports the discovered ring topology and yields
/// each ring handle exactly once.
pub struct Netmap {
    num_tx_rings: usize,
    num_rx_rings: usize,
    is_host_if: bool,
    num_slots: usize,
    buf_size: usize,
    tx_rings: Vec<Option<crate::ring::TxRing>>,
    rx_rings: Vec<Option<crate::ring::RxRing>>,
}

impl View for Netmap {
    type V = NetmapModel;

    closed spec fn view(&self) -> NetmapModel {
        NetmapModel {
            num_tx: self.num_tx_rings as nat,
            num_rx: self.num_rx_rings as nat,
            host: self.is_host_if,
            n_slots: self.num_slots as nat,
            buf_size: self.buf_size as nat,
            tx_taken: Seq::new(self.tx_rings@.len(), |i: int| self.tx_rings@[i] is None),
            rx_taken: Seq::new(self.rx_rings@.len(), |i: int| self.rx_rings@[i] is None),
        }
    }
}

impl Netmap {
    /// Well-formedness: one slot of the handle table per effective ring,
    /// and every handle not yet issued is a fresh, well-formed ring of
    /// the endpoint's geometry.
    pub closed spec fn wf(&self) -> bool {
        &&& self.tx_rings@.len() == self.num_tx_rings
        &&& self.rx_rings@.len() == self.num_rx_rings
        &&& 2 <= self.num_slots <= 0x3fff_ffff
        &&& self.buf_size <= 0x3fff_ffff
        &&& forall|i: int|
            0 <= i < self.tx_rings@.len() ==> match #[trigger] self.tx_rings@[i] {
                Some(r) => {
                    &&& r.wf()
                    &&& r@.index == i
                    &&& r@.n == self.num_slots
                    &&& r@.buf_size == self.buf_size
                    &&& crate::ring::pending_count(r@) == 0
                    &&& crate::ring::free_slots(r@) == self.num_slots - 2
                },
                None => true,
            }
        &&& forall|i: int|
            0 <= i < self.rx_rings@.len() ==> match #[trigger] self.rx_rings@[i] {
                Some(r) => {
                    &&& r.wf()
                    &&& r@.index == i
                    &&& r@.n == self.num_slots
                    &&& r@.buf_size == self.buf_size
                    &&& crate::ring::readable_count(r@) == 0
                },
                None => true,
            }
    }

    /// Creates an endpoint from a discovered topology: `num_tx_rings`
    /// and `num_rx_rings` effective rings of `num_slots` slots each, all
    /// handles still available.
    pub fn new(
        num_tx_rings: usize,
        num_rx_rings: usize,
        is_host_if: bool,
        num_slots: usize,
        buf_size: usize,
    ) -> (nm: Netmap)
        requires
            2 <= num_slots <= 0x3fff_ffff,
            buf_size <= 0x3fff_ffff,
        ensures
            nm.wf(),
            nm@.num_tx == num_tx_rings,
            nm@.num_rx == num_rx_rings,
            nm@.host == is_host_if,
            nm@.n_slots == num_slots,
            nm@.buf_size == buf_size,
            forall|i: int| 0 <= i < num_tx_rings ==> !(#[trigger] nm@.tx_taken[i]),
            forall|i: int| 0 <= i < num_rx_rings ==> !(#[trigger] nm@.rx_taken[i]),
    {
        let mut tx_rings: Vec<Option<crate::ring::TxRing>> = Vec::new();
        let mut i: usize = 0;
        while i < num_tx_rings
            invariant
                i <= num_tx_rings,
                2 <= num_slots <= 0x3fff_ffff,
                buf_size <= 0x3fff_ffff,
                tx_rings@.len() == i,
                forall|j: int|
                    0 <= j < i ==> match #[trigger] tx_rings@[j] {
                        Some(r) => {
                            &&& r.wf()
                            &&& r@.index == j
                            &&& r@.n == num_slots
                            &&& r@.buf_size == buf_size
                            &&& crate::ring::pending_count(r@) == 0
                            &&& crate::ring::free_slots(r@) == num_slots - 2
                        },
                        None => false,
                    },
            decreases num_tx_rings - i,
        {
            tx_rings.push(Some(crate::ring::TxRing::new(num_slots, buf_size, i)));
            i += 1;
        }
        let mut rx_rings: Vec<Option<crate::ring::RxRing>> = Vec::new();
        let mut i: usize = 0;
        while i < num_rx_rings
            invariant
                i <= num_rx_rings,
                2 <= num_slots <= 0x3fff_ffff,
                buf_size <= 0x3fff_ffff,
                rx_rings@.len() == i,
                forall|j: int|
                    0 <= j < i ==> match #[trigger] rx_rings@[j] {
                        Some(r) => {
                            &&& r.wf()
                            &&& r@.index == j
                            &&& r@.n == num_slots
                            &&& r@.buf_size == buf_size
                            &&& crate::ring::readable_count(r@) == 0
                        },
                        None => false,
                    },
            decreases num_rx_rings - i,
        {
            rx_rings.push(Some(crate::ring::RxRing::new(num_slots, buf_size, i)));
            i += 1;
        }
        Netmap {
            num_tx_rings,
            num_rx_rings,
            is_host_if,
            num_slots,
            buf_size,
            tx_rings,
            rx_rings,
        }
    }

    /// The number of effective TX rings: hardware rings, or host rings
    /// for a host-stack attachment.
    pub fn num_tx_rings(&self) -> (n: usize)
        ensures
            n == self@.num_tx,
    {
        self.num_tx_rings
    }

    /// The number of effective RX rings: hardware rings, or host rings
    /// for a host-stack attachment.
    pub fn num_rx_rings(&self) -> (n: usize)
        ensures
            n == self@.num_rx,
    {
        self.num_rx_rings
    }

    /// Whether this endpoint attaches to the host stack rather than to
    /// the hardware rings.
    pub fn is_host_if(&self) -> (b: bool)
        ensures
            b == self@.host,
    {
        self.is_host_if
    }

    /// Takes the handle of TX ring `index`. Each handle is issued at most
    /// once, so that no two holders can drive the same ring. Fails with
    /// [`Error::InvalidRingIndex`] exactly when `index` is at or past the
    /// effective TX ring count or the handle was already taken.
    pub fn tx_ring(&mut self, index: usize) -> (r: Result<crate::ring::TxRing, Error>)
        requires
            old(self).wf(),
        ensures
            final(self).wf(),
            final(self)@.num_tx == old(self)@.num_tx,
            final(self)@.num_rx == old(self)@.num_rx,
            final(self)@.host == old(self)@.host,
            final(self)@.n_slots == old(self)@.n_slots,
            final(self)@.buf_size == old(self)@.buf_size,
            final(self)@.rx_taken == old(self)@.rx_taken,
            index >= old(self)@.num_tx ==> (r matches Err(e) && e == Error::InvalidRingIndex(
                index,
            ) && *final(self) == *old(self)),
            index < old(self)@.num_tx && old(self)@.tx_taken[index as int] ==> (r matches Err(e)
                && e == Error::InvalidRingIndex(index) && final(self)@ == old(self)@),
            index < old(self)@.num_tx && !old(self)@.tx_taken[index as int] ==> (r matches Ok(
                ring,
            ) && ring.wf() && ring@.index == index && ring@.n == old(self)@.n_slots
                && ring@.buf_size == old(self)@.buf_size && crate::ring::pending_count(ring@) == 0
                && crate::ring::free_slots(ring@) == old(self)@.n_slots - 2 && final(self)@.tx_taken
                == old(self)@.tx_taken.update(index as int, true)),
    {
        if index >= self.num_tx_rings {
            return Err(Error::InvalidRingIndex(index));
        }
        let slot = self.tx_rings.remove(index);
        self.tx_rings.insert(index, None);
        proof {
            assert(self.tx_rings@ =~= old(self).tx_rings@.update(index as int, None));
            assert(self@.tx_taken =~= old(self)@.tx_taken.update(index as int, true));
            assert(self@.rx_taken =~= old(self)@.rx_taken);
        }
        match slot {
            Some(ring) => Ok(ring),
            None => {
                proof {
                    assert(self@.tx_taken =~= old(self)@.tx_taken);
                }
                Err(Error::InvalidRingIndex(index))
            },
        }
    }

    /// Takes the handle of RX ring `index`. Each handle is issued at most
    /// once, so that no two holders can drive the same ring. Fails with
    /// [`Error::InvalidRingIndex`] exactly when `index` is at or past the
    /// effective RX ring count or the handle was already taken.
    pub fn rx_ring(&mut self, index: usize) -> (r: Result<crate::ring::RxRing, Error>)
        requires
            old(self).wf(),
        ensures
            final(self).wf(),
            final(self)@.num_tx == old(self)@.num_tx,
            final(self)@.num_rx == old(self)@.num_rx,
            final(self)@.host == old(self)@.host,
            final(self)@.n_slots == old(self)@.n_slots,
            final(self)@.buf_size == old(self)@.buf_size,
            final(self)@.tx_taken == old(self)@.tx_taken,
            index >= old(self)@.num_rx ==> (r matches Err(e) && e == Error::InvalidRingIndex(
                index,
            ) && *final(self) == *old(self)),
            index < old(self)@.num_rx && old(self)@.rx_taken[index as int] ==> (r matches Err(e)
                && e == Error::InvalidRingIndex(index) && final(self)@ == old(self)@),
            index < old(self)@.num_rx && !old(self)@.rx_taken[index as int] ==> (r matches Ok(
                ring,
            ) && ring.wf() && ring@.index == index && ring@.n == old(self)@.n_slots
                && ring@.buf_size == old(self)@.buf_size && crate::ring::readable_count(ring@) == 0
                && final(self)@.rx_taken == old(self)@.rx_taken.update(index as int, true)),
    {
        if index >= self.num_rx_rings {
            return Err(Error::InvalidRingIndex(index));
        }
        let slot = self.rx_rings.remove(index);
        self.rx_rings.insert(index, None);
        proof {
            assert(self.rx_rings@ =~= old(self).rx_rings@.update(index as int, None));
            assert(self@.rx_taken =~= old(self)@.rx_taken.update(index as int, true));
            assert(self@.tx_taken =~= old(self)@.tx_taken);
        }
        match slot {
            Some(ring) => Ok(ring),
            None => {
                proof {
                    assert(self@.rx_taken =~= old(self)@.rx_taken);
                }
                Err(Error::InvalidRingIndex(index))
            },
        }
    }
}

/// Relies on `String::from_utf8_lossy` to render an interface name for an
/// error message.
#[verifier::external_body]
fn bytes_to_string(v: &Vec<u8>) -> String {
    String::from_utf8_lossy(v.as_slice()).into_owned()
}

/// Writing the identifier with or without the framework prefix makes no
/// difference to the request: for any identifier that does not itself
/// start with the prefix, the builder state parsed from the prefixed form
/// differs from the unprefixed one at most in the argument kept for the
/// open call, and the request structures built from the two are equal.
pub proof fn lemma_prefix_parse_equivalent(s: Seq<u8>)
    requires
        !spec_has_prefix(s, framework_prefix()),
    ensures
        spec_parse(framework_prefix() + s).base == spec_parse(s).base,
        spec_parse(framework_prefix() + s).host == spec_parse(s).host,
        spec_parse(framework_prefix() + s).pipe == spec_parse(s).pipe,
        spec_parse(framework_prefix() + s).tx == spec_parse(s).tx,
        spec_parse(framework_prefix() + s).rx == spec_parse(s).rx,
        spec_parse(framework_prefix() + s).flags == spec_parse(s).flags,
        spec_build_nmreq(spec_parse(framework_prefix() + s)) == spec_build_nmreq(spec_parse(s)),
{
    let p = framework_prefix();
    assert((p + s).take(p.len() as int) =~= p);
    assert((p + s).skip(p.len() as int) =~= s);
    assert(spec_base_for_req(p + s) == s);
    assert(spec_build_nmreq(spec_parse(p + s)) =~= spec_build_nmreq(spec_parse(s)));
}

} // verus!
