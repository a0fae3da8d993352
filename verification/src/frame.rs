//! A view of one received packet's payload.

use vstd::prelude::*;

verus! {

/// A view of a packet's payload. The payload bytes are owned by the frame:
/// the slot bytes a receive operation exposes are copied out, so the frame
/// stays valid past the next synchronization barrier.
pub struct Frame {
    data: Vec<u8>,
}

impl View for Frame {
    type V = Seq<u8>;

    closed spec fn view(&self) -> Seq<u8> {
        self.data@
    }
}

impl Frame {
    /// Creates a new frame by copying the given payload bytes.
    pub fn new(data: &[u8]) -> (f: Frame)
        ensures
            f@ == data@,
    {
        Frame { data: crate::util::copy_bytes(data) }
    }

    /// Creates a new frame from a payload slice.
    /// This is an alias for `new`.
    pub fn new_borrowed(data: &[u8]) -> (f: Frame)
        ensures
            f@ == data@,
    {
        Frame::new(data)
    }

    /// Creates a new frame that takes ownership of the given byte vector.
    pub fn new_owned(data: Vec<u8>) -> (f: Frame)
        ensures
            f@ == data@,
    {
        Frame { data }
    }

    /// The length of the payload in bytes.
    pub fn len(&self) -> (n: usize)
        ensures
            n == self@.len(),
    {
        self.data.len()
    }

    /// Whether the frame carries no bytes.
    pub fn is_empty(&self) -> (b: bool)
        ensures
            b == (self@.len() == 0),
    {
        self.data.len() == 0
    }

    /// The payload as a byte slice.
    pub fn payload(&self) -> (p: &[u8])
        ensures
            p@ == self@,
    {
        self.data.as_slice()
    }
}

impl<'a> From<&'a [u8]> for Frame {
    /// Builds a frame by copying the given payload bytes.
    fn from(data: &'a [u8]) -> (f: Frame)
        ensures
            f@ == data@,
    {
        Frame::new(data)
    }
}

impl<'a> vstd::std_specs::convert::FromSpecImpl<&'a [u8]> for Frame {
    open spec fn obeys_from_spec() -> bool {
        false
    }

    open spec fn from_spec(data: &'a [u8]) -> Frame {
        arbitrary()
    }
}

} // verus!
