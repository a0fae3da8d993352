//! In-process bounded packet queues for platforms without the bypass
//! framework. The fallback path copies payloads; it does not emulate the
//! zero-copy semantics of the mapped rings.

use vstd::prelude::*;

use crate::error::Error;
use crate::frame::Frame;

verus! {

/// Fallback stand-in for a TX ring: a bounded FIFO queue of copied payloads.
pub struct FallbackTxRing {
    queue: Vec<Vec<u8>>,
    max_size: usize,
}

/// Fallback stand-in for an RX ring: a bounded FIFO queue of copied payloads.
pub struct FallbackRxRing {
    queue: Vec<Vec<u8>>,
    max_size: usize,
}

impl View for FallbackTxRing {
    type V = Seq<Seq<u8>>;

    closed spec fn view(&self) -> Seq<Seq<u8>> {
        self.queue.deep_view()
    }
}

impl View for FallbackRxRing {
    type V = Seq<Seq<u8>>;

    closed spec fn view(&self) -> Seq<Seq<u8>> {
        self.queue.deep_view()
    }
}

impl FallbackTxRing {
    /// The bound on how many packets the queue holds at once.
    pub closed spec fn capacity(&self) -> nat {
        self.max_size as nat
    }

    /// Creates a new fallback TX ring holding at most `max_size` packets.
    pub fn new(max_size: usize) -> (r: Self)
        ensures
            r@ == Seq::<Seq<u8>>::empty(),
            r.capacity() == max_size,
    {
        let r = FallbackTxRing { queue: Vec::new(), max_size };
        proof {
            assert(r@ =~~= Seq::<Seq<u8>>::empty());
        }
        r
    }

    /// Queues one packet, copying its payload. Fails with
    /// [`Error::WouldBlock`] exactly when the queue is already at capacity.
    pub fn send(&mut self, buf: &[u8]) -> (r: Result<(), Error>)
        ensures
            old(self)@.len() >= old(self).capacity() ==> (
                r matches Err(e) && e == Error::WouldBlock
                && *final(self) == *old(self)
            ),
            old(self)@.len() < old(self).capacity() ==> (
                r matches Ok(())
                && final(self)@ == old(self)@.push(buf@)
            ),
            final(self).capacity() == old(self).capacity(),
    {
        if self.queue.len() >= self.max_size {
            return Err(Error::WouldBlock);
        }
        self.queue.push(crate::util::copy_bytes(buf));
        proof {
            assert(self@ =~~= old(self)@.push(buf@));
        }
        Ok(())
    }
}

impl FallbackRxRing {
    /// The bound on how many packets the queue holds at once.
    pub closed spec fn capacity(&self) -> nat {
        self.max_size as nat
    }

    /// Creates a new fallback RX ring holding at most `max_size` packets.
    pub fn new(max_size: usize) -> (r: Self)
        ensures
            r@ == Seq::<Seq<u8>>::empty(),
            r.capacity() == max_size,
    {
        let r = FallbackRxRing { queue: Vec::new(), max_size };
        proof {
            assert(r@ =~~= Seq::<Seq<u8>>::empty());
        }
        r
    }

    /// Queues one packet for later receipt, copying its payload. Fails with
    /// [`Error::WouldBlock`] exactly when the queue is already at capacity.
    pub fn send(&mut self, buf: &[u8]) -> (r: Result<(), Error>)
        ensures
            old(self)@.len() >= old(self).capacity() ==> (
                r matches Err(e) && e == Error::WouldBlock
                && *final(self) == *old(self)
            ),
            old(self)@.len() < old(self).capacity() ==> (
                r matches Ok(())
                && final(self)@ == old(self)@.push(buf@)
            ),
            final(self).capacity() == old(self).capacity(),
    {
        if self.queue.len() >= self.max_size {
            return Err(Error::WouldBlock);
        }
        self.queue.push(crate::util::copy_bytes(buf));
        proof {
            assert(self@ =~~= old(self)@.push(buf@));
        }
        Ok(())
    }

    /// Takes the oldest queued packet, or `None` when the queue is empty.
    pub fn recv(&mut self) -> (r: Option<Frame>)
        ensures
            old(self)@.len() == 0 ==> r is None && *final(self) == *old(self),
            old(self)@.len() > 0 ==> (
                r matches Some(f)
                && f@ == old(self)@[0]
                && final(self)@ == old(self)@.drop_first()
            ),
            final(self).capacity() == old(self).capacity(),
    {
        if self.queue.len() == 0 {
            return None;
        }
        let head = self.queue.remove(0);
        proof {
            assert(self@ =~~= old(self)@.drop_first());
        }
        Some(Frame::new_owned(head))
    }
}

} // verus!
