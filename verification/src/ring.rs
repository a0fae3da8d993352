//! The ring cursor state machine: a circular array of slots with the
//! `head`/`cur`/`tail` cursors, single-packet and batched send, receive,
//! and the synchronization barrier that hands packets to the kernel side.
//!
//! The in-memory model owns its slot buffers; the region a slot set of a
//! mapped interface occupies is the platform layer's concern. All cursor
//! arithmetic is true modular arithmetic over `num_slots`, which is not
//! assumed to be a power of two.

use vstd::prelude::*;

use crate::error::Error;
use crate::frame::Frame;

verus! {

/// The direction of a ring: transmit or receive.
#[derive(Clone, Copy, Debug, PartialEq, Eq, Structural)]
pub enum RingDir {
    /// A transmit ring.
    Tx,
    /// A receive ring.
    Rx,
}

/// `(from + k) % n`, written without `%` for `from < n`, `k <= n`.
pub open spec fn add_mod(from: nat, k: nat, n: nat) -> nat {
    if from + k >= n {
        (from + k - n) as nat
    } else {
        from + k
    }
}

/// `(to - from) % n`, the circular distance, for `from < n`, `to < n`.
pub open spec fn ring_dist(from: nat, to: nat, n: nat) -> nat {
    if to >= from {
        (to - from) as nat
    } else {
        (n + to - from) as nat
    }
}

/// Mathematical content of a [`Ring`]: the geometry, the cursors, and the
/// payload held by each slot.
#[verifier::ext_equal]
pub struct RingModel {
    /// The ring direction.
    pub dir: RingDir,
    /// The ring's index within its endpoint.
    pub index: nat,
    /// Number of slots.
    pub n: nat,
    /// Bound on a single payload's length.
    pub buf_size: nat,
    /// First slot user space owns and will hand to the kernel.
    pub head: nat,
    /// The user's working position.
    pub cur: nat,
    /// The kernel's frontier.
    pub tail: nat,
    /// The kernel's progress through the slots user space released:
    /// on TX the first released slot not yet taken by a barrier; tracks
    /// `head` on RX.
    pub ksync: nat,
    /// The payload bytes of each slot.
    pub slots: Seq<Seq<u8>>,
}

/// Slots free for the user to fill on a TX ring: `(tail - cur - 1) % n`,
/// one slot kept back to tell a full ring from an empty one.
pub open spec fn free_slots(m: RingModel) -> nat {
    let d = ring_dist(m.cur, m.tail, m.n);
    if d > 0 {
        (d - 1) as nat
    } else {
        (m.n - 1) as nat
    }
}

/// Packets written and released but not yet taken by a barrier on a TX
/// ring: the slots in `[ksync, cur)`.
pub open spec fn pending_count(m: RingModel) -> nat {
    ring_dist(m.ksync, m.cur, m.n)
}

/// Packets available to read on an RX ring: the slots in `[cur, tail)`.
pub open spec fn readable_count(m: RingModel) -> nat {
    ring_dist(m.cur, m.tail, m.n)
}

/// Room the kernel side has to deliver packets into an RX ring, keeping
/// one slot back.
pub open spec fn rx_capacity(m: RingModel) -> nat {
    (m.n - 1 - readable_count(m)) as nat
}

/// The `count` slot payloads starting at slot `start`, circularly.
pub open spec fn window(slots: Seq<Seq<u8>>, start: nat, count: nat, n: nat) -> Seq<Seq<u8>> {
    Seq::new(count, |i: int| slots[add_mod(start, i as nat, n) as int])
}

/// The payloads released but not yet taken by a barrier, oldest first.
pub open spec fn pending_seq(m: RingModel) -> Seq<Seq<u8>> {
    window(m.slots, m.ksync, pending_count(m), m.n)
}

/// The payloads available to read, oldest first.
pub open spec fn readable_seq(m: RingModel) -> Seq<Seq<u8>> {
    window(m.slots, m.cur, readable_count(m), m.n)
}

impl RingModel {
    /// Well-formedness: cursors in range, one slot's payload per slot and
    /// within the buffer bound, `cur` tracking `head`, and on TX the
    /// released and the free region together fill all but the kernel's
    /// share of the circle.
    pub open spec fn wf(self) -> bool {
        &&& 2 <= self.n <= 0x3fff_ffff
        &&& self.buf_size <= 0x3fff_ffff
        &&& self.slots.len() == self.n
        &&& self.head < self.n
        &&& self.cur < self.n
        &&& self.tail < self.n
        &&& self.ksync < self.n
        &&& self.head == self.cur
        &&& forall|i: int| 0 <= i < self.slots.len() ==> #[trigger] self.slots[i].len() <= self.buf_size
        &&& (self.dir is Tx ==> pending_count(self) + free_slots(self) == self.n - 2)
        &&& (self.dir is Rx ==> self.ksync == self.head)
    }
}

/// A ring transition: sending one packet writes the payload into the slot
/// at `cur` and advances `head` and `cur` past it.
pub open spec fn spec_tx_send(m: RingModel, p: Seq<u8>) -> RingModel {
    let nxt = add_mod(m.cur, 1, m.n);
    RingModel { head: nxt, cur: nxt, slots: m.slots.update(m.cur as int, p), ..m }
}

/// A ring transition: committing a batch of `count` reserved slots
/// advances `head` and `cur` past all of them at once.
pub open spec fn spec_tx_commit(m: RingModel, count: nat) -> RingModel {
    let nxt = add_mod(m.cur, count, m.n);
    RingModel { head: nxt, cur: nxt, ..m }
}

/// A ring transition: a TX barrier against a sink that consumes
/// everything hands over all released packets and reclaims their slots.
pub open spec fn spec_tx_sync(m: RingModel) -> RingModel {
    RingModel { ksync: m.cur, tail: add_mod(m.tail, pending_count(m), m.n), ..m }
}

/// A ring transition: receiving one packet advances `head` and `cur`
/// past the slot at `cur`, whose payload the frame carries.
pub open spec fn spec_rx_recv(m: RingModel) -> RingModel {
    let nxt = add_mod(m.cur, 1, m.n);
    RingModel { head: nxt, cur: nxt, ksync: nxt, ..m }
}

/// A ring (TX or RX): the slot array and the cursor state of one ring of
/// one endpoint, owned in memory.
pub struct Ring {
    dir: RingDir,
    index: usize,
    buf_size: usize,
    head: usize,
    cur: usize,
    tail: usize,
    ksync: usize,
    slots: Vec<Vec<u8>>,
}

impl View for Ring {
    type V = RingModel;

    closed spec fn view(&self) -> RingModel {
        RingModel {
            dir: self.dir,
            index: self.index as nat,
            n: self.slots@.len(),
            buf_size: self.buf_size as nat,
            head: self.head as nat,
            cur: self.cur as nat,
            tail: self.tail as nat,
            ksync: self.ksync as nat,
            slots: self.slots.deep_view(),
        }
    }
}

impl Ring {
    /// Well-formedness of the in-memory ring.
    pub open spec fn wf(&self) -> bool {
        self@.wf()
    }

    /// Creates a ring of `num_slots` empty slots with the given payload
    /// bound. A fresh TX ring starts with every slot free but the one
    /// kept back; a fresh RX ring starts with nothing to read.
    pub fn new(dir: RingDir, num_slots: usize, buf_size: usize, index: usize) -> (r: Ring)
        requires
            2 <= num_slots <= 0x3fff_ffff,
            buf_size <= 0x3fff_ffff,
        ensures
            r.wf(),
            r@.dir == dir,
            r@.index == index,
            r@.n == num_slots,
            r@.buf_size == buf_size,
            r@.head == 0,
            r@.cur == 0,
            r@.ksync == 0,
            dir is Tx ==> r@.tail == num_slots - 1,
            dir is Rx ==> r@.tail == 0,
            pending_count(r@) == 0,
            dir is Rx ==> readable_count(r@) == 0,
            dir is Tx ==> free_slots(r@) == num_slots - 2,
    {
        let mut slots: Vec<Vec<u8>> = Vec::new();
        let mut i: usize = 0;
        while i < num_slots
            invariant
                i <= num_slots,
                slots@.len() == i,
                forall|j: int| 0 <= j < i ==> #[trigger] slots@[j]@.len() == 0,
            decreases num_slots - i,
        {
            slots.push(Vec::new());
            i += 1;
        }
        proof {
            assert forall|j: int| 0 <= j < num_slots implies #[trigger] slots.deep_view()[j].len()
                == 0 by {
                assert(slots@[j].deep_view() =~= slots@[j]@);
            }
        }
        let tail: usize = if matches!(dir, RingDir::Tx) {
            num_slots - 1
        } else {
            0
        };
        Ring { dir, index, buf_size, head: 0, cur: 0, tail, ksync: 0, slots }
    }

    /// The ring's index within its endpoint.
    pub fn index(&self) -> (i: usize)
        ensures
            i == self@.index,
    {
        self.index
    }

    /// The number of slots in the ring.
    pub fn num_slots(&self) -> (n: usize)
        ensures
            n == self@.n,
    {
        self.slots.len()
    }

    /// The bound on a single payload's length.
    pub fn buf_size(&self) -> (b: usize)
        ensures
            b == self@.buf_size,
    {
        self.buf_size
    }

    /// The synchronization barrier of a ring considered on its own.
    ///
    /// On TX, the kernel side takes every released packet and reclaims
    /// the slots, so the free region grows by the released count. On RX,
    /// with no connected source there is nothing to publish, so the ring
    /// is unchanged; a connected pair is synchronized with [`pipe_sync`].
    pub fn sync(&mut self)
        requires
            old(self).wf(),
        ensures
            final(self).wf(),
            old(self)@.dir is Tx ==> final(self)@ == spec_tx_sync(old(self)@),
            old(self)@.dir is Tx ==> pending_count(final(self)@) == 0,
            old(self)@.dir is Tx ==> free_slots(final(self)@)
                == free_slots(old(self)@) + pending_count(old(self)@),
            old(self)@.dir is Rx ==> final(self)@ == old(self)@,
            final(self)@.head == old(self)@.head,
            final(self)@.cur == old(self)@.cur,
            final(self)@.slots == old(self)@.slots,
    {
        if matches!(self.dir, RingDir::Tx) {
            let n = self.slots.len();
            let pending: usize = if self.cur >= self.ksync {
                self.cur - self.ksync
            } else {
                n + self.cur - self.ksync
            };
            self.ksync = self.cur;
            self.tail = if self.tail + pending >= n {
                self.tail + pending - n
            } else {
                self.tail + pending
            };
        }
    }
}

/// Positions reached by `add_mod` from one start are distinct for
/// distinct offsets below `n`.
proof fn lemma_add_mod_injective(start: nat, i: nat, j: nat, n: nat)
    requires
        start < n,
        i < n,
        j < n,
        i != j,
    ensures
        add_mod(start, i, n) != add_mod(start, j, n),
{
}

/// Stepping a window's start by `k` is the same as skipping its first
/// `k` elements.
proof fn lemma_window_skip(slots: Seq<Seq<u8>>, start: nat, count: nat, n: nat, k: nat)
    requires
        slots.len() == n,
        start < n,
        count <= n,
        k <= count,
    ensures
        window(slots, start, count, n).skip(k as int) =~= window(
            slots,
            add_mod(start, k, n),
            (count - k) as nat,
            n,
        ),
{
    assert forall|i: int| 0 <= i < count - k implies window(slots, start, count, n).skip(
        k as int,
    )[i] == window(slots, add_mod(start, k, n), (count - k) as nat, n)[i] by {
        assert(add_mod(add_mod(start, k, n), i as nat, n) == add_mod(start, (k + i) as nat, n));
    }
}

/// Writing the slot `count` steps past a window's start and widening the
/// window by one appends the written payload.
proof fn lemma_window_push(slots: Seq<Seq<u8>>, start: nat, count: nat, n: nat, p: Seq<u8>)
    requires
        slots.len() == n,
        start < n,
        count < n,
    ensures
        window(slots.update(add_mod(start, count, n) as int, p), start, (count + 1) as nat, n)
            =~= window(slots, start, count, n).push(p),
{
    let pos = add_mod(start, count, n);
    let upd = slots.update(pos as int, p);
    assert forall|i: int| 0 <= i < count implies window(upd, start, (count + 1) as nat, n)[i]
        == window(slots, start, count, n).push(p)[i] by {
        lemma_add_mod_injective(start, i as nat, count, n);
    }
    assert(window(upd, start, (count + 1) as nat, n)[count as int] == p);
}

/// Writing a slot at or past a window's end leaves the window unchanged.
proof fn lemma_window_update_outside(
    slots: Seq<Seq<u8>>,
    start: nat,
    count: nat,
    n: nat,
    j: nat,
    p: Seq<u8>,
)
    requires
        slots.len() == n,
        start < n,
        count <= j < n,
    ensures
        window(slots.update(add_mod(start, j, n) as int, p), start, count, n) =~= window(
            slots,
            start,
            count,
            n,
        ),
{
    assert forall|i: int| 0 <= i < count implies window(
        slots.update(add_mod(start, j, n) as int, p),
        start,
        count,
        n,
    )[i] == window(slots, start, count, n)[i] by {
        lemma_add_mod_injective(start, i as nat, j, n);
    }
}

/// A transmit ring handle: zero-copy single-packet send, batched
/// reservation, and the barrier that hands released packets on.
pub struct TxRing(Ring);

impl View for TxRing {
    type V = RingModel;

    closed spec fn view(&self) -> RingModel {
        self.0@
    }
}

/// A scoped reservation of `count` consecutive TX slots, produced by
/// [`TxRing::reserve_batch`] and released by [`BatchReservation::commit`].
/// Dropping it without committing leaves the ring's cursors untouched.
pub struct BatchReservation {
    start: usize,
    count: usize,
}

impl BatchReservation {
    /// The slot the reservation starts at.
    pub closed spec fn spec_start(&self) -> nat {
        self.start as nat
    }

    /// How many slots the reservation covers.
    pub closed spec fn spec_count(&self) -> nat {
        self.count as nat
    }

    /// How many slots the reservation covers.
    pub fn len(&self) -> (c: usize)
        ensures
            c == self.spec_count(),
    {
        self.count
    }
}

impl TxRing {
    /// Well-formedness: a well-formed ring marked as transmit.
    pub open spec fn wf(&self) -> bool {
        self@.wf() && self@.dir is Tx
    }

    /// Creates a transmit ring of `num_slots` empty slots.
    pub fn new(num_slots: usize, buf_size: usize, index: usize) -> (r: TxRing)
        requires
            2 <= num_slots <= 0x3fff_ffff,
            buf_size <= 0x3fff_ffff,
        ensures
            r.wf(),
            r@.index == index,
            r@.n == num_slots,
            r@.buf_size == buf_size,
            pending_count(r@) == 0,
            free_slots(r@) == num_slots - 2,
    {
        TxRing(Ring::new(RingDir::Tx, num_slots, buf_size, index))
    }

    /// The largest payload a single slot can carry.
    pub fn max_payload_size(&self) -> (b: usize)
        ensures
            b == self@.buf_size,
    {
        self.0.buf_size
    }

    /// The number of slots in the ring.
    pub fn num_slots(&self) -> (n: usize)
        ensures
            n == self@.n,
    {
        self.0.slots.len()
    }

    /// Sends a single packet: copies the payload into the slot at `cur`
    /// and advances `head` and `cur` past it. Does not invoke the kernel
    /// side; a barrier publishes the packet.
    ///
    /// Fails with [`Error::PacketTooLarge`] exactly when the payload
    /// exceeds the buffer size, and otherwise with
    /// [`Error::InsufficientSpace`] exactly when the ring is full.
    pub fn send(&mut self, buf: &[u8]) -> (r: Result<(), Error>)
        requires
            old(self).wf(),
        ensures
            final(self).wf(),
            final(self)@.n == old(self)@.n,
            final(self)@.buf_size == old(self)@.buf_size,
            final(self)@.index == old(self)@.index,
            final(self)@.tail == old(self)@.tail,
            buf@.len() > old(self)@.buf_size ==> (r matches Err(e) && e == Error::PacketTooLarge(
                buf@.len() as usize,
            ) && *final(self) == *old(self)),
            buf@.len() <= old(self)@.buf_size && free_slots(old(self)@) == 0 ==> (r matches Err(e)
                && e == Error::InsufficientSpace && *final(self) == *old(self)),
            buf@.len() <= old(self)@.buf_size && free_slots(old(self)@) > 0 ==> (r matches Ok(())
                && final(self)@ == spec_tx_send(old(self)@, buf@) && pending_seq(final(self)@)
                == pending_seq(old(self)@).push(buf@) && free_slots(final(self)@) == free_slots(
                old(self)@,
            ) - 1),
    {
        let n = self.0.slots.len();
        if buf.len() > self.0.buf_size {
            return Err(Error::PacketTooLarge(buf.len()));
        }
        let cur = self.0.cur;
        let next = if cur + 1 >= n {
            cur + 1 - n
        } else {
            cur + 1
        };
        if next == self.0.tail {
            return Err(Error::InsufficientSpace);
        }
        let payload = crate::util::copy_bytes(buf);
        self.0.slots[cur] = payload;
        self.0.head = next;
        self.0.cur = next;
        proof {
            assert(self@.slots =~~= old(self)@.slots.update(old(self)@.cur as int, buf@));
            assert(self@ =~= spec_tx_send(old(self)@, buf@));
            lemma_window_push(
                old(self)@.slots,
                old(self)@.ksync,
                pending_count(old(self)@),
                old(self)@.n,
                buf@,
            );
            assert(pending_seq(self@) =~= pending_seq(old(self)@).push(buf@));
        }
        Ok(())
    }

    /// Reserves `count` consecutive slots starting at `cur` for batched
    /// filling, without advancing any cursor. Fails with
    /// [`Error::InsufficientSpace`] exactly when fewer than `count` slots
    /// are free, one slot being kept back to tell a full ring from an
    /// empty one.
    pub fn reserve_batch(&mut self, count: usize) -> (r: Result<BatchReservation, Error>)
        requires
            old(self).wf(),
        ensures
            *final(self) == *old(self),
            count > free_slots(old(self)@) ==> (r matches Err(e) && e
                == Error::InsufficientSpace),
            count <= free_slots(old(self)@) ==> (r matches Ok(res) && res.spec_start() == old(
                self,
            )@.cur && res.spec_count() == count),
    {
        let n = self.0.slots.len();
        let d = if self.0.tail >= self.0.cur {
            self.0.tail - self.0.cur
        } else {
            n + self.0.tail - self.0.cur
        };
        let free = if d > 0 {
            d - 1
        } else {
            n - 1
        };
        if free < count {
            return Err(Error::InsufficientSpace);
        }
        Ok(BatchReservation { start: self.0.cur, count })
    }

    /// The synchronization barrier: hands every released packet to the
    /// kernel side and reclaims their slots. The released region empties
    /// and the free region grows by its count.
    pub fn sync(&mut self)
        requires
            old(self).wf(),
        ensures
            final(self).wf(),
            final(self)@ == spec_tx_sync(old(self)@),
            pending_count(final(self)@) == 0,
            free_slots(final(self)@) == free_slots(old(self)@) + pending_count(old(self)@),
            final(self)@.head == old(self)@.head,
            final(self)@.cur == old(self)@.cur,
            final(self)@.n == old(self)@.n,
            final(self)@.buf_size == old(self)@.buf_size,
            final(self)@.slots == old(self)@.slots,
    {
        self.0.sync();
    }
}

impl BatchReservation {
    /// Writes one packet of the batch: copies the payload into the slot
    /// `index` steps into the reservation of `ring`, leaving every cursor
    /// and every other slot unchanged.
    ///
    /// Fails with [`Error::InvalidRingIndex`] exactly when `index` is at
    /// or past the reservation's count, and otherwise with
    /// [`Error::PacketTooLarge`] exactly when the payload exceeds the
    /// buffer size.
    pub fn packet(&self, ring: &mut TxRing, index: usize, data: &[u8]) -> (r: Result<(), Error>)
        requires
            old(ring).wf(),
            self.spec_start() == old(ring)@.cur,
            self.spec_count() <= free_slots(old(ring)@),
        ensures
            final(ring).wf(),
            final(ring)@.head == old(ring)@.head,
            final(ring)@.cur == old(ring)@.cur,
            final(ring)@.tail == old(ring)@.tail,
            final(ring)@.ksync == old(ring)@.ksync,
            final(ring)@.n == old(ring)@.n,
            final(ring)@.buf_size == old(ring)@.buf_size,
            final(ring)@.index == old(ring)@.index,
            pending_seq(final(ring)@) == pending_seq(old(ring)@),
            free_slots(final(ring)@) == free_slots(old(ring)@),
            index >= self.spec_count() ==> (r matches Err(e) && e == Error::InvalidRingIndex(
                index,
            ) && *final(ring) == *old(ring)),
            index < self.spec_count() && data@.len() > old(ring)@.buf_size ==> (r matches Err(e)
                && e == Error::PacketTooLarge(data@.len() as usize) && *final(ring) == *old(
                ring,
            )),
            index < self.spec_count() && data@.len() <= old(ring)@.buf_size ==> (r matches Ok(())
                && final(ring)@.slots == old(ring)@.slots.update(
                add_mod(old(ring)@.cur, index as nat, old(ring)@.n) as int,
                data@,
            )),
    {
        if index >= self.count {
            return Err(Error::InvalidRingIndex(index));
        }
        if data.len() > ring.0.buf_size {
            return Err(Error::PacketTooLarge(data.len()));
        }
        let n = ring.0.slots.len();
        let slot_idx = if self.start + index >= n {
            self.start + index - n
        } else {
            self.start + index
        };
        let payload = crate::util::copy_bytes(data);
        ring.0.slots[slot_idx] = payload;
        proof {
            let m = old(ring)@;
            assert(ring@.slots =~~= m.slots.update(add_mod(m.cur, index as nat, m.n) as int, data@));
            // The written position lies in the free region, past the
            // released window, so the released packets are unchanged.
            assert(add_mod(m.cur, index as nat, m.n) == add_mod(
                m.ksync,
                (pending_count(m) + index) as nat,
                m.n,
            ));
            lemma_window_update_outside(
                m.slots,
                m.ksync,
                pending_count(m),
                m.n,
                (pending_count(m) + index) as nat,
                data@,
            );
            assert(pending_seq(ring@) =~= pending_seq(m));
        }
        Ok(())
    }

    /// Commits the batch, consuming the reservation: advances `head` and
    /// `cur` past all reserved slots at once, releasing their payloads in
    /// order. A barrier then publishes them.
    pub fn commit(self, ring: &mut TxRing)
        requires
            old(ring).wf(),
            self.spec_start() == old(ring)@.cur,
            self.spec_count() <= free_slots(old(ring)@),
        ensures
            final(ring).wf(),
            final(ring)@ == spec_tx_commit(old(ring)@, self.spec_count()),
            pending_seq(final(ring)@) == pending_seq(old(ring)@) + window(
                old(ring)@.slots,
                old(ring)@.cur,
                self.spec_count(),
                old(ring)@.n,
            ),
            free_slots(final(ring)@) == free_slots(old(ring)@) - self.spec_count(),
            final(ring)@.slots == old(ring)@.slots,
            final(ring)@.n == old(ring)@.n,
            final(ring)@.buf_size == old(ring)@.buf_size,
            final(ring)@.tail == old(ring)@.tail,
    {
        let n = ring.0.slots.len();
        let next = if self.start + self.count >= n {
            self.start + self.count - n
        } else {
            self.start + self.count
        };
        ring.0.head = next;
        ring.0.cur = next;
        proof {
            let m = old(ring)@;
            let c = self.spec_count();
            assert(ring@ =~= spec_tx_commit(m, c));
            assert forall|i: int| 0 <= i < pending_count(m) + c implies pending_seq(ring@)[i]
                == (pending_seq(m) + window(m.slots, m.cur, c, m.n))[i] by {
                if i >= pending_count(m) {
                    assert(add_mod(m.ksync, i as nat, m.n) == add_mod(
                        m.cur,
                        (i - pending_count(m)) as nat,
                        m.n,
                    ));
                }
            }
            assert(pending_seq(ring@) =~= pending_seq(m) + window(m.slots, m.cur, c, m.n));
        }
    }
}

/// A receive ring handle: zero-copy single-packet and batched receive.
pub struct RxRing(Ring);

impl View for RxRing {
    type V = RingModel;

    closed spec fn view(&self) -> RingModel {
        self.0@
    }
}

impl RxRing {
    /// Well-formedness: a well-formed ring marked as receive.
    pub open spec fn wf(&self) -> bool {
        self@.wf() && self@.dir is Rx
    }

    /// Creates a receive ring of `num_slots` empty slots.
    pub fn new(num_slots: usize, buf_size: usize, index: usize) -> (r: RxRing)
        requires
            2 <= num_slots <= 0x3fff_ffff,
            buf_size <= 0x3fff_ffff,
        ensures
            r.wf(),
            r@.index == index,
            r@.n == num_slots,
            r@.buf_size == buf_size,
            readable_count(r@) == 0,
    {
        RxRing(Ring::new(RingDir::Rx, num_slots, buf_size, index))
    }

    /// The number of slots in the ring.
    pub fn num_slots(&self) -> (n: usize)
        ensures
            n == self@.n,
    {
        self.0.slots.len()
    }

    /// Receives a single packet: `None` exactly when the ring has nothing
    /// to read, otherwise a frame carrying the payload of the slot at
    /// `cur`, with `head` and `cur` advanced past it.
    pub fn recv(&mut self) -> (r: Option<Frame>)
        requires
            old(self).wf(),
        ensures
            final(self).wf(),
            final(self)@.n == old(self)@.n,
            final(self)@.buf_size == old(self)@.buf_size,
            final(self)@.index == old(self)@.index,
            final(self)@.tail == old(self)@.tail,
            final(self)@.slots == old(self)@.slots,
            readable_count(old(self)@) == 0 ==> r is None && *final(self) == *old(self),
            readable_count(old(self)@) > 0 ==> (r matches Some(f) && f@ == readable_seq(
                old(self)@,
            )[0] && final(self)@ == spec_rx_recv(old(self)@) && readable_seq(final(self)@)
                == readable_seq(old(self)@).drop_first() && readable_count(final(self)@)
                == readable_count(old(self)@) - 1),
    {
        if self.0.cur == self.0.tail {
            return None;
        }
        let n = self.0.slots.len();
        let cur = self.0.cur;
        let frame = Frame::new(self.0.slots[cur].as_slice());
        let next = if cur + 1 >= n {
            cur + 1 - n
        } else {
            cur + 1
        };
        self.0.head = next;
        self.0.cur = next;
        self.0.ksync = next;
        proof {
            let m = old(self)@;
            assert(frame@ == m.slots[m.cur as int]);
            assert(add_mod(m.cur, 0, m.n) == m.cur);
            assert(self@ =~= spec_rx_recv(m));
            lemma_window_skip(m.slots, m.cur, readable_count(m), m.n, 1);
            assert(readable_seq(self@) =~= readable_seq(m).drop_first());
        }
        Some(frame)
    }

    /// Receives up to `batch.len()` packets, overwriting the front of
    /// `batch` oldest first, and returns how many were written: the lesser
    /// of what the ring holds and what `batch` can take. Entries past the
    /// count are left as they were.
    pub fn recv_batch(&mut self, batch: &mut [Frame]) -> (c: usize)
        requires
            old(self).wf(),
        ensures
            final(self).wf(),
            final(self)@.n == old(self)@.n,
            final(self)@.buf_size == old(self)@.buf_size,
            final(self)@.index == old(self)@.index,
            final(self)@.tail == old(self)@.tail,
            final(self)@.slots == old(self)@.slots,
            c == if readable_count(old(self)@) <= old(batch)@.len() {
                readable_count(old(self)@)
            } else {
                old(batch)@.len()
            },
            final(batch)@.len() == old(batch)@.len(),
            forall|i: int|
                0 <= i < c ==> #[trigger] final(batch)@[i]@ == readable_seq(old(self)@)[i],
            forall|i: int| c <= i < old(batch)@.len() ==> final(batch)@[i] == old(batch)@[i],
            readable_seq(final(self)@) == readable_seq(old(self)@).skip(c as int),
            readable_count(final(self)@) == readable_count(old(self)@) - c,
    {
        let mut i: usize = 0;
        while i < batch.len() && self.0.cur != self.0.tail
            invariant
                self.wf(),
                self@.n == old(self)@.n,
                self@.buf_size == old(self)@.buf_size,
                self@.index == old(self)@.index,
                self@.tail == old(self)@.tail,
                self@.slots == old(self)@.slots,
                batch@.len() == old(batch)@.len(),
                i <= batch@.len(),
                i <= readable_count(old(self)@),
                readable_count(self@) == readable_count(old(self)@) - i,
                readable_seq(self@) == readable_seq(old(self)@).skip(i as int),
                forall|j: int|
                    0 <= j < i ==> #[trigger] batch@[j]@ == readable_seq(old(self)@)[j],
                forall|j: int| i <= j < batch@.len() ==> batch@[j] == old(batch)@[j],
            decreases batch@.len() - i,
        {
            let r = self.recv();
            match r {
                Some(f) => {
                    proof {
                        assert(readable_seq(old(self)@).skip(i as int)[0] == readable_seq(
                            old(self)@,
                        )[i as int]);
                        assert(readable_seq(old(self)@).skip(i as int).drop_first()
                            =~= readable_seq(old(self)@).skip(i + 1));
                    }
                    batch[i] = f;
                    i += 1;
                },
                None => {
                    // recv returns a frame whenever `cur != tail`.
                    proof {
                        assert(false);
                    }
                },
            }
        }
        i
    }

    /// The synchronization barrier of a receive ring considered on its
    /// own: with no connected source there is nothing to publish, so the
    /// ring is unchanged. A connected pair is synchronized with
    /// [`pipe_sync`].
    pub fn sync(&mut self)
        requires
            old(self).wf(),
        ensures
            final(self).wf(),
            final(self)@ == old(self)@,
    {
        self.0.sync();
    }
}

/// How many packets a barrier over a connected pair moves: every released
/// packet of the TX side, as far as the RX side has room.
pub open spec fn spec_sync_moved(t: RingModel, r: RingModel) -> nat {
    if pending_count(t) <= rx_capacity(r) {
        pending_count(t)
    } else {
        rx_capacity(r)
    }
}

/// What the RX side of a connected pair holds after a barrier: what it
/// already held, then the moved packets of the TX side, oldest first.
pub open spec fn spec_sync_delivered(t: RingModel, r: RingModel) -> Seq<Seq<u8>> {
    readable_seq(r) + pending_seq(t).take(spec_sync_moved(t, r) as int)
}

/// The synchronization barrier over a connected pair, as the kernel side
/// performs it for an intra-host pipe: every packet released on the TX
/// ring and not yet taken is delivered, oldest first, into the RX ring as
/// far as its room allows, the TX slots are reclaimed, and the count
/// moved is returned.
pub fn pipe_sync(tx: &mut TxRing, rx: &mut RxRing) -> (k: usize)
    requires
        old(tx).wf(),
        old(rx).wf(),
        old(tx)@.buf_size <= old(rx)@.buf_size,
    ensures
        final(tx).wf(),
        final(rx).wf(),
        final(tx)@.n == old(tx)@.n,
        final(tx)@.buf_size == old(tx)@.buf_size,
        final(tx)@.index == old(tx)@.index,
        final(tx)@.head == old(tx)@.head,
        final(tx)@.cur == old(tx)@.cur,
        final(tx)@.slots == old(tx)@.slots,
        final(rx)@.n == old(rx)@.n,
        final(rx)@.buf_size == old(rx)@.buf_size,
        final(rx)@.index == old(rx)@.index,
        final(rx)@.head == old(rx)@.head,
        final(rx)@.cur == old(rx)@.cur,
        k == spec_sync_moved(old(tx)@, old(rx)@),
        readable_seq(final(rx)@) == spec_sync_delivered(old(tx)@, old(rx)@),
        readable_count(final(rx)@) == readable_count(old(rx)@) + k,
        pending_seq(final(tx)@) == pending_seq(old(tx)@).skip(k as int),
        pending_count(final(tx)@) == pending_count(old(tx)@) - k,
        free_slots(final(tx)@) == free_slots(old(tx)@) + k,
{
    let n_tx = tx.0.slots.len();
    let n_rx = rx.0.slots.len();
    let pending: usize = if tx.0.cur >= tx.0.ksync {
        tx.0.cur - tx.0.ksync
    } else {
        n_tx + tx.0.cur - tx.0.ksync
    };
    let readable: usize = if rx.0.tail >= rx.0.cur {
        rx.0.tail - rx.0.cur
    } else {
        n_rx + rx.0.tail - rx.0.cur
    };
    let room: usize = n_rx - 1 - readable;
    let k = if pending <= room {
        pending
    } else {
        room
    };

    let mut j: usize = 0;
    while j < k
        invariant
            tx.wf(),
            rx.wf(),
            j <= k,
            n_tx == old(tx)@.n,
            n_rx == old(rx)@.n,
            k <= pending_count(old(tx)@),
            k <= rx_capacity(old(rx)@),
            tx@.buf_size <= rx@.buf_size,
            tx@.n == old(tx)@.n,
            tx@.buf_size == old(tx)@.buf_size,
            tx@.index == old(tx)@.index,
            tx@.head == old(tx)@.head,
            tx@.cur == old(tx)@.cur,
            tx@.slots == old(tx)@.slots,
            rx@.n == old(rx)@.n,
            rx@.buf_size == old(rx)@.buf_size,
            rx@.index == old(rx)@.index,
            rx@.head == old(rx)@.head,
            rx@.cur == old(rx)@.cur,
            k == if pending_count(old(tx)@) <= rx_capacity(old(rx)@) {
                pending_count(old(tx)@)
            } else {
                rx_capacity(old(rx)@)
            },
            pending_count(tx@) == pending_count(old(tx)@) - j,
            pending_seq(tx@) == pending_seq(old(tx)@).skip(j as int),
            free_slots(tx@) == free_slots(old(tx)@) + j,
            readable_count(rx@) == readable_count(old(rx)@) + j,
            readable_seq(rx@) == readable_seq(old(rx)@) + pending_seq(old(tx)@).take(j as int),
        decreases k - j,
    {
        let ghost tx0 = tx@;
        let ghost rx0 = rx@;
        let payload = crate::util::copy_bytes(tx.0.slots[tx.0.ksync].as_slice());
        proof {
            assert(add_mod(tx0.ksync, 0, tx0.n) == tx0.ksync);
            assert(payload@ == pending_seq(tx0)[0]);
            assert(pending_seq(tx0)[0] == pending_seq(old(tx)@)[j as int]);
        }
        let rtail = rx.0.tail;
        rx.0.slots[rtail] = payload;
        let next_rtail = if rtail + 1 >= n_rx {
            rtail + 1 - n_rx
        } else {
            rtail + 1
        };
        rx.0.tail = next_rtail;
        let next_ksync = if tx.0.ksync + 1 >= n_tx {
            tx.0.ksync + 1 - n_tx
        } else {
            tx.0.ksync + 1
        };
        let next_ttail = if tx.0.tail + 1 >= n_tx {
            tx.0.tail + 1 - n_tx
        } else {
            tx.0.tail + 1
        };
        tx.0.ksync = next_ksync;
        tx.0.tail = next_ttail;
        proof {
            let p = pending_seq(old(tx)@);
            // The transmit side drops the first packet of its window.
            assert(tx@.slots == tx0.slots);
            assert(tx@.ksync == add_mod(tx0.ksync, 1, tx0.n));
            assert(pending_count(tx0) >= 1);
            assert(pending_count(tx@) == pending_count(tx0) - 1);
            lemma_window_skip(tx0.slots, tx0.ksync, pending_count(tx0), tx0.n, 1);
            assert(pending_seq(tx@) =~= pending_seq(tx0).skip(1));
            assert(pending_seq(tx0).skip(1) =~= p.skip(j + 1));
            // The receive side appends it to its window: the write lands
            // exactly one step past the readable region.
            assert(rx@.slots =~~= rx0.slots.update(rx0.tail as int, payload@));
            assert(payload@.len() <= rx0.buf_size);
            assert forall|i: int| 0 <= i < rx@.slots.len() implies #[trigger] rx@.slots[i].len()
                <= rx@.buf_size by {
                if i != rx0.tail {
                    assert(rx@.slots[i] == rx0.slots[i]);
                }
            }
            assert(add_mod(rx0.cur, readable_count(rx0), rx0.n) == rx0.tail);
            assert(readable_count(rx0) < rx0.n - 1);
            assert(rx@.tail == add_mod(rx0.tail, 1, rx0.n));
            assert(readable_count(rx@) == readable_count(rx0) + 1);
            lemma_window_push(rx0.slots, rx0.cur, readable_count(rx0), rx0.n, payload@);
            assert(readable_seq(rx@) =~= readable_seq(rx0).push(payload@));
            assert(readable_seq(rx0).push(payload@) =~= readable_seq(old(rx)@) + p.take(j + 1));
        }
        j += 1;
    }
    k
}

/// Slots free for the user to fill, computed from observed TX cursors:
/// `(tail - cur - 1) % num_slots`, one slot kept back. The layer that
/// drives a mapped ring asks this before reserving a batch.
pub fn tx_free_slots(cur: usize, tail: usize, num_slots: usize) -> (f: usize)
    requires
        cur < num_slots,
        tail < num_slots,
        2 <= num_slots <= 0x3fff_ffff,
    ensures
        ring_dist(cur as nat, tail as nat, num_slots as nat) > 0 ==> f == ring_dist(
            cur as nat,
            tail as nat,
            num_slots as nat,
        ) - 1,
        ring_dist(cur as nat, tail as nat, num_slots as nat) == 0 ==> f == num_slots - 1,
{
    let d = if tail >= cur {
        tail - cur
    } else {
        num_slots + tail - cur
    };
    if d > 0 {
        d - 1
    } else {
        num_slots - 1
    }
}

/// In every reachable state of a TX ring — and each operation's contract
/// shows the state it leaves is again well-formed — the circular distance
/// from `tail` to `head` stays at most `num_slots - 1`, and the free
/// region keeps one slot back: at most `num_slots - 2` slots are free.
pub proof fn lemma_tx_cursor_gap_bound(m: RingModel)
    requires
        m.wf(),
        m.dir is Tx,
    ensures
        ring_dist(m.tail, m.head, m.n) <= m.n - 1,
        free_slots(m) <= m.n - 2,
{
}

/// Between barriers, each receive strictly shrinks the readable region
/// by one packet; a barrier never shrinks it, as the contracts of
/// [`RxRing::sync`] and [`pipe_sync`] state.
pub proof fn lemma_recv_shrinks_readable(m: RingModel)
    requires
        m.wf(),
        m.dir is Rx,
        readable_count(m) > 0,
    ensures
        readable_count(spec_rx_recv(m)) == readable_count(m) - 1,
        spec_rx_recv(m).wf(),
{
}

/// Across a barrier the readable region never shrinks: what a connected
/// barrier delivers begins with what the receive ring already held, and
/// its length grows by exactly the moved count.
pub proof fn lemma_sync_grows_readable(t: RingModel, r: RingModel)
    requires
        t.wf(),
        t.dir is Tx,
        r.wf(),
        r.dir is Rx,
    ensures
        spec_sync_delivered(t, r).len() == readable_count(r) + spec_sync_moved(t, r),
        spec_sync_delivered(t, r).take(readable_count(r) as int) == readable_seq(r),
{
    assert(spec_sync_delivered(t, r).take(readable_count(r) as int) =~= readable_seq(r));
}

/// A send appends to what the next barrier delivers: with room on the
/// connected RX ring for every released packet and the new one, the
/// delivery is what the receiver already held, then the packets released
/// earlier, then `p` last — the ring's FIFO order, in any state.
pub proof fn lemma_send_appends_to_delivery(t: RingModel, r: RingModel, p: Seq<u8>)
    requires
        t.wf(),
        t.dir is Tx,
        p.len() <= t.buf_size,
        free_slots(t) > 0,
        r.wf(),
        r.dir is Rx,
        rx_capacity(r) >= pending_count(t) + 1,
    ensures
        pending_seq(spec_tx_send(t, p)) == pending_seq(t).push(p),
        spec_sync_delivered(spec_tx_send(t, p), r) == readable_seq(r) + pending_seq(t).push(p),
        spec_sync_delivered(spec_tx_send(t, p), r).last() == p,
{
    let t1 = spec_tx_send(t, p);
    assert(t.cur == add_mod(t.ksync, pending_count(t), t.n));
    lemma_window_push(t.slots, t.ksync, pending_count(t), t.n, p);
    assert(pending_seq(t1) =~= pending_seq(t).push(p));
    assert(pending_count(t1) == pending_count(t) + 1);
    assert(spec_sync_moved(t1, r) == pending_count(t) + 1);
    assert(pending_seq(t1).take(spec_sync_moved(t1, r) as int) =~= pending_seq(t1));
    assert(spec_sync_delivered(t1, r) =~= readable_seq(r) + pending_seq(t).push(p));
}

/// A committed batch appends to what the next barrier delivers: with the
/// reserved slots holding `ps` and room on the connected RX ring for
/// every released packet and the batch, the delivery is what the
/// receiver already held, then the packets released earlier, then `ps`,
/// in order, in any state.
pub proof fn lemma_commit_appends_to_delivery(t: RingModel, ps: Seq<Seq<u8>>, r: RingModel)
    requires
        t.wf(),
        t.dir is Tx,
        ps.len() <= free_slots(t),
        window(t.slots, t.cur, ps.len(), t.n) == ps,
        r.wf(),
        r.dir is Rx,
        rx_capacity(r) >= pending_count(t) + ps.len(),
    ensures
        pending_count(spec_tx_commit(t, ps.len())) == pending_count(t) + ps.len(),
        pending_seq(spec_tx_commit(t, ps.len())) == pending_seq(t) + ps,
        spec_sync_delivered(spec_tx_commit(t, ps.len()), r) == readable_seq(r) + pending_seq(t)
            + ps,
{
    let c = ps.len();
    let t2 = spec_tx_commit(t, c);
    assert(pending_count(t2) == pending_count(t) + c);
    assert forall|i: int| 0 <= i < pending_count(t) + c implies pending_seq(t2)[i] == (
    pending_seq(t) + ps)[i] by {
        if i >= pending_count(t) {
            assert(add_mod(t.ksync, i as nat, t.n) == add_mod(
                t.cur,
                (i - pending_count(t)) as nat,
                t.n,
            ));
        }
    }
    assert(pending_seq(t2) =~= pending_seq(t) + ps);
    assert(spec_sync_moved(t2, r) == pending_count(t) + c);
    assert(pending_seq(t2).take(spec_sync_moved(t2, r) as int) =~= pending_seq(t2));
    assert(spec_sync_delivered(t2, r) =~= readable_seq(r) + pending_seq(t) + ps);
}

/// Round trip of a single packet: sending `p` on a quiescent TX ring and
/// running the barrier against a drained, connected RX ring delivers
/// exactly the one packet `p`, so the next receive yields a frame whose
/// payload equals `p`.
pub proof fn lemma_single_packet_round_trip(t: RingModel, r: RingModel, p: Seq<u8>)
    requires
        t.wf(),
        t.dir is Tx,
        p.len() <= t.buf_size,
        free_slots(t) > 0,
        pending_count(t) == 0,
        r.wf(),
        r.dir is Rx,
        readable_count(r) == 0,
        rx_capacity(r) >= 1,
    ensures
        pending_seq(spec_tx_send(t, p)) == seq![p],
        spec_sync_delivered(spec_tx_send(t, p), r) == seq![p],
        spec_sync_delivered(spec_tx_send(t, p), r)[0] == p,
{
    lemma_send_appends_to_delivery(t, r, p);
    assert(pending_seq(t) =~= Seq::<Seq<u8>>::empty());
    assert(readable_seq(r) =~= Seq::<Seq<u8>>::empty());
    assert(pending_seq(spec_tx_send(t, p)) =~= seq![p]);
    assert(spec_sync_delivered(spec_tx_send(t, p), r) =~= seq![p]);
}

/// Round trip of a batch: once the reserved slots hold the payloads
/// `ps`, committing the reservation on a quiescent TX ring releases
/// exactly `ps`, and the barrier against a drained, connected RX ring
/// with enough room delivers exactly `ps`, in order.
pub proof fn lemma_batched_round_trip(t: RingModel, ps: Seq<Seq<u8>>, r: RingModel)
    requires
        t.wf(),
        t.dir is Tx,
        pending_count(t) == 0,
        ps.len() <= free_slots(t),
        window(t.slots, t.cur, ps.len(), t.n) == ps,
        r.wf(),
        r.dir is Rx,
        readable_count(r) == 0,
        rx_capacity(r) >= ps.len(),
    ensures
        pending_count(spec_tx_commit(t, ps.len())) == ps.len(),
        pending_seq(spec_tx_commit(t, ps.len())) == ps,
        spec_sync_delivered(spec_tx_commit(t, ps.len()), r) == ps,
{
    lemma_commit_appends_to_delivery(t, ps, r);
    assert(pending_seq(t) =~= Seq::<Seq<u8>>::empty());
    assert(readable_seq(r) =~= Seq::<Seq<u8>>::empty());
    assert(pending_seq(spec_tx_commit(t, ps.len())) =~= ps);
    assert(spec_sync_delivered(spec_tx_commit(t, ps.len()), r) =~= ps);
}

} // verus!
