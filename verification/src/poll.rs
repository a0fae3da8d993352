//! Decision logic of the asynchronous readiness adapter: what one poll
//! step does, given the ring cursors the platform layer observed. The
//! layer that owns the descriptor runs the barrier ioctl, asks for the
//! decision, performs the slot copy or registers the waker, and writes
//! the advanced cursors back.

use vstd::prelude::*;

use crate::ring::add_mod;

verus! {

/// What one read-poll step does on an RX ring.
#[derive(Clone, Copy, Debug, PartialEq, Eq, Structural)]
pub enum RxPollAction {
    /// Nothing to read: register the task's waker for readability and
    /// suspend.
    Pending,
    /// Silently consume the slot at `cur` without yielding bytes, and
    /// advance to `next`.
    ConsumeEmpty {
        /// The cursor position after the consumed slot.
        next: usize,
    },
    /// Copy `len` bytes out of the slot at `cur` into the caller's
    /// buffer, and advance to `next`.
    Deliver {
        /// How many bytes to copy: the lesser of the slot's payload
        /// length and the room left in the caller's buffer.
        len: usize,
        /// The cursor position after the delivered slot.
        next: usize,
    },
}

/// What one write-poll step does on a TX ring.
#[derive(Clone, Copy, Debug, PartialEq, Eq, Structural)]
pub enum TxPollAction {
    /// The caller's buffer is empty: complete at once with zero bytes.
    WriteZero,
    /// The buffer exceeds the slot buffer size: complete at once with a
    /// packet-too-large error carrying the buffer's length.
    TooLarge,
    /// The ring is full: register the task's waker for writability and
    /// suspend.
    Pending,
    /// Copy the whole buffer into the slot at `slot`, set its length,
    /// clear its flags, and advance `head` and `cur` to `next`: one call
    /// writes one packet.
    Write {
        /// The slot to fill: the current `head`.
        slot: usize,
        /// The cursor position after the filled slot.
        next: usize,
    },
}

/// The decision of one read-poll step, from the observed RX cursors, the
/// payload length of the slot at `cur`, and the room left in the
/// caller's buffer. The barrier ioctl has already published newly
/// arrived slots.
pub fn rx_poll_decision(
    cur: usize,
    tail: usize,
    num_slots: usize,
    slot_len: usize,
    buf_remaining: usize,
) -> (a: RxPollAction)
    requires
        cur < num_slots,
        tail < num_slots,
        2 <= num_slots <= 0x3fff_ffff,
    ensures
        cur == tail ==> a is Pending,
        cur != tail && (slot_len == 0 || buf_remaining == 0) ==> a == (RxPollAction::ConsumeEmpty {
            next: add_mod(cur as nat, 1, num_slots as nat) as usize,
        }),
        cur != tail && slot_len > 0 && buf_remaining > 0 ==> a == (RxPollAction::Deliver {
            len: if slot_len <= buf_remaining {
                slot_len
            } else {
                buf_remaining
            },
            next: add_mod(cur as nat, 1, num_slots as nat) as usize,
        }),
{
    if cur == tail {
        return RxPollAction::Pending;
    }
    let next = if cur + 1 >= num_slots {
        cur + 1 - num_slots
    } else {
        cur + 1
    };
    if slot_len == 0 || buf_remaining == 0 {
        return RxPollAction::ConsumeEmpty { next };
    }
    let len = if slot_len <= buf_remaining {
        slot_len
    } else {
        buf_remaining
    };
    RxPollAction::Deliver { len, next }
}

/// The decision of one write-poll step, from the observed TX cursors,
/// the caller's buffer length, and the slot buffer size. The checks are
/// made in order: an empty buffer completes at once, an oversize buffer
/// fails at once, a full ring suspends, and otherwise one packet is
/// written.
pub fn tx_poll_decision(
    head: usize,
    tail: usize,
    num_slots: usize,
    buf_len: usize,
    buf_size: usize,
) -> (a: TxPollAction)
    requires
        head < num_slots,
        tail < num_slots,
        2 <= num_slots <= 0x3fff_ffff,
    ensures
        buf_len == 0 ==> a is WriteZero,
        buf_len > buf_size ==> a is TooLarge,
        0 < buf_len <= buf_size && add_mod(head as nat, 1, num_slots as nat) == tail ==> a
            is Pending,
        0 < buf_len <= buf_size && add_mod(head as nat, 1, num_slots as nat) != tail ==> a
            == (TxPollAction::Write {
            slot: head,
            next: add_mod(head as nat, 1, num_slots as nat) as usize,
        }),
{
    if buf_len == 0 {
        return TxPollAction::WriteZero;
    }
    if buf_len > buf_size {
        return TxPollAction::TooLarge;
    }
    let next = if head + 1 >= num_slots {
        head + 1 - num_slots
    } else {
        head + 1
    };
    if next == tail {
        return TxPollAction::Pending;
    }
    TxPollAction::Write { slot: head, next }
}

} // verus!
