//! Safe abstractions for kernel-bypass packet I/O over memory-mapped
//! NIC rings: endpoint configuration, ring cursor arithmetic with
//! single-packet and batched send/receive, and the decision logic of an
//! asynchronous readiness adapter.

mod util;

pub mod error;
pub mod fallback;
pub mod frame;
pub mod netmap;
pub mod poll;
pub mod ring;

pub use crate::error::Error;
pub use crate::frame::Frame;
pub use crate::netmap::{Netmap, NetmapBuilder};
pub use crate::ring::{BatchReservation, Ring, RxRing, TxRing};
