//! A fixed-capacity byte queue for one producer and one consumer.
//!
//! The queue keeps two wrapping cursors over a power-of-two sized store and a
//! busy-wait flag around each transfer. Every operation moves at most one byte
//! and reports how many bytes it moved.
//!
//! The operations that move a byte take the queue by exclusive reference, so
//! two contexts that share a queue reach it in turn. What the contracts state
//! holds of the calls in the order in which they take place.

pub mod index;
pub mod laws;
pub mod model;
pub mod ring;
pub mod spin;

pub use ring::Ringu;
pub use spin::SpinHint;
pub use spin::SpinHook;
