//! What a waiting context does between two looks at the busy flag.

use vstd::prelude::*;

verus! {

/// A strategy for busy-waiting, run once per look at a held flag.
///
/// An implementation must not touch the queue that it is waiting for.
pub trait SpinHook {
    fn spin(&self);
}

/// The default strategy: tell the processor that this context is busy-waiting.
pub struct SpinHint;

impl SpinHook for SpinHint {
    fn spin(&self) {
        spinlock();
    }
}

/// Calls `core::hint::spin_loop`, which only hints to the processor and
/// returns nothing; no claim is made about it.
#[verifier::external_body]
fn spinlock() {
    core::hint::spin_loop();
}

} // verus!
