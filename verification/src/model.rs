//! The queue as a sequence of bytes, oldest first, and what one transfer does to it.

use vstd::prelude::*;

verus! {

/// How many bytes a push onto `queue` moves: one if there is room, else none.
pub open spec fn push_count(queue: Seq<u8>, cap: usize) -> nat {
    if queue.len() < cap {
        1
    } else {
        0
    }
}

/// The queue after a push of `byte`: longer by `byte` if there was room,
/// else as it was.
pub open spec fn after_push(queue: Seq<u8>, cap: usize, byte: u8) -> Seq<u8> {
    if queue.len() < cap {
        queue.push(byte)
    } else {
        queue
    }
}

/// How many bytes a read from `queue` moves: one if a byte waits, else none.
pub open spec fn read_count(queue: Seq<u8>) -> nat {
    if queue.len() > 0 {
        1
    } else {
        0
    }
}

/// The byte a read from `queue` returns: the oldest, or 0 if none waits.
pub open spec fn read_byte(queue: Seq<u8>) -> u8 {
    if queue.len() > 0 {
        queue[0]
    } else {
        0
    }
}

/// The queue after a read: without its oldest byte if one waited, else as it was.
pub open spec fn after_read(queue: Seq<u8>) -> Seq<u8> {
    if queue.len() > 0 {
        queue.drop_first()
    } else {
        queue
    }
}

/// One call on a queue.
pub enum Step {
    Push(u8),
    Read,
}

/// What a run of calls has moved, and what it has left.
pub struct Tally {
    /// The bytes that pushes moved into the queue, in order.
    pub pushed: Seq<u8>,
    /// The bytes that reads moved out of the queue, in order.
    pub taken: Seq<u8>,
    /// The bytes still in the queue, oldest first.
    pub waiting: Seq<u8>,
}

/// The tally of `steps`, made one after the other on a queue of capacity
/// `cap` that starts empty.
pub open spec fn replay(cap: usize, steps: Seq<Step>) -> Tally
    decreases steps.len(),
{
    if steps.len() == 0 {
        Tally { pushed: Seq::empty(), taken: Seq::empty(), waiting: Seq::empty() }
    } else {
        let before = replay(cap, steps.drop_last());
        match steps.last() {
            Step::Push(byte) => Tally {
                pushed: if push_count(before.waiting, cap) == 1 {
                    before.pushed.push(byte)
                } else {
                    before.pushed
                },
                taken: before.taken,
                waiting: after_push(before.waiting, cap, byte),
            },
            Step::Read => Tally {
                pushed: before.pushed,
                taken: if read_count(before.waiting) == 1 {
                    before.taken.push(read_byte(before.waiting))
                } else {
                    before.taken
                },
                waiting: after_read(before.waiting),
            },
        }
    }
}

} // verus!
