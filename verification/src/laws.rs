//! What holds of every queue and of every run of calls on one.

use crate::index::advance;
use crate::index::cursor_range;
use crate::index::span;
use crate::model::after_push;
use crate::model::after_read;
use crate::model::push_count;
use crate::model::read_count;
use crate::model::replay;
use crate::model::Step;
use crate::ring::Ringu;
use crate::spin::SpinHook;
use vstd::prelude::*;

verus! {

/// Between transfers a queue never holds more than `N` bytes; it counts as
/// full exactly when it holds `N`; and the bytes it holds and the room it has
/// left add up to `N`.
pub proof fn lemma_capacity_bound<const N: usize, S: SpinHook>(q: Ringu<N, S>)
    requires
        q.wf(),
    ensures
        q.spec_available() == q@.len(),
        0 <= q.spec_available() <= N,
        q.spec_full() <==> q.spec_available() == N,
        q.spec_vacant() + q.spec_available() == N,
        q.spec_empty() <==> q.spec_available() == 0,
{
}

/// A push onto a full queue moves nothing and changes nothing, and so does a
/// read from an empty one.
pub proof fn lemma_refused_transfer_is_idle(queue: Seq<u8>, cap: usize, byte: u8)
    requires
        queue.len() <= cap,
    ensures
        queue.len() == cap ==> push_count(queue, cap) == 0 && after_push(queue, cap, byte) == queue,
        queue.len() == 0 ==> read_count(queue) == 0 && after_read(queue) == queue,
        queue.len() < cap ==> push_count(queue, cap) == 1,
        queue.len() > 0 ==> read_count(queue) == 1,
{
}

/// After any run of pushes and reads, the bytes pushed are the bytes read
/// followed by the bytes still waiting: nothing is lost, doubled or reordered,
/// and the queue stays within its capacity.
pub proof fn lemma_conservation(cap: usize, steps: Seq<Step>)
    ensures
        replay(cap, steps).pushed == replay(cap, steps).taken + replay(cap, steps).waiting,
        replay(cap, steps).pushed.len() == replay(cap, steps).taken.len() + replay(
            cap,
            steps,
        ).waiting.len(),
        replay(cap, steps).waiting.len() <= cap,
    decreases steps.len(),
{
    let now = replay(cap, steps);
    if steps.len() > 0 {
        lemma_conservation(cap, steps.drop_last());
    }
    assert(now.pushed =~= now.taken + now.waiting);
}

/// Once a run of pushes and reads has drained the queue, as many bytes were
/// read as were pushed, and they are the same bytes in the same order.
pub proof fn lemma_drained_run_balances(cap: usize, steps: Seq<Step>)
    requires
        replay(cap, steps).waiting.len() == 0,
    ensures
        replay(cap, steps).taken == replay(cap, steps).pushed,
        replay(cap, steps).taken.len() == replay(cap, steps).pushed.len(),
{
    lemma_conservation(cap, steps);
    assert(replay(cap, steps).taken =~= replay(cap, steps).pushed);
}

/// Bytes are read in the order in which they were pushed: what has been read
/// is the beginning of what has been pushed, so the i-th byte read is the i-th
/// byte pushed.
pub proof fn lemma_first_in_first_out(cap: usize, steps: Seq<Step>)
    ensures
        replay(cap, steps).taken.is_prefix_of(replay(cap, steps).pushed),
        forall|i: int|
            0 <= i < replay(cap, steps).taken.len() ==> replay(cap, steps).taken[i] == replay(
                cap,
                steps,
            ).pushed[i],
{
    lemma_conservation(cap, steps);
    let now = replay(cap, steps);
    assert(now.taken =~= now.pushed.subrange(0, now.taken.len() as int));
}

/// Whether each byte of `bytes` is its predecessor plus one, wrapping from 255 to 0.
pub open spec fn counts_up(bytes: Seq<u8>) -> bool {
    forall|i: int|
        0 < i < bytes.len() ==> (#[trigger] bytes[i]) as int == (bytes[i - 1] + 1) % 256
}

/// If the bytes pushed count up by one, wrapping from 255 to 0, then so do
/// the bytes read.
pub proof fn lemma_counting_survives(cap: usize, steps: Seq<Step>)
    requires
        counts_up(replay(cap, steps).pushed),
    ensures
        counts_up(replay(cap, steps).taken),
{
    lemma_first_in_first_out(cap, steps);
}

/// The cursors count around their wrap without losing the queue's length: a
/// write cursor that moves on by one, wrapping or not, is one further ahead of
/// the read cursor, and a read cursor that moves on by one leaves the write
/// cursor one less ahead.
pub proof fn lemma_span_tolerates_wrap(write: usize, read: usize)
    ensures
        0 <= span(write, read) < cursor_range(),
        span(write, read) + 1 < cursor_range() ==> span(advance(write), read) == span(write, read)
            + 1,
        span(write, read) > 0 ==> span(write, advance(read)) == span(write, read) - 1,
        span(write, read) == 0 <==> write == read,
{
}

} // verus!
