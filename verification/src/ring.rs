//! The ring buffer: a byte store, two wrapping cursors and a busy flag.

use crate::index::advance;
use crate::index::lemma_mask_is_slot;
use crate::index::lemma_slot_wraps;
use crate::index::lemma_slots_distinct;
use crate::index::power_of_two;
use crate::index::slot;
use crate::index::span;
use crate::model::after_push;
use crate::model::after_read;
use crate::model::push_count;
use crate::model::read_byte;
use crate::model::read_count;
use crate::spin::SpinHint;
use crate::spin::SpinHook;
use vstd::prelude::*;

verus! {

/// A queue of at most `N` bytes, where `N` is a power of two.
///
/// Its view is the sequence of bytes waiting to be read, oldest first.
pub struct Ringu<const N: usize, S: SpinHook = SpinHint> {
    /// The store; the slot of a cursor is the cursor masked by `N - 1`.
    buf: [u8; N],
    /// Count of bytes read so far; wraps.
    read_idx: usize,
    /// Count of bytes written so far; wraps.
    write_idx: usize,
    /// True while a transfer is in progress.
    mut_lock: bool,
    /// Run while waiting for `mut_lock`.
    spin_func: S,
    /// Diagnostic count of reads; wraps, and no contract depends on it.
    read_count: usize,
}

impl<const N: usize, S: SpinHook> View for Ringu<N, S> {
    type V = Seq<u8>;

    open spec fn view(&self) -> Seq<u8> {
        Seq::new(
            span(self.write_cursor(), self.read_cursor()) as nat,
            |i: int| self.storage()[slot(self.read_cursor() + i, N)],
        )
    }
}

/// Swaps `*flag` to `new` if it holds `current`, and returns what it held.
fn exchange(flag: &mut bool, current: bool, new: bool) -> (prev: bool)
    ensures
        prev == *old(flag),
        *final(flag) == (if *old(flag) == current { new } else { *old(flag) }),
{
    let prev = *flag;
    if prev == current {
        *flag = new;
    }
    prev
}

/// Claims the next count of a cursor: returns the cursor and moves it on by one.
fn reserve(cursor: &mut usize) -> (claimed: usize)
    ensures
        claimed == *old(cursor),
        *final(cursor) == advance(*old(cursor)),
{
    let claimed = *cursor;
    *cursor = claimed.wrapping_add(1);
    claimed
}

impl<const N: usize> Ringu<N, SpinHint> {
    /// An empty queue that waits with the processor's spin hint.
    pub fn default() -> (r: Self)
        requires
            power_of_two(N),
        ensures
            r.wf(),
            r@ == Seq::<u8>::empty(),
            r.read_cursor() == 0,
            r.write_cursor() == 0,
            r.storage() == Seq::new(N as nat, |i: int| 0u8),
    {
        Self::new_with_spin(SpinHint)
    }
}

impl<const N: usize, S: SpinHook> Ringu<N, S> {
    /// The count of bytes read so far, wrapped.
    pub closed spec fn read_cursor(&self) -> usize {
        self.read_idx
    }

    /// The count of bytes written so far, wrapped.
    pub closed spec fn write_cursor(&self) -> usize {
        self.write_idx
    }

    /// The store, slot by slot.
    pub closed spec fn storage(&self) -> Seq<u8> {
        self.buf@
    }

    /// Whether a transfer holds the busy flag.
    pub closed spec fn locked(&self) -> bool {
        self.mut_lock
    }

    /// The queue is between transfers: the capacity is a power of two, the
    /// write cursor is at most `N` ahead of the read cursor, and the flag is free.
    pub open spec fn wf(&self) -> bool {
        &&& power_of_two(N)
        &&& span(self.write_cursor(), self.read_cursor()) <= N
        &&& !self.locked()
    }

    /// The number of bytes that wait to be read: how far the write cursor is
    /// ahead of the read cursor, counted around the wrap.
    pub open spec fn spec_available(&self) -> int {
        span(self.write_cursor(), self.read_cursor())
    }

    /// Whether the queue holds `N` bytes.
    pub open spec fn spec_full(&self) -> bool {
        self.spec_available() == N
    }

    /// Whether the two cursors are equal.
    pub open spec fn spec_empty(&self) -> bool {
        self.write_cursor() == self.read_cursor()
    }

    /// The number of bytes that still fit.
    pub open spec fn spec_vacant(&self) -> int {
        N - self.spec_available()
    }

    /// An empty queue that waits by running `spin`.
    pub fn new_with_spin(spin: S) -> (r: Self)
        requires
            power_of_two(N),
        ensures
            r.wf(),
            r@ == Seq::<u8>::empty(),
            r.read_cursor() == 0,
            r.write_cursor() == 0,
            r.storage() == Seq::new(N as nat, |i: int| 0u8),
    {
        let r = Self {
            buf: [0; N],
            read_idx: 0,
            write_idx: 0,
            mut_lock: false,
            spin_func: spin,
            read_count: 0,
        };
        assert(r@ =~= Seq::<u8>::empty());
        assert(r.storage() =~= Seq::new(N as nat, |i: int| 0u8));
        r
    }

    /// Takes the busy flag: tries to swap it from free to held, and while that
    /// fails runs the spin hook until the flag is seen free.
    ///
    /// The caller holds the queue exclusively and every transfer gives the
    /// flag back, so the flag is free on entry and the first swap takes it:
    /// the waiting branch is never entered, and the spin hook never runs.
    fn lock_me(&mut self)
        requires
            !old(self).mut_lock,
        ensures
            *final(self) == (Ringu { mut_lock: true, ..*old(self) }),
    {
        loop
            invariant_except_break
                *self == *old(self),
                !self.mut_lock,
            ensures
                *self == (Ringu { mut_lock: true, ..*old(self) }),
            decreases 0int,
        {
            let held = exchange(&mut self.mut_lock, false, true);
            if !held {
                break ;
            }
            while self.mut_lock
                invariant
                    !self.mut_lock,
                decreases 0int,
            {
                self.spin_func.spin();
            }
        }
    }

    /// Gives the busy flag back: swaps it from held to free, again until the
    /// swap has taken place. Since the caller holds the flag, the first swap does.
    fn unlock_me(&mut self)
        requires
            old(self).mut_lock,
        ensures
            *final(self) == (Ringu { mut_lock: false, ..*old(self) }),
    {
        loop
            invariant_except_break
                *self == *old(self),
                self.mut_lock,
            ensures
                *self == (Ringu { mut_lock: false, ..*old(self) }),
            decreases 0int,
        {
            let held = exchange(&mut self.mut_lock, true, false);
            if held {
                break ;
            }
        }
    }

    /// How many bytes wait to be read.
    pub fn available(&self) -> (avail: usize)
        requires
            self.wf(),
        ensures
            avail == self.spec_available(),
            avail == self@.len(),
            avail <= N,
    {
        let write = self.write_idx;
        let read = self.read_idx;
        write.wrapping_sub(read)
    }

    /// Whether no further byte fits.
    pub fn full(&self) -> (r: bool)
        requires
            self.wf(),
        ensures
            r == self.spec_full(),
            r == (self@.len() == N),
    {
        self.available() == N
    }

    /// Whether no byte waits to be read: the two cursors are equal.
    pub fn empty(&self) -> (r: bool)
        ensures
            r == self.spec_empty(),
            r == (self@.len() == 0),
    {
        self.write_idx == self.read_idx
    }

    /// How many further bytes fit.
    pub fn vacant(&self) -> (free: usize)
        requires
            self.wf(),
        ensures
            free == self.spec_vacant(),
            free == N - self@.len(),
    {
        N - self.available()
    }

    /// Takes the busy flag unless the queue is full; says whether it took it.
    fn lock_if_not_full(&mut self) -> (taken: bool)
        requires
            old(self).wf(),
        ensures
            taken == (old(self)@.len() < N),
            *final(self) == (Ringu { mut_lock: taken, ..*old(self) }),
    {
        if !self.full() {
            self.lock_me();
            true
        } else {
            false
        }
    }

    /// Takes the busy flag unless the queue is empty; says whether it took it.
    fn lock_if_not_empty(&mut self) -> (taken: bool)
        requires
            old(self).wf(),
        ensures
            taken == (old(self)@.len() > 0),
            *final(self) == (Ringu { mut_lock: taken, ..*old(self) }),
    {
        if !self.empty() {
            self.lock_me();
            true
        } else {
            false
        }
    }

    /// Appends `byte` if the queue is not full, and returns how many bytes it
    /// appended: 1, or 0 on a full queue, which it leaves as it was.
    pub fn push_one(&mut self, byte: u8) -> (pushed: usize)
        requires
            old(self).wf(),
        ensures
            final(self).wf(),
            pushed == push_count(old(self)@, N),
            final(self)@ == after_push(old(self)@, N, byte),
            final(self).read_cursor() == old(self).read_cursor(),
            final(self).write_cursor() == (if pushed == 1 {
                advance(old(self).write_cursor())
            } else {
                old(self).write_cursor()
            }),
            final(self).storage() == (if pushed == 1 {
                old(self).storage().update(slot(old(self).write_cursor() as int, N), byte)
            } else {
                old(self).storage()
            }),
    {
        if self.lock_if_not_full() {
            let cur_write_idx = reserve(&mut self.write_idx);
            proof {
                lemma_mask_is_slot(cur_write_idx, N);
            }
            self.buf[cur_write_idx & (N - 1)] = byte;
            self.unlock_me();
            proof {
                let read = self.read_idx as int;
                let len = old(self)@.len() as int;
                lemma_slot_wraps(read + len, N);
                assert(slot(cur_write_idx as int, N) == slot(read + len, N));
                assert forall|i: int| 0 <= i < len implies self@[i] == old(self)@[i] by {
                    lemma_slots_distinct(read + i, read + len, N);
                }
                assert(self@ =~= old(self)@.push(byte));
            }
            1
        } else {
            assert(self@ =~= old(self)@);
            0
        }
    }

    /// Removes the oldest byte if there is one, and returns how many bytes it
    /// removed with that byte: `(1, byte)`, or `(0, 0)` on an empty queue,
    /// which it leaves as it was.
    pub fn read_one(&mut self) -> (r: (usize, u8))
        requires
            old(self).wf(),
        ensures
            final(self).wf(),
            r.0 == read_count(old(self)@),
            r.1 == read_byte(old(self)@),
            final(self)@ == after_read(old(self)@),
            final(self).write_cursor() == old(self).write_cursor(),
            final(self).read_cursor() == (if r.0 == 1 {
                advance(old(self).read_cursor())
            } else {
                old(self).read_cursor()
            }),
            final(self).storage() == old(self).storage(),
    {
        if self.lock_if_not_empty() {
            self.read_count = self.read_count.wrapping_add(1);
            let cur_read_idx = reserve(&mut self.read_idx);
            proof {
                lemma_mask_is_slot(cur_read_idx, N);
            }
            let byte = self.buf[cur_read_idx & (N - 1)];
            self.unlock_me();
            proof {
                let read = cur_read_idx as int;
                let len = old(self)@.len() as int;
                assert forall|i: int| 0 <= i < len - 1 implies self@[i] == old(self)@[i + 1] by {
                    lemma_slot_wraps(read + 1 + i, N);
                }
                assert(self@ =~= old(self)@.drop_first());
            }
            (1, byte)
        } else {
            assert(self@ =~= old(self)@);
            (0, 0)
        }
    }
}

} // verus!
