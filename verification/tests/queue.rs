use ringu::index::is_power_of_two;
use ringu::Ringu;
use ringu::SpinHint;
use ringu::SpinHook;
use std::sync::atomic::AtomicUsize;
use std::sync::atomic::Ordering;

/// A hook that counts how often it is run.
struct CountingSpin<'a> {
    runs: &'a AtomicUsize,
}

impl<'a> SpinHook for CountingSpin<'a> {
    fn spin(&self) {
        self.runs.fetch_add(1, Ordering::SeqCst);
    }
}

#[test]
fn new_queue_is_empty() {
    let q = Ringu::<256>::default();
    assert_eq!(q.available(), 0);
    assert_eq!(q.vacant(), 256);
    assert!(q.empty());
    assert!(!q.full());
}

#[test]
fn read_from_empty_moves_nothing() {
    let mut q = Ringu::<8>::default();
    assert_eq!(q.read_one(), (0, 0));
    assert_eq!(q.available(), 0);
    assert!(q.empty());
    // and it stays usable afterwards
    assert_eq!(q.push_one(0x5a), 1);
    assert_eq!(q.read_one(), (1, 0x5a));
    assert_eq!(q.read_one(), (0, 0));
}

#[test]
fn push_reports_one_and_read_returns_the_byte() {
    let mut q = Ringu::<4>::default();
    assert_eq!(q.push_one(42), 1);
    assert_eq!(q.available(), 1);
    assert_eq!(q.vacant(), 3);
    assert!(!q.empty());
    assert!(!q.full());
    assert_eq!(q.read_one(), (1, 42));
    assert_eq!(q.available(), 0);
    assert_eq!(q.vacant(), 4);
    assert!(q.empty());
}

#[test]
fn push_to_full_moves_nothing() {
    let mut q = Ringu::<4>::default();
    for b in 1..=4u8 {
        assert_eq!(q.push_one(b), 1);
    }
    assert!(q.full());
    assert_eq!(q.available(), 4);
    assert_eq!(q.vacant(), 0);
    assert_eq!(q.push_one(99), 0);
    assert_eq!(q.push_one(100), 0);
    assert_eq!(q.available(), 4);
    // the rejected bytes never show up
    for b in 1..=4u8 {
        assert_eq!(q.read_one(), (1, b));
    }
    assert_eq!(q.read_one(), (0, 0));
}

#[test]
fn bytes_come_out_in_the_order_they_went_in() {
    let mut q = Ringu::<16>::default();
    let sent = [3u8, 1, 4, 1, 5, 9, 2, 6, 5, 3];
    for b in sent {
        assert_eq!(q.push_one(b), 1);
    }
    let mut got = Vec::new();
    loop {
        let (n, b) = q.read_one();
        if n == 0 {
            break;
        }
        got.push(b);
    }
    assert_eq!(got, sent.to_vec());
}

#[test]
fn slots_are_reused_around_the_end_of_the_store() {
    let mut q = Ringu::<4>::default();
    let mut next_in: u8 = 0;
    let mut next_out: u8 = 0;
    for round in 0..50usize {
        let burst = 1 + round % 4;
        for _ in 0..burst {
            assert_eq!(q.push_one(next_in), 1);
            next_in = next_in.wrapping_add(1);
        }
        assert_eq!(q.available(), burst);
        assert_eq!(q.vacant(), 4 - burst);
        assert_eq!(q.full(), burst == 4);
        for _ in 0..burst {
            assert_eq!(q.read_one(), (1, next_out));
            next_out = next_out.wrapping_add(1);
        }
        assert!(q.empty());
    }
    assert_eq!(next_in, next_out);
}

#[test]
fn vacant_and_available_add_up_to_capacity() {
    let mut q = Ringu::<8>::default();
    for step in 0..40usize {
        if step % 3 == 2 {
            q.read_one();
        } else {
            q.push_one(step as u8);
        }
        assert!(q.available() <= 8);
        assert_eq!(q.vacant() + q.available(), 8);
        assert_eq!(q.full(), q.available() == 8);
        assert_eq!(q.empty(), q.available() == 0);
    }
}

#[test]
fn capacity_of_one() {
    let mut q = Ringu::<1>::default();
    assert_eq!(q.vacant(), 1);
    assert_eq!(q.push_one(7), 1);
    assert!(q.full());
    assert_eq!(q.push_one(8), 0);
    assert_eq!(q.read_one(), (1, 7));
    assert!(q.empty());
    assert_eq!(q.push_one(9), 1);
    assert_eq!(q.read_one(), (1, 9));
    assert_eq!(q.read_one(), (0, 0));
}

#[test]
fn pushed_equals_read_once_drained() {
    let mut q = Ringu::<8>::default();
    let mut pushed = Vec::new();
    let mut taken = Vec::new();
    // twelve attempts on eight slots: four are rejected
    for i in 0..12u8 {
        if q.push_one(i) == 1 {
            pushed.push(i);
        }
    }
    assert_eq!(pushed.len(), 8);
    for _ in 0..3 {
        let (n, b) = q.read_one();
        assert_eq!(n, 1);
        taken.push(b);
    }
    for i in 100..110u8 {
        if q.push_one(i) == 1 {
            pushed.push(i);
        }
    }
    assert_eq!(pushed.len(), 11);
    loop {
        let (n, b) = q.read_one();
        if n == 0 {
            break;
        }
        taken.push(b);
    }
    assert!(q.empty());
    assert_eq!(taken, pushed);
    assert_eq!(taken, vec![0, 1, 2, 3, 4, 5, 6, 7, 100, 101, 102]);
}

#[test]
fn custom_spin_hook_is_not_run_without_contention() {
    let runs = AtomicUsize::new(0);
    let mut q = Ringu::<4, CountingSpin>::new_with_spin(CountingSpin { runs: &runs });
    assert!(q.empty());
    assert_eq!(q.push_one(1), 1);
    assert_eq!(q.push_one(2), 1);
    assert_eq!(q.read_one(), (1, 1));
    assert_eq!(q.read_one(), (1, 2));
    assert_eq!(q.read_one(), (0, 0));
    assert_eq!(runs.load(Ordering::SeqCst), 0);
}

#[test]
fn default_spin_hint_returns() {
    let hint = SpinHint;
    hint.spin();
    hint.spin();
    let mut q = Ringu::<2, SpinHint>::new_with_spin(hint);
    assert_eq!(q.push_one(5), 1);
    assert_eq!(q.read_one(), (1, 5));
}

/// 512 bytes, twice the capacity, go through a queue of 256 while the reader
/// keeps pace: two pushes, then up to six read attempts, and so on.
#[test]
fn interleaved_write_read() {
    const MAX_WRITE_COUNT: usize = 512;
    const MAX_READ_COUNT: usize = MAX_WRITE_COUNT * 3;

    let runs = AtomicUsize::new(0);
    let mut q = Ringu::<256, CountingSpin>::new_with_spin(CountingSpin { runs: &runs });

    let mut total_write_count = 0;
    let mut blocked_write_count = 0;
    let mut read_attempts = 0;
    let mut outer_read_count = 0;
    let mut prior_read_val: u8 = 255;
    let mut i = 0;
    while i < MAX_WRITE_COUNT {
        for _ in 0..2 {
            let n_written = q.push_one((i % 256) as u8);
            total_write_count += n_written;
            if n_written == 0 {
                blocked_write_count += 1;
            }
            i += 1;
        }
        for _ in 0..6 {
            let (nread, cur_val) = q.read_one();
            read_attempts += 1;
            outer_read_count += nread;
            if nread != 0 {
                assert!(cur_val.wrapping_sub(prior_read_val) == 1);
                prior_read_val = cur_val;
            }
        }
    }
    println!("read_attempts: {} outer_read_count: {}", read_attempts, outer_read_count);
    println!("blocked writes: {}", blocked_write_count);
    assert_eq!(read_attempts, MAX_READ_COUNT);
    assert_eq!(outer_read_count, total_write_count);
    assert_eq!(outer_read_count, 512);
    assert_eq!(0, blocked_write_count);
}

/// The writer runs ahead of the reader: the queue fills, pushes are rejected,
/// and what was accepted still comes out whole and in order.
#[test]
fn writer_ahead_of_reader() {
    let mut q = Ringu::<256>::default();
    let mut accepted = Vec::new();
    let mut blocked = 0;
    for i in 0..512usize {
        let b = (i % 256) as u8;
        if q.push_one(b) == 1 {
            accepted.push(b);
        } else {
            blocked += 1;
        }
    }
    assert_eq!(accepted.len(), 256);
    assert_eq!(blocked, 256);
    assert!(q.full());
    let mut taken = Vec::new();
    for _ in 0..1536usize {
        let (n, b) = q.read_one();
        if n == 1 {
            taken.push(b);
        }
    }
    assert_eq!(taken, accepted);
    assert!(q.empty());
}

#[test]
fn powers_of_two_are_told_apart() {
    assert!(!is_power_of_two(0));
    assert!(is_power_of_two(1));
    assert!(is_power_of_two(2));
    assert!(!is_power_of_two(3));
    assert!(is_power_of_two(4));
    assert!(!is_power_of_two(6));
    assert!(!is_power_of_two(255));
    assert!(is_power_of_two(256));
    assert!(!is_power_of_two(257));
    assert!(is_power_of_two(usize::MAX / 2 + 1));
    assert!(!is_power_of_two(usize::MAX / 2));
    assert!(!is_power_of_two(usize::MAX / 2 + 2));
    assert!(!is_power_of_two(usize::MAX));
    for k in 0..usize::BITS {
        assert!(is_power_of_two(1usize << k));
        assert_eq!(is_power_of_two((1usize << k) + 1), k == 0);
    }
}
