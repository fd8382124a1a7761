use carbon_ledger::rng::Rng;

#[test]
fn same_seed_same_stream() {
    let mut a = Rng::new(42);
    let mut b = Rng::new(42);
    for _ in 0..1000 {
        assert_eq!(a.next_u64(), b.next_u64());
    }
}

#[test]
fn different_seeds_diverge() {
    let mut a = Rng::new(1);
    let mut b = Rng::new(2);
    let diverged = (0..64).any(|_| a.next_u64() != b.next_u64());
    assert!(diverged);
}

#[test]
fn zero_seed_is_well_distributed() {
    let mut r = Rng::new(0);
    let mut buckets = [0usize; 8];
    for _ in 0..8000 {
        buckets[r.below(8)] += 1;
    }
    for b in buckets {
        assert!(b > 800, "bucket {b} too small, distribution is skewed");
    }
}

#[test]
fn range_bounds_are_inclusive_and_respected() {
    let mut r = Rng::new(7);
    for _ in 0..5000 {
        let v = r.range_i128(-5, 5);
        assert!((-5..=5).contains(&v));
        let u = r.range_u32(2000, 2100);
        assert!((2000..=2100).contains(&u));
    }
}

#[test]
fn degenerate_ranges_do_not_panic() {
    let mut r = Rng::new(9);
    assert_eq!(r.range_i128(3, 3), 3);
    assert_eq!(r.range_i128(5, 1), 5);
    assert_eq!(r.below(0), 0);
    assert_eq!(r.weighted(&[0, 0, 0]), 0);
}

#[test]
fn splitmix_reference_values_for_zero_seed() {
    let mut r = Rng::new(0);
    assert_eq!(r.next_u64(), 0xE220_A839_7B1D_CDAF);
    assert_eq!(r.next_u64(), 0x6E78_9E6A_A1B9_65F4);
    assert_eq!(r.next_u64(), 0x06C4_5D18_8009_454F);
}

#[test]
fn below_is_remainder_of_next_output() {
    let mut a = Rng::new(123);
    let mut b = Rng::new(123);
    for n in 1..200usize {
        let x = a.next_u64();
        assert_eq!(b.below(n), (x % n as u64) as usize);
    }
}

#[test]
fn ranges_offset_from_low_bound() {
    let mut a = Rng::new(5);
    let mut b = Rng::new(5);
    let x = a.next_u64();
    assert_eq!(b.range_u64(10, 19), 10 + x % 10);
    let y = a.next_u64();
    assert_eq!(b.range_u32(100, 102), 100 + (y % 3) as u32);
    let z = a.next_u64();
    assert_eq!(b.range_i128(-3, 3), -3 + (z % 7) as i128);
}

#[test]
fn degenerate_ranges_leave_state_alone() {
    let mut a = Rng::new(11);
    let mut b = Rng::new(11);
    assert_eq!(a.range_u64(8, 8), 8);
    assert_eq!(a.range_u32(9, 2), 9);
    assert_eq!(a.below(0), 0);
    assert_eq!(a.next_u64(), b.next_u64());
}

#[test]
fn chance_extremes() {
    let mut r = Rng::new(3);
    for _ in 0..500 {
        assert!(!r.chance(0));
        assert!(r.chance(100));
    }
}

#[test]
fn weighted_skips_zero_weights() {
    let mut r = Rng::new(17);
    for _ in 0..500 {
        assert_eq!(r.weighted(&[0, 5, 0]), 1);
        let i = r.weighted(&[1, 0, 3]);
        assert!(i == 0 || i == 2);
    }
}

#[test]
fn weighted_matches_cumulative_pick() {
    let mut a = Rng::new(99);
    let mut b = Rng::new(99);
    let w = [2u32, 3, 5];
    for _ in 0..200 {
        let pick = a.next_u64() % 10;
        let expect = if pick < 2 { 0 } else if pick < 5 { 1 } else { 2 };
        assert_eq!(b.weighted(&w), expect);
    }
}

#[test]
fn distinct_seeds_differ_at_every_position() {
    let mut a = Rng::new(1);
    let mut b = Rng::new(2);
    for _ in 0..1000 {
        assert_ne!(a.next_u64(), b.next_u64());
    }
}
