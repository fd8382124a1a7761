//! A deterministic SplitMix64 generator: every stream is a pure function of
//! its seed, and even a zero seed gives a well-spread stream.
use vstd::prelude::*;
use vstd::wrapping::u64_specs;

verus! {

/// The SplitMix64 increment.
pub const GOLDEN_GAMMA: u64 = 0x9E37_79B9_7F4A_7C15;

/// First SplitMix64 mixing multiplier.
pub const MIX_MUL_1: u64 = 0xBF58_476D_1CE4_E5B9;

/// Second SplitMix64 mixing multiplier.
pub const MIX_MUL_2: u64 = 0x94D0_49BB_1331_11EB;

/// The state after one step from `state`.
pub open spec fn next_state(state: u64) -> u64 {
    u64_specs::wrapping_add(state, GOLDEN_GAMMA)
}

/// The output drawn from the (already advanced) state `z`.
pub open spec fn mix(z: u64) -> u64 {
    let z1 = u64_specs::wrapping_mul(z ^ (z >> 30u64), MIX_MUL_1);
    let z2 = u64_specs::wrapping_mul(z1 ^ (z1 >> 27u64), MIX_MUL_2);
    z2 ^ (z2 >> 31u64)
}

/// The output of the step taken from `state`.
pub open spec fn output(state: u64) -> u64 {
    mix(next_state(state))
}

/// Sum of `w[i..]`.
pub open spec fn sum_from(w: Seq<u32>, i: int) -> int
    decreases w.len() - i,
{
    if i < 0 || i >= w.len() {
        0
    } else {
        w[i] + sum_from(w, i + 1)
    }
}

/// The index that `weighted` picks for `pick`, scanning from `i`: the first
/// index whose weight exceeds what is left of `pick`, or the last index.
pub open spec fn pick_from(w: Seq<u32>, pick: int, i: int) -> int
    decreases w.len() - i,
{
    if i < 0 || i >= w.len() - 1 {
        w.len() - 1
    } else if pick < w[i] {
        i
    } else {
        pick_from(w, pick - w[i], i + 1)
    }
}

proof fn lemma_sum_from_nonneg(w: Seq<u32>, i: int)
    ensures
        sum_from(w, i) >= 0,
    decreases w.len() - i,
{
    if 0 <= i < w.len() {
        lemma_sum_from_nonneg(w, i + 1);
    }
}

/// A pick below the weights still ahead lands on an index with positive weight.
pub proof fn lemma_pick_positive(w: Seq<u32>, pick: int, i: int)
    requires
        0 <= i < w.len(),
        0 <= pick < sum_from(w, i),
    ensures
        i <= pick_from(w, pick, i) < w.len(),
        w[pick_from(w, pick, i)] > 0,
    decreases w.len() - i,
{
    lemma_sum_from_nonneg(w, i + 1);
    if i == w.len() - 1 {
        assert(sum_from(w, i + 1) == 0);
    } else if pick < w[i] {
    } else {
        lemma_pick_positive(w, pick - w[i], i + 1);
    }
}

/// A SplitMix64 pseudo-random generator.
#[derive(Clone, Debug)]
pub struct Rng {
    state: u64,
}

impl View for Rng {
    type V = u64;

    closed spec fn view(&self) -> u64 {
        self.state
    }
}

impl Rng {
    /// A generator seeded with `seed`.
    pub fn new(seed: u64) -> (r: Rng)
        ensures
            r@ == seed,
    {
        Rng { state: seed }
    }

    /// The next 64-bit output.
    pub fn next_u64(&mut self) -> (r: u64)
        ensures
            final(self)@ == next_state(old(self)@),
            r == mix(final(self)@),
    {
        self.state = self.state.wrapping_add(GOLDEN_GAMMA);
        let mut z = self.state;
        z = (z ^ (z >> 30u64)).wrapping_mul(MIX_MUL_1);
        z = (z ^ (z >> 27u64)).wrapping_mul(MIX_MUL_2);
        z ^ (z >> 31u64)
    }

    /// Uniform in `[0, n)`; 0 for `n == 0`, without advancing.
    pub fn below(&mut self, n: usize) -> (r: usize)
        ensures
            n == 0 ==> r == 0 && final(self)@ == old(self)@,
            n > 0 ==> final(self)@ == next_state(old(self)@) && r == output(old(self)@) % (n as u64) && r < n,
    {
        if n == 0 {
            return 0;
        }
        (self.next_u64() % n as u64) as usize
    }

    /// Uniform in `[lo, hi]`; `lo` when the range is empty or a single value,
    /// without advancing.
    pub fn range_i128(&mut self, lo: i128, hi: i128) -> (r: i128)
        requires
            hi > lo ==> hi - lo + 1 <= i128::MAX,
        ensures
            hi <= lo ==> r == lo && final(self)@ == old(self)@,
            hi > lo ==> final(self)@ == next_state(old(self)@) && r == lo + (output(old(self)@) as int) % (hi - lo + 1)
                && lo <= r <= hi,
    {
        if hi <= lo {
            return lo;
        }
        let span = (hi - lo + 1) as u128;
        lo + (self.next_u64() as u128 % span) as i128
    }

    /// Uniform in `[lo, hi]`; `lo` when the range is empty or a single value,
    /// without advancing.
    pub fn range_u32(&mut self, lo: u32, hi: u32) -> (r: u32)
        requires
            hi > lo ==> hi - lo < u32::MAX,
        ensures
            hi <= lo ==> r == lo && final(self)@ == old(self)@,
            hi > lo ==> final(self)@ == next_state(old(self)@) && r == lo + output(old(self)@) % ((hi - lo + 1) as u64)
                && lo <= r <= hi,
    {
        if hi <= lo {
            return lo;
        }
        lo + (self.next_u64() % (hi - lo + 1) as u64) as u32
    }

    /// Uniform in `[lo, hi]`; `lo` when the range is empty or a single value,
    /// without advancing.
    pub fn range_u64(&mut self, lo: u64, hi: u64) -> (r: u64)
        requires
            hi > lo ==> hi - lo < u64::MAX,
        ensures
            hi <= lo ==> r == lo && final(self)@ == old(self)@,
            hi > lo ==> final(self)@ == next_state(old(self)@) && r == lo + output(old(self)@) % ((hi - lo + 1) as u64)
                && lo <= r <= hi,
    {
        if hi <= lo {
            return lo;
        }
        lo + self.next_u64() % (hi - lo + 1)
    }

    /// True with probability `pct / 100`.
    pub fn chance(&mut self, pct: u32) -> (r: bool)
        ensures
            final(self)@ == next_state(old(self)@),
            r == (output(old(self)@) % 100 < pct),
    {
        (self.next_u64() % 100) < pct as u64
    }

    /// An index drawn with probability proportional to `weights`; 0 when all
    /// weights are zero (or there are none), without advancing.
    pub fn weighted(&mut self, weights: &[u32]) -> (r: usize)
        requires
            sum_from(weights@, 0) <= u32::MAX,
        ensures
            sum_from(weights@, 0) == 0 ==> r == 0 && final(self)@ == old(self)@,
            sum_from(weights@, 0) > 0 ==> final(self)@ == next_state(old(self)@) && r == pick_from(
                weights@,
                (output(old(self)@) as int) % sum_from(weights@, 0),
                0,
            ) && r < weights@.len() && weights@[r as int] > 0,
    {
        let ghost w = weights@;
        let mut total: u32 = 0;
        let mut i: usize = 0;
        while i < weights.len()
            invariant
                w == weights@,
                i <= w.len(),
                sum_from(w, 0) <= u32::MAX,
                total + sum_from(w, i as int) == sum_from(w, 0),
            decreases w.len() - i,
        {
            proof {
                lemma_sum_from_nonneg(w, i + 1);
            }
            total = total + weights[i];
            i = i + 1;
        }
        if total == 0 {
            return 0;
        }
        let ghost p0: int = (output(old(self)@) as int) % sum_from(w, 0);
        let mut pick = (self.next_u64() % total as u64) as u32;
        proof {
            lemma_pick_positive(w, p0, 0);
        }
        let mut j: usize = 0;
        while j < weights.len() - 1
            invariant
                w == weights@,
                w.len() > 0,
                j < w.len(),
                pick_from(w, pick as int, j as int) == pick_from(w, p0, 0),
                sum_from(w, 0) > 0,
                p0 == (output(old(self)@) as int) % sum_from(w, 0),
                final(self)@ == next_state(old(self)@),
                pick_from(w, p0, 0) < w.len(),
                0 <= pick_from(w, p0, 0) && w[pick_from(w, p0, 0)] > 0,
            decreases w.len() - j,
        {
            if pick < weights[j] {
                return j;
            }
            pick = pick - weights[j];
            j = j + 1;
        }
        // The last index takes whatever is left.
        j
    }
}


/// Inverse of `MIX_MUL_1` modulo 2^64.
pub const MIX_MUL_1_INV: u64 = 0x96DE_1B17_3F11_9089;

/// Inverse of `MIX_MUL_2` modulo 2^64.
pub const MIX_MUL_2_INV: u64 = 0x3196_42B2_D24D_8EC3;

proof fn lemma_mul_1_undone(x: u64)
    ensures
        u64_specs::wrapping_mul(u64_specs::wrapping_mul(x, MIX_MUL_1), MIX_MUL_1_INV) == x,
{
    let a = u64_specs::wrapping_mul(x, MIX_MUL_1);
    assert(a as int == (x as int * 0xBF58_476D_1CE4_E5B9) % 0x1_0000_0000_0000_0000);
    assert(((x as int * 0xBF58_476D_1CE4_E5B9) % 0x1_0000_0000_0000_0000) * 0x96DE_1B17_3F11_9089
        % 0x1_0000_0000_0000_0000 == x) by (bit_vector);
}

proof fn lemma_mul_2_undone(x: u64)
    ensures
        u64_specs::wrapping_mul(u64_specs::wrapping_mul(x, MIX_MUL_2), MIX_MUL_2_INV) == x,
{
    let a = u64_specs::wrapping_mul(x, MIX_MUL_2);
    assert(a as int == (x as int * 0x94D0_49BB_1331_11EB) % 0x1_0000_0000_0000_0000);
    assert(((x as int * 0x94D0_49BB_1331_11EB) % 0x1_0000_0000_0000_0000) * 0x3196_42B2_D24D_8EC3
        % 0x1_0000_0000_0000_0000 == x) by (bit_vector);
}

/// The mixing function is one-to-one.
proof fn lemma_mix_injective(x: u64, y: u64)
    requires
        x != y,
    ensures
        mix(x) != mix(y),
{
    let x1 = u64_specs::wrapping_mul(x ^ (x >> 30u64), MIX_MUL_1);
    let y1 = u64_specs::wrapping_mul(y ^ (y >> 30u64), MIX_MUL_1);
    let x2 = u64_specs::wrapping_mul(x1 ^ (x1 >> 27u64), MIX_MUL_2);
    let y2 = u64_specs::wrapping_mul(y1 ^ (y1 >> 27u64), MIX_MUL_2);
    assert(x ^ (x >> 30u64) == y ^ (y >> 30u64) ==> x == y) by (bit_vector);
    lemma_mul_1_undone(x ^ (x >> 30u64));
    lemma_mul_1_undone(y ^ (y >> 30u64));
    assert(x1 != y1);
    assert(x1 ^ (x1 >> 27u64) == y1 ^ (y1 >> 27u64) ==> x1 == y1) by (bit_vector);
    lemma_mul_2_undone(x1 ^ (x1 >> 27u64));
    lemma_mul_2_undone(y1 ^ (y1 >> 27u64));
    assert(x2 != y2);
    assert(x2 ^ (x2 >> 31u64) == y2 ^ (y2 >> 31u64) ==> x2 == y2) by (bit_vector);
}

/// Generators in different states stay apart: their next outputs differ and
/// so do their next states, so streams from distinct seeds differ at every
/// position.
pub proof fn lemma_distinct_states_diverge(a: u64, b: u64)
    requires
        a != b,
    ensures
        next_state(a) != next_state(b),
        output(a) != output(b),
{
    lemma_mix_injective(next_state(a), next_state(b));
}
} // verus!
