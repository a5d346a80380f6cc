//! Generation of the wavetable: one full sine cycle in fixed point, computed
//! with Bhaskara's rational approximation. The approximation is exact at the
//! quarter points of the cycle (0, 1, 0, -1 scaled by `SCALE`) and stays
//! within `[-SCALE, SCALE]` everywhere.

use vstd::prelude::*;
use crate::{MAX_TABLE_SIZE, SCALE};

verus! {

/// Fixed-point sine over half a cycle by Bhaskara's rational approximation:
/// for `0 <= m <= n`, `half_wave(m, n)` approximates `sin(pi * m / n) * SCALE`.
pub open spec fn half_wave(m: int, n: int) -> int {
    (16 * (m * (n - m)) * SCALE) / (5 * (n * n) - 4 * (m * (n - m)))
}

/// The table entry at index `i` of a table with `n` entries: an approximation
/// of `sin(2 * pi * i / n) * SCALE`, negated on the second half of the cycle.
pub open spec fn sine_sample(i: int, n: int) -> int {
    if 2 * i <= n {
        half_wave(2 * i, n)
    } else {
        -half_wave(2 * i - n, n)
    }
}

/// The product `m * (n - m)` is nonnegative and at most a quarter of `n * n`
/// whenever `m` lies between `0` and `n`.
proof fn lemma_product_bound(m: int, n: int)
    by (nonlinear_arith)
    requires
        0 <= m <= n,
        1 <= n,
    ensures
        0 <= m * (n - m),
        4 * (m * (n - m)) <= n * n,
        n <= n * n,
{
}

/// A table size squared fits comfortably in the machine arithmetic.
proof fn lemma_square_bound(n: int)
    by (nonlinear_arith)
    requires
        0 <= n <= 65536,
    ensures
        n * n <= 0x1_0000_0000,
{
}

/// Bhaskara's half wave stays within `[0, SCALE]`.
proof fn lemma_half_wave_bounds(m: int, n: int)
    requires
        0 <= m <= n,
        1 <= n,
    ensures
        0 <= half_wave(m, n) <= SCALE,
{
    lemma_product_bound(m, n);
    let p = m * (n - m);
    let num = 16 * p * SCALE;
    let den = 5 * (n * n) - 4 * p;
    assert(den >= 4);
    assert(num <= SCALE * den);
    vstd::arithmetic::div_mod::lemma_div_pos_is_pos(num, den);
    vstd::arithmetic::div_mod::lemma_div_is_ordered(num, den * SCALE, den);
    vstd::arithmetic::div_mod::lemma_div_multiples_vanish(SCALE as int, den);
}

/// Every table entry is within `[-SCALE, SCALE]`.
pub proof fn lemma_sine_sample_bounds(i: int, n: int)
    requires
        0 <= i < n,
        1 <= n,
    ensures
        -SCALE <= sine_sample(i, n) <= SCALE,
{
    if 2 * i <= n {
        lemma_half_wave_bounds(2 * i, n);
    } else {
        lemma_half_wave_bounds(2 * i - n, n);
    }
}

/// The first table entry is exactly zero, as `sin(0)` is.
pub proof fn lemma_sine_sample_zero(n: int)
    requires
        1 <= n,
    ensures
        sine_sample(0, n) == 0,
{
    lemma_product_bound(0, n);
    vstd::arithmetic::div_mod::lemma_div_of0(5 * (n * n));
}

/// One fixed-point sine table entry.
fn sine_value(i: usize, n: usize) -> (v: i64)
    requires
        1 <= n <= MAX_TABLE_SIZE,
        i < n,
    ensures
        v as int == sine_sample(i as int, n as int),
        -SCALE <= v <= SCALE,
{
    let (m, neg): (u64, bool) = if 2 * i <= n {
        ((2 * i) as u64, false)
    } else {
        ((2 * i - n) as u64, true)
    };
    let n64 = n as u64;
    proof {
        lemma_product_bound(m as int, n64 as int);
        lemma_square_bound(n64 as int);
    }
    let p = m * (n64 - m);
    proof {
        assert(4 * (p as int) <= 0x1_0000_0000);
        assert(p <= 0x4000_0000);
        assert(16 * (p as int) * (SCALE as int) <= 0x4_0000_0000_0000);
    }
    let num = 16 * p * (SCALE as u64);
    let den = 5 * (n64 * n64) - 4 * p;
    let q = (num / den) as i64;
    proof {
        lemma_half_wave_bounds(m as int, n64 as int);
        lemma_sine_sample_bounds(i as int, n as int);
    }
    if neg {
        -q
    } else {
        q
    }
}

/// Builds the wavetable: entry `i` holds the fixed-point value of
/// `sin(2 * pi * i / table_size)`, exactly zero at index zero, and every
/// entry within `[-SCALE, SCALE]`.
pub fn generate_wave_table(table_size: usize) -> (r: Vec<i64>)
    requires
        1 <= table_size <= MAX_TABLE_SIZE,
    ensures
        r@.len() == table_size,
        forall|i: int| 0 <= i < table_size ==> (#[trigger] r@[i]) as int == sine_sample(i, table_size as int),
        forall|i: int| 0 <= i < table_size ==> -SCALE <= #[trigger] r@[i] <= SCALE,
        r@[0] == 0,
{
    let mut wave_table: Vec<i64> = Vec::with_capacity(table_size);
    for i in 0..table_size
        invariant
            1 <= table_size <= MAX_TABLE_SIZE,
            wave_table@.len() == i,
            forall|j: int| 0 <= j < i ==> (#[trigger] wave_table@[j]) as int == sine_sample(j, table_size as int),
            forall|j: int| 0 <= j < i ==> -SCALE <= #[trigger] wave_table@[j] <= SCALE,
    {
        let wave_value = sine_value(i, table_size);
        wave_table.push(wave_value);
    }
    proof {
        lemma_sine_sample_zero(table_size as int);
    }
    wave_table
}

} // verus!
