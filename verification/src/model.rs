//! The mathematical model of the oscillator: what one voice contributes, how a
//! phase advances, and what sample a whole voice list mixes down to. The
//! executable methods state their contracts over these functions.

use vstd::prelude::*;
use crate::SCALE;

verus! {

/// A voice in the model: `.0` is the fixed phase increment, `.1` the current
/// phase, both in fixed-point phase units (`SCALE` units per table index step).
pub type VoiceModel = (int, int);

/// Truncating integer division (rounding toward zero): the rounding the
/// executable code applies when it scales a product back down or averages
/// the voices.
pub open spec fn div_trunc(a: int, b: int) -> int {
    if a >= 0 {
        a / b
    } else {
        -((-a) / b)
    }
}

/// Number of phase units in a full sweep of a table with `size` entries.
pub open spec fn phase_span(size: int) -> int {
    size * SCALE
}

/// The linearly interpolated table value at fixed-point position `phase`:
/// the entry at the index below the phase, plus the fractional part of the
/// phase times the difference to the next entry (wrapping past the end).
pub open spec fn lerp(table: Seq<int>, size: int, phase: int) -> int {
    let idx = phase / (SCALE as int);
    let frac = phase % (SCALE as int);
    let next = (idx + 1) % size;
    table[idx] + div_trunc(frac * (table[next] - table[idx]), SCALE as int)
}

/// A phase advanced by one sample: increment added, wrapped into
/// `[0, phase_span(size))`.
pub open spec fn step_phase(phase: int, inc: int, size: int) -> int {
    (phase + inc) % phase_span(size)
}

/// Every voice advanced by one sample; increments are unchanged.
pub open spec fn step_voices(voices: Seq<VoiceModel>, size: int) -> Seq<VoiceModel> {
    voices.map_values(|v: VoiceModel| (v.0, step_phase(v.1, v.0, size)))
}

/// The sum of the interpolated contributions of all voices.
pub open spec fn sum_of_lerps(table: Seq<int>, size: int, voices: Seq<VoiceModel>) -> int
    decreases voices.len(),
{
    if voices.len() == 0 {
        0
    } else {
        sum_of_lerps(table, size, voices.drop_last()) + lerp(table, size, voices.last().1)
    }
}

/// The sample the current state produces: the equal-weight average of all
/// voice contributions, and silence when no voice is active. The explicit
/// empty case is what keeps the average's division well defined.
pub open spec fn mix(table: Seq<int>, size: int, voices: Seq<VoiceModel>) -> int {
    if voices.len() == 0 {
        0
    } else {
        div_trunc(sum_of_lerps(table, size, voices), voices.len() as int)
    }
}

/// The first `n` samples the oscillator emits from a given state: each pull
/// mixes the current state and advances every phase by one step.
pub open spec fn sample_seq(table: Seq<int>, size: int, voices: Seq<VoiceModel>, n: nat) -> Seq<int>
    decreases n,
{
    if n == 0 {
        Seq::empty()
    } else {
        seq![mix(table, size, voices)] + sample_seq(
            table,
            size,
            step_voices(voices, size),
            (n - 1) as nat,
        )
    }
}

/// The phase increment a frequency produces: fixed-point frequency times the
/// table size, divided by the sample rate, rounded toward zero.
pub open spec fn increment_for(f: int, size: int, rate: int) -> int {
    div_trunc(f * size, rate)
}

/// A phase within the table's span selects a valid index, and the interpolated
/// value stays between the two entries it mixes, hence within the table's
/// amplitude bounds.
pub proof fn lemma_lerp_bounds(table: Seq<int>, size: int, phase: int)
    requires
        1 <= size,
        table.len() == size,
        forall|i: int| 0 <= i < size ==> -SCALE <= #[trigger] table[i] <= SCALE,
        0 <= phase < size * SCALE,
    ensures
        0 <= phase / (SCALE as int) < size,
        0 <= (phase / (SCALE as int) + 1) % size < size,
        -SCALE <= lerp(table, size, phase) <= SCALE,
{
    let idx = phase / (SCALE as int);
    let frac = phase % (SCALE as int);
    vstd::arithmetic::div_mod::lemma_div_pos_is_pos(phase, SCALE as int);
    assert(phase < (SCALE as int) * size) by (nonlinear_arith)
        requires
            phase < size * (SCALE as int),
    ;
    vstd::arithmetic::div_mod::lemma_multiply_divide_lt(phase, SCALE as int, size);
    vstd::arithmetic::div_mod::lemma_mod_bound(phase, SCALE as int);
    vstd::arithmetic::div_mod::lemma_mod_bound(idx + 1, size);
    let next = (idx + 1) % size;
    let a = table[idx];
    let b = table[next];
    let d = b - a;
    if d >= 0 {
        assert(0 <= frac * d <= SCALE * d) by (nonlinear_arith)
            requires
                0 <= frac <= SCALE,
                d >= 0,
        ;
        vstd::arithmetic::div_mod::lemma_div_pos_is_pos(frac * d, SCALE as int);
        vstd::arithmetic::div_mod::lemma_multiply_divide_le(frac * d, SCALE as int, d);
    } else {
        let e = -d;
        assert(0 <= frac * e <= SCALE * e) by (nonlinear_arith)
            requires
                0 <= frac <= SCALE,
                e >= 0,
        ;
        assert(-(frac * d) == frac * e) by (nonlinear_arith)
            requires
                e == -d,
        ;
        vstd::arithmetic::div_mod::lemma_div_pos_is_pos(frac * e, SCALE as int);
        vstd::arithmetic::div_mod::lemma_multiply_divide_le(frac * e, SCALE as int, e);
    }
}

/// Truncating division keeps the quotient's magnitude within any bound that
/// holds of the dividend scaled by the divisor.
pub proof fn lemma_div_trunc_bound(a: int, b: int, c: int)
    requires
        b >= 1,
        c >= 0,
        -(c * b) <= a <= c * b,
    ensures
        -c <= div_trunc(a, b) <= c,
{
    assert(c * b == b * c) by (nonlinear_arith);
    vstd::arithmetic::div_mod::lemma_div_multiples_vanish(c, b);
    if a >= 0 {
        vstd::arithmetic::div_mod::lemma_div_pos_is_pos(a, b);
        vstd::arithmetic::div_mod::lemma_div_is_ordered(a, b * c, b);
    } else {
        vstd::arithmetic::div_mod::lemma_div_pos_is_pos(-a, b);
        vstd::arithmetic::div_mod::lemma_div_is_ordered(-a, b * c, b);
    }
}

/// Dividing an exact multiple truncates nothing, whatever the sign.
pub proof fn lemma_div_trunc_exact(q: int, b: int)
    requires
        b >= 1,
    ensures
        div_trunc(q * b, b) == q,
{
    assert(q * b == b * q) by (nonlinear_arith);
    vstd::arithmetic::div_mod::lemma_div_multiples_vanish(q, b);
    if q >= 0 {
        assert(q * b >= 0) by (nonlinear_arith)
            requires
                q >= 0,
                b >= 1,
        ;
    } else {
        assert(q * b < 0) by (nonlinear_arith)
            requires
                q < 0,
                b >= 1,
        ;
        assert(-(q * b) == b * (-q)) by (nonlinear_arith);
        vstd::arithmetic::div_mod::lemma_div_multiples_vanish(-q, b);
    }
}

} // verus!
