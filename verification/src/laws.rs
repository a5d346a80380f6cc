//! Properties of the oscillator, stated over the model and proved once and
//! for all: silence without voices, fixed phases under degenerate increments,
//! duplicate-voice mixing, halfway interpolation, and determinism.

use vstd::prelude::*;
use crate::SCALE;
use crate::model::{
    div_trunc, lemma_div_trunc_exact, lerp, mix, phase_span, sample_seq, step_phase, step_voices,
    sum_of_lerps, VoiceModel,
};
use crate::oscillator::WavetableOscillator;

verus! {

/// With no voices, every sample the oscillator emits is exactly zero, however
/// many samples are pulled.
pub proof fn lemma_silence_without_voices(table: Seq<int>, size: int, n: nat)
    ensures
        sample_seq(table, size, Seq::<VoiceModel>::empty(), n).len() == n,
        forall|k: int|
            0 <= k < n ==> sample_seq(table, size, Seq::<VoiceModel>::empty(), n)[k] == 0,
    decreases n,
{
    let e = Seq::<VoiceModel>::empty();
    assert(step_voices(e, size) =~= e);
    if n > 0 {
        lemma_silence_without_voices(table, size, (n - 1) as nat);
        assert(mix(table, size, e) == 0);
        assert forall|k: int| 0 <= k < n implies sample_seq(table, size, e, n)[k] == 0 by {
            if k > 0 {
                assert(sample_seq(table, size, e, n)[k] == sample_seq(
                    table,
                    size,
                    e,
                    (n - 1) as nat,
                )[k - 1]);
            }
        }
    }
}

/// A single voice whose phase starts at zero and whose increment brings the
/// phase back to zero at every step produces the table's first entry on every
/// pull.
pub proof fn lemma_single_voice_fixed_at_start(table: Seq<int>, size: int, inc: int, n: nat)
    requires
        1 <= size,
        table.len() == size,
        step_phase(0, inc, size) == 0,
    ensures
        sample_seq(table, size, seq![(inc, 0int)], n).len() == n,
        forall|k: int|
            0 <= k < n ==> sample_seq(table, size, seq![(inc, 0int)], n)[k] == table[0],
    decreases n,
{
    let one = seq![(inc, 0int)];
    assert(step_voices(one, size) =~= one);
    if n > 0 {
        lemma_single_voice_fixed_at_start(table, size, inc, (n - 1) as nat);
        assert(one.drop_last() =~= Seq::<VoiceModel>::empty());
        assert(0int / (SCALE as int) == 0);
        assert(0int % (SCALE as int) == 0);
        assert(div_trunc(0, SCALE as int) == 0);
        assert(0 * (table[(0int / (SCALE as int) + 1) % size] - table[0]) == 0);
        assert(lerp(table, size, 0) == table[0]);
        assert(sum_of_lerps(table, size, Seq::<VoiceModel>::empty()) == 0);
        assert(sum_of_lerps(table, size, one) == lerp(table, size, 0));
        lemma_div_trunc_exact(table[0], 1);
        assert(table[0] * 1 == table[0]);
        assert(mix(table, size, one) == table[0]);
        assert forall|k: int| 0 <= k < n implies sample_seq(table, size, one, n)[k] == table[0] by {
            if k > 0 {
                assert(sample_seq(table, size, one, n)[k] == sample_seq(
                    table,
                    size,
                    one,
                    (n - 1) as nat,
                )[k - 1]);
            }
        }
    }
}

/// A voice with a zero increment never advances: every sample it yields alone
/// equals the table's first entry, forever.
pub proof fn lemma_zero_increment_repeats_first_entry(table: Seq<int>, size: int, n: nat)
    requires
        1 <= size,
        table.len() == size,
    ensures
        sample_seq(table, size, seq![(0int, 0int)], n).len() == n,
        forall|k: int|
            0 <= k < n ==> sample_seq(table, size, seq![(0int, 0int)], n)[k] == table[0],
{
    assert(phase_span(size) >= 65536) by (nonlinear_arith)
        requires
            size >= 1,
    ;
    vstd::arithmetic::div_mod::lemma_small_mod(0nat, phase_span(size) as nat);
    lemma_single_voice_fixed_at_start(table, size, 0, n);
}

/// An increment of one full table span wraps the phase back to exactly zero at
/// every step: the oscillator repeats the table's first entry, which checks
/// the modulo wraparound.
pub proof fn lemma_full_span_increment_repeats_first_entry(table: Seq<int>, size: int, n: nat)
    requires
        1 <= size,
        table.len() == size,
    ensures
        sample_seq(table, size, seq![(phase_span(size), 0int)], n).len() == n,
        forall|k: int|
            0 <= k < n ==> sample_seq(table, size, seq![(phase_span(size), 0int)], n)[k]
                == table[0],
{
    assert(phase_span(size) >= 65536) by (nonlinear_arith)
        requires
            size >= 1,
    ;
    vstd::arithmetic::div_mod::lemma_mod_self_0(phase_span(size));
    lemma_single_voice_fixed_at_start(table, size, phase_span(size), n);
}

/// Two voices with identical increment and phase mix to exactly the sample
/// sequence of one such voice: the average of two equal contributions equals
/// either one.
pub proof fn lemma_duplicate_voice_mixes_like_one(
    table: Seq<int>,
    size: int,
    inc: int,
    phase: int,
    n: nat,
)
    requires
        1 <= size,
    ensures
        sample_seq(table, size, seq![(inc, phase), (inc, phase)], n) == sample_seq(
            table,
            size,
            seq![(inc, phase)],
            n,
        ),
    decreases n,
{
    let two = seq![(inc, phase), (inc, phase)];
    let one = seq![(inc, phase)];
    if n > 0 {
        let l = lerp(table, size, phase);
        assert(two.drop_last() =~= one);
        assert(one.drop_last() =~= Seq::<VoiceModel>::empty());
        assert(sum_of_lerps(table, size, Seq::<VoiceModel>::empty()) == 0);
        assert(sum_of_lerps(table, size, one) == l);
        assert(sum_of_lerps(table, size, two) == l + l);
        lemma_div_trunc_exact(l, 2);
        assert(l + l == l * 2);
        lemma_div_trunc_exact(l, 1);
        assert(l * 1 == l);
        assert(mix(table, size, two) == mix(table, size, one));
        let stepped = step_phase(phase, inc, size);
        assert(step_voices(two, size) =~= seq![(inc, stepped), (inc, stepped)]);
        assert(step_voices(one, size) =~= seq![(inc, stepped)]);
        lemma_duplicate_voice_mixes_like_one(table, size, inc, stepped, (n - 1) as nat);
        assert(sample_seq(table, size, two, n) =~= sample_seq(table, size, one, n));
    } else {
        assert(sample_seq(table, size, two, n) =~= sample_seq(table, size, one, n));
    }
}

/// A phase that lands exactly halfway between two adjacent table entries
/// contributes their arithmetic mean, whenever the two entries differ by an
/// even amount (an odd difference loses its last bit to fixed-point rounding).
pub proof fn lemma_halfway_phase_interpolates_to_mean(table: Seq<int>, size: int, phase: int)
    requires
        1 <= size,
        table.len() == size,
        0 <= phase < size * SCALE,
        phase % (SCALE as int) == (SCALE as int) / 2,
        (table[(phase / (SCALE as int) + 1) % size] - table[phase / (SCALE as int)]) % 2 == 0,
    ensures
        lerp(table, size, phase) == (table[phase / (SCALE as int)] + table[(phase / (
        SCALE as int) + 1) % size]) / 2,
{
    let a = table[phase / (SCALE as int)];
    let b = table[(phase / (SCALE as int) + 1) % size];
    let d = b - a;
    let h = d / 2;
    vstd::arithmetic::div_mod::lemma_fundamental_div_mod(d, 2);
    assert(d == 2 * h);
    assert(32768 * d == h * 65536);
    lemma_div_trunc_exact(h, 65536);
    assert(a + b == 2 * (a + h));
    vstd::arithmetic::div_mod::lemma_div_multiples_vanish(a + h, 2);
    assert((a + b) / 2 == a + h);
}

/// The sample sequence is a function of the table, the table size and the
/// voice list alone: two oscillators holding the same configuration produce
/// identical output, with no hidden state.
pub proof fn lemma_deterministic_output(a: &WavetableOscillator, b: &WavetableOscillator, n: nat)
    requires
        a.table() == b.table(),
        a.size() == b.size(),
        a.voices() == b.voices(),
    ensures
        sample_seq(a.table(), a.size(), a.voices(), n) == sample_seq(
            b.table(),
            b.size(),
            b.voices(),
            n,
        ),
{
}

} // verus!
