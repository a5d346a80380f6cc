//! The oscillator: a sine wavetable, a sample rate, and two index-aligned
//! lists holding each voice's fixed phase increment and current phase. Each
//! sample pull interpolates every voice's table value, averages the voices,
//! and advances every phase by its increment, wrapped into the table's span.

use vstd::prelude::*;
use vstd::pervasive::VecAdditionalExecFns;
use crate::{FREQ_LIMIT, INC_LIMIT, MAX_TABLE_SIZE, SCALE};
use crate::model::{
    div_trunc, increment_for, lemma_div_trunc_bound, lemma_lerp_bounds, lerp, mix, phase_span,
    step_phase, step_voices, sum_of_lerps, VoiceModel,
};
use crate::table::{generate_wave_table, sine_sample};

verus! {

/// Error returned when an oscillator is configured with a zero table size or
/// a zero sample rate.
#[derive(Clone, Copy, Debug, PartialEq, Eq, Structural)]
pub struct InvalidConfiguration;

/// A bank of sine voices read from one shared wavetable.
///
/// The per-voice data lives in two parallel vectors that stay index-aligned:
/// `table_deltas[i]` is voice `i`'s phase increment and `table_indexes[i]` its
/// current phase, both in fixed-point phase units (`SCALE` units per table
/// index step).
pub struct WavetableOscillator {
    wave_table: Vec<i64>,
    table_size: usize,
    sample_rate: u32,
    table_deltas: Vec<i64>,
    table_indexes: Vec<i64>,
}

impl WavetableOscillator {
    /// The wavetable as a sequence of mathematical integers.
    pub closed spec fn table(&self) -> Seq<int> {
        self.wave_table@.map_values(|v: i64| v as int)
    }

    /// The number of table entries.
    pub closed spec fn size(&self) -> int {
        self.table_size as int
    }

    /// The configured sample rate.
    pub closed spec fn rate(&self) -> int {
        self.sample_rate as int
    }

    /// The voices: increment and phase pairs, in insertion order.
    pub closed spec fn voices(&self) -> Seq<VoiceModel> {
        Seq::new(
            self.table_deltas@.len(),
            |i: int| (self.table_deltas@[i] as int, self.table_indexes@[i] as int),
        )
    }

    /// Well-formedness: the table holds one entry per index step and stays
    /// within the fixed-point amplitude range, the two per-voice lists are
    /// index-aligned, every increment is bounded, and every phase lies within
    /// the table's span.
    pub closed spec fn wf(&self) -> bool {
        &&& 1 <= self.table_size <= MAX_TABLE_SIZE
        &&& 1 <= self.sample_rate
        &&& self.wave_table@.len() == self.table_size
        &&& (forall|i: int|
            0 <= i < self.wave_table@.len() ==> -SCALE <= #[trigger] self.wave_table@[i] <= SCALE)
        &&& self.table_deltas@.len() == self.table_indexes@.len()
        &&& (forall|i: int|
            0 <= i < self.table_deltas@.len() ==> -INC_LIMIT <= #[trigger] self.table_deltas@[i]
                <= INC_LIMIT)
        &&& (forall|i: int|
            0 <= i < self.table_indexes@.len() ==> 0 <= #[trigger] self.table_indexes@[i]
                < (self.table_size as int) * (SCALE as int))
    }

    /// Builds an oscillator with a freshly generated sine table and no voices.
    /// Rejects a zero table size or a zero sample rate, the two configurations
    /// whose downstream arithmetic would be meaningless.
    pub fn new(table_size: usize, sample_rate: u32) -> (r: Result<
        WavetableOscillator,
        InvalidConfiguration,
    >)
        requires
            table_size <= MAX_TABLE_SIZE,
        ensures
            r is Ok <==> (table_size >= 1 && sample_rate >= 1),
            r is Ok ==> {
                let o = r->Ok_0;
                &&& o.wf()
                &&& o.size() == table_size
                &&& o.rate() == sample_rate
                &&& o.voices() == Seq::<VoiceModel>::empty()
                &&& o.table().len() == table_size
                &&& (forall|i: int|
                    0 <= i < table_size ==> #[trigger] o.table()[i] == sine_sample(
                        i,
                        table_size as int,
                    ))
            },
    {
        if table_size == 0 || sample_rate == 0 {
            return Err(InvalidConfiguration);
        }
        let wave_table = generate_wave_table(table_size);
        let o = WavetableOscillator {
            wave_table,
            table_size,
            sample_rate,
            table_deltas: Vec::new(),
            table_indexes: Vec::new(),
        };
        proof {
            assert(o.voices() =~= Seq::<VoiceModel>::empty());
            assert forall|i: int| 0 <= i < table_size implies #[trigger] o.table()[i]
                == sine_sample(i, table_size as int) by {
                assert(o.table()[i] == o.wave_table@[i] as int);
            }
        }
        Ok(o)
    }

    /// Appends a voice for `frequency` (in fixed-point units: `SCALE` units
    /// per hertz, negative values accepted and running the phase backward).
    /// The increment is `frequency * table_size / sample_rate`, fixed at this
    /// moment; the new voice's phase starts at zero.
    pub fn add_frequency(&mut self, frequency: i64)
        requires
            old(self).wf(),
            -FREQ_LIMIT <= frequency <= FREQ_LIMIT,
        ensures
            final(self).wf(),
            final(self).table() == old(self).table(),
            final(self).size() == old(self).size(),
            final(self).rate() == old(self).rate(),
            final(self).voices() == old(self).voices().push(
                (increment_for(frequency as int, old(self).size(), old(self).rate()), 0int),
            ),
    {
        let neg = frequency < 0;
        let magnitude: u64 = if neg {
            (-frequency) as u64
        } else {
            frequency as u64
        };
        proof {
            assert((magnitude as int) * (self.table_size as int) <= 0x100_0000_0000_0000int)
                by (nonlinear_arith)
                requires
                    magnitude <= 0x100_0000_0000u64,
                    self.table_size <= 65536,
            ;
        }
        let product = magnitude * (self.table_size as u64);
        proof {
            vstd::arithmetic::div_mod::lemma_div_pos_is_pos(
                product as int,
                self.sample_rate as int,
            );
            vstd::arithmetic::div_mod::lemma_div_nonincreasing(
                product as int,
                self.sample_rate as int,
            );
        }
        let increment_magnitude = product / (self.sample_rate as u64);
        let table_delta: i64 = if neg {
            -(increment_magnitude as i64)
        } else {
            increment_magnitude as i64
        };
        proof {
            if neg {
                assert(-((frequency as int) * (self.table_size as int)) == (magnitude as int) * (
                self.table_size as int)) by (nonlinear_arith)
                    requires
                        frequency < 0,
                        magnitude == -(frequency as int),
                ;
            }
            assert(table_delta as int == increment_for(
                frequency as int,
                self.size(),
                self.rate(),
            ));
        }
        let ghost before = *self;
        self.table_deltas.push(table_delta);
        self.table_indexes.push(0);
        proof {
            assert((self.table_size as int) * (SCALE as int) >= SCALE as int) by (nonlinear_arith)
                requires
                    self.table_size >= 1,
            ;
            assert(self.voices() =~= before.voices().push((table_delta as int, 0int)));
            assert(self.table() == before.table());
        }
    }

    /// Removes every voice; the oscillator falls silent. Clearing an already
    /// empty oscillator is a no-op.
    pub fn clear_frequencies(&mut self)
        requires
            old(self).wf(),
        ensures
            final(self).wf(),
            final(self).table() == old(self).table(),
            final(self).size() == old(self).size(),
            final(self).rate() == old(self).rate(),
            final(self).voices() == Seq::<VoiceModel>::empty(),
    {
        self.table_deltas.clear();
        self.table_indexes.clear();
        proof {
            assert(self.voices() =~= Seq::<VoiceModel>::empty());
        }
    }

    /// Produces one sample: the equal-weight average of every voice's
    /// interpolated table value, read at the phase the voice held on entry,
    /// and advances every phase by its increment (wrapping within the table's
    /// span). With no voices the sample is exactly zero. The result always
    /// stays within one fixed-point amplitude unit.
    pub fn get_next_sample(&mut self) -> (s: i64)
        requires
            old(self).wf(),
        ensures
            final(self).wf(),
            final(self).table() == old(self).table(),
            final(self).size() == old(self).size(),
            final(self).rate() == old(self).rate(),
            s as int == mix(old(self).table(), old(self).size(), old(self).voices()),
            final(self).voices() == step_voices(old(self).voices(), old(self).size()),
            -SCALE <= s <= SCALE,
    {
        let ghost t = old(self).table();
        let ghost size = old(self).size();
        let ghost ov = old(self).voices();
        let num_voices = self.table_deltas.len();
        if num_voices == 0 {
            proof {
                assert(step_voices(ov, size) =~= ov);
            }
            return 0;
        }
        let table_span: i64 = (self.table_size as i64) * SCALE;
        let mut sample_sum: i128 = 0;
        for index in 0..num_voices
            invariant
                old(self).wf(),
                self.wave_table@ == old(self).wave_table@,
                self.table_size == old(self).table_size,
                self.sample_rate == old(self).sample_rate,
                self.table_deltas@ == old(self).table_deltas@,
                num_voices == self.table_deltas@.len(),
                self.table_indexes@.len() == num_voices,
                t == old(self).table(),
                size == old(self).size(),
                ov == old(self).voices(),
                table_span as int == phase_span(size),
                forall|j: int|
                    index <= j < num_voices ==> #[trigger] self.table_indexes@[j] == old(
                        self,
                    ).table_indexes@[j],
                forall|j: int|
                    0 <= j < index ==> #[trigger] self.table_indexes@[j] as int == step_phase(
                        ov[j].1,
                        ov[j].0,
                        size,
                    ),
                forall|j: int|
                    0 <= j < num_voices ==> 0 <= #[trigger] self.table_indexes@[j] < phase_span(
                        size,
                    ),
                sample_sum as int == sum_of_lerps(t, size, ov.take(index as int)),
                -65536 * (index as int) <= sample_sum as int <= 65536 * (index as int),
        {
            let phase = self.table_indexes[index];
            let delta = self.table_deltas[index];
            proof {
                lemma_lerp_bounds(t, size, phase as int);
            }
            let phase_units = phase as u64;
            let current_index = (phase_units / (SCALE as u64)) as usize;
            let frac = (phase_units % (SCALE as u64)) as i64;
            let next_index = if current_index + 1 == self.table_size {
                0
            } else {
                current_index + 1
            };
            proof {
                if current_index + 1 == self.table_size {
                    vstd::arithmetic::div_mod::lemma_mod_self_0(size);
                } else {
                    vstd::arithmetic::div_mod::lemma_small_mod(
                        (current_index + 1) as nat,
                        size as nat,
                    );
                }
            }
            let current_value = self.wave_table[current_index];
            let next_value = self.wave_table[next_index];
            let interp_offset = div_trunc_i64(frac * (next_value - current_value), SCALE);
            let lerp_value = current_value + interp_offset;
            proof {
                assert(lerp_value as int == lerp(t, size, phase as int));
                assert(-65536 <= lerp_value <= 65536);
                assert(ov.take(index as int + 1).drop_last() =~= ov.take(index as int));
                assert(ov.take(index as int + 1).last() == ov[index as int]);
            }
            sample_sum = sample_sum + (lerp_value as i128);
            let advanced = phase + delta;
            let wrapped = advanced.checked_rem_euclid(table_span).unwrap();
            self.table_indexes.set(index, wrapped);
        }
        proof {
            assert(ov.take(num_voices as int) =~= ov);
        }
        let average = div_trunc_i128(sample_sum, num_voices as i128);
        proof {
            lemma_div_trunc_bound(sample_sum as int, num_voices as int, 65536);
            assert(self.voices() =~= step_voices(ov, size));
        }
        average as i64
    }

    /// Channel count of the produced stream: always one (mono).
    pub fn channels(&self) -> (c: u16)
        ensures
            c == 1,
    {
        1
    }

    /// The sample rate the oscillator was configured with.
    pub fn sample_rate(&self) -> (r: u32)
        ensures
            r as int == self.rate(),
    {
        self.sample_rate
    }

    /// The number of active voices.
    pub fn voice_count(&self) -> (n: usize)
        ensures
            n == self.voices().len(),
    {
        self.table_deltas.len()
    }

    /// Length of the current frame: none, the stream is unbounded.
    pub fn current_frame_len(&self) -> (r: Option<usize>)
        ensures
            r is None,
    {
        None
    }
}

/// Truncating signed division on machine integers, matching the model's
/// `div_trunc`.
fn div_trunc_i64(a: i64, b: i64) -> (r: i64)
    requires
        1 <= b,
        a != i64::MIN,
    ensures
        r as int == div_trunc(a as int, b as int),
{
    if a >= 0 {
        proof {
            vstd::arithmetic::div_mod::lemma_div_pos_is_pos(a as int, b as int);
            vstd::arithmetic::div_mod::lemma_div_nonincreasing(a as int, b as int);
        }
        ((a as u64) / (b as u64)) as i64
    } else {
        proof {
            vstd::arithmetic::div_mod::lemma_div_pos_is_pos(-(a as int), b as int);
            vstd::arithmetic::div_mod::lemma_div_nonincreasing(-(a as int), b as int);
        }
        let magnitude = ((-a) as u64) / (b as u64);
        -(magnitude as i64)
    }
}

/// Truncating signed division on wide machine integers, matching the model's
/// `div_trunc`.
fn div_trunc_i128(a: i128, b: i128) -> (r: i128)
    requires
        1 <= b,
        a != i128::MIN,
    ensures
        r as int == div_trunc(a as int, b as int),
{
    if a >= 0 {
        proof {
            vstd::arithmetic::div_mod::lemma_div_pos_is_pos(a as int, b as int);
            vstd::arithmetic::div_mod::lemma_div_nonincreasing(a as int, b as int);
        }
        ((a as u128) / (b as u128)) as i128
    } else {
        proof {
            vstd::arithmetic::div_mod::lemma_div_pos_is_pos(-(a as int), b as int);
            vstd::arithmetic::div_mod::lemma_div_nonincreasing(-(a as int), b as int);
        }
        let magnitude = ((-a) as u128) / (b as u128);
        -(magnitude as i128)
    }
}

} // verus!
