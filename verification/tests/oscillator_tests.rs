use wavetable::oscillator::{InvalidConfiguration, WavetableOscillator};
use wavetable::table::generate_wave_table;
use wavetable::SCALE;

fn pull(oscillator: &mut WavetableOscillator, count: usize) -> Vec<i64> {
    let mut samples = Vec::new();
    for _ in 0..count {
        samples.push(oscillator.get_next_sample());
    }
    samples
}

#[test]
fn table_has_requested_length_and_bounds() {
    for table_size in [1usize, 2, 3, 4, 5, 7, 8, 64, 100, 1024] {
        let table = generate_wave_table(table_size);
        assert_eq!(table.len(), table_size);
        assert_eq!(table[0], 0);
        for value in &table {
            assert!(-SCALE <= *value && *value <= SCALE);
        }
    }
}

#[test]
fn table_of_four_matches_quarter_points() {
    let table = generate_wave_table(4);
    assert_eq!(table, vec![0, SCALE, 0, -SCALE]);
}

#[test]
fn table_of_eight_matches_formula() {
    // Entry 1 of an eight-entry table: Bhaskara's approximation of sin(pi/4),
    // 16 * 2 * 6 * 65536 / (5 * 64 - 4 * 12) = 12582912 / 272, truncated.
    let table = generate_wave_table(8);
    assert_eq!(table[1], 46260);
    assert_eq!(table[2], SCALE);
    assert_eq!(table[3], 46260);
    assert_eq!(table[4], 0);
    assert_eq!(table[5], -46260);
    assert_eq!(table[6], -SCALE);
    assert_eq!(table[7], -46260);
}

#[test]
fn table_approximates_true_sine() {
    let table_size = 1024usize;
    let table = generate_wave_table(table_size);
    for (i, value) in table.iter().enumerate() {
        let angle = 2.0 * std::f64::consts::PI * (i as f64) / (table_size as f64);
        let expected = angle.sin() * (SCALE as f64);
        assert!(
            ((*value as f64) - expected).abs() < 120.0,
            "entry {} is {} but the sine value is {}",
            i,
            value,
            expected
        );
    }
}

#[test]
fn silence_with_zero_voices() {
    let mut oscillator = WavetableOscillator::new(64, 44100).unwrap();
    assert_eq!(oscillator.voice_count(), 0);
    for sample in pull(&mut oscillator, 100) {
        assert_eq!(sample, 0);
    }
}

#[test]
fn zero_frequency_voice_repeats_first_entry() {
    let table = generate_wave_table(16);
    let mut oscillator = WavetableOscillator::new(16, 8).unwrap();
    oscillator.add_frequency(0);
    assert_eq!(oscillator.voice_count(), 1);
    for sample in pull(&mut oscillator, 50) {
        assert_eq!(sample, table[0]);
    }
}

#[test]
fn full_span_increment_wraps_to_start() {
    // Increment = 4 * SCALE * 8 / 4 = 8 * SCALE: one whole table per sample,
    // so the phase wraps back to exactly zero on every step.
    let table = generate_wave_table(8);
    let mut oscillator = WavetableOscillator::new(8, 4).unwrap();
    oscillator.add_frequency(4 * SCALE);
    for sample in pull(&mut oscillator, 50) {
        assert_eq!(sample, table[0]);
    }
}

#[test]
fn clear_on_empty_is_noop() {
    let mut oscillator = WavetableOscillator::new(32, 8).unwrap();
    assert_eq!(oscillator.voice_count(), 0);
    oscillator.clear_frequencies();
    assert_eq!(oscillator.voice_count(), 0);
    assert_eq!(oscillator.get_next_sample(), 0);
}

#[test]
fn clear_silences_active_voices() {
    let mut oscillator = WavetableOscillator::new(32, 8).unwrap();
    oscillator.add_frequency(SCALE);
    oscillator.add_frequency(2 * SCALE);
    assert_eq!(oscillator.voice_count(), 2);
    oscillator.clear_frequencies();
    assert_eq!(oscillator.voice_count(), 0);
    for sample in pull(&mut oscillator, 20) {
        assert_eq!(sample, 0);
    }
}

#[test]
fn duplicate_voice_equals_single_voice() {
    let mut single = WavetableOscillator::new(64, 48000).unwrap();
    single.add_frequency(440 * SCALE);
    let mut double = WavetableOscillator::new(64, 48000).unwrap();
    double.add_frequency(440 * SCALE);
    double.add_frequency(440 * SCALE);
    assert_eq!(pull(&mut single, 200), pull(&mut double, 200));
}

#[test]
fn halfway_phase_yields_arithmetic_mean() {
    // Increment = SCALE * 4 / 8: half a table step per sample, so every other
    // sample lands exactly halfway between two adjacent entries of
    // [0, SCALE, 0, -SCALE] and must equal their arithmetic mean.
    let mut oscillator = WavetableOscillator::new(4, 8).unwrap();
    oscillator.add_frequency(SCALE);
    let samples = pull(&mut oscillator, 9);
    assert_eq!(
        samples,
        vec![0, SCALE / 2, SCALE, SCALE / 2, 0, -SCALE / 2, -SCALE, -SCALE / 2, 0]
    );
}

#[test]
fn identical_configurations_produce_identical_output() {
    let mut first = WavetableOscillator::new(128, 44100).unwrap();
    first.add_frequency(440 * SCALE);
    first.add_frequency(660 * SCALE);
    let mut second = WavetableOscillator::new(128, 44100).unwrap();
    second.add_frequency(440 * SCALE);
    second.add_frequency(660 * SCALE);
    assert_eq!(pull(&mut first, 300), pull(&mut second, 300));
}

#[test]
fn zero_table_size_is_rejected() {
    let result = WavetableOscillator::new(0, 44100);
    assert!(matches!(result, Err(InvalidConfiguration)));
}

#[test]
fn zero_sample_rate_is_rejected() {
    let result = WavetableOscillator::new(64, 0);
    assert!(matches!(result, Err(InvalidConfiguration)));
}

#[test]
fn negative_frequency_runs_phase_backward() {
    // Increment = -SCALE * 4 / 4 = -SCALE: one table step backward per sample,
    // wrapping into [0, span) from below, so the table is read in reverse.
    let mut oscillator = WavetableOscillator::new(4, 4).unwrap();
    oscillator.add_frequency(-SCALE);
    let samples = pull(&mut oscillator, 8);
    assert_eq!(samples, vec![0, -SCALE, 0, SCALE, 0, -SCALE, 0, SCALE]);
}

#[test]
fn mixing_two_distinct_voices_averages() {
    // Voice one holds table[0] = 0 forever; voice two walks one step per
    // sample through [0, SCALE, 0, -SCALE]; the mix is the truncating average.
    let mut oscillator = WavetableOscillator::new(4, 4).unwrap();
    oscillator.add_frequency(0);
    oscillator.add_frequency(SCALE);
    let samples = pull(&mut oscillator, 8);
    assert_eq!(
        samples,
        vec![0, SCALE / 2, 0, -SCALE / 2, 0, SCALE / 2, 0, -SCALE / 2]
    );
}

#[test]
fn descriptor_metadata_is_fixed() {
    let oscillator = WavetableOscillator::new(64, 44100).unwrap();
    assert_eq!(oscillator.channels(), 1);
    assert_eq!(oscillator.sample_rate(), 44100);
    assert_eq!(oscillator.current_frame_len(), None);
}
