use handmade_core::sound::SoundBuffer;

/// A wavetable whose entry at tick `t` is `t` itself, so a rendered sample
/// directly reveals which phase it was read at.
fn identity_table(rate: u16) -> Vec<i16> {
    (0..rate as i16).collect()
}

fn buffer_with(rate: u16, phase: u32, sample_count: usize, capacity_pairs: usize) -> SoundBuffer {
    SoundBuffer {
        samples: vec![-999; 2 * capacity_pairs],
        sample_count,
        phase,
        sample_rate: rate,
        wavetable: identity_table(rate),
    }
}

#[test]
fn render_walks_wavetable_and_duplicates_channels() {
    let mut tone = buffer_with(8, 0, 3, 8);
    tone.render_sound(5);
    // pair k reads the wavetable at (0 + k * 5) mod 8
    assert_eq!(&tone.samples[0..6], &[0, 0, 5, 5, 2, 2]);
    // the rest of the buffer is untouched
    for i in 6..16 {
        assert_eq!(tone.samples[i], -999);
    }
    // phase moved on by 3 * 5 ticks, reduced mod 8
    assert_eq!(tone.phase, 7);
    assert_eq!(tone.sample_count, 3);
}

#[test]
fn render_starts_at_current_phase() {
    let mut tone = buffer_with(8, 6, 2, 8);
    tone.render_sound(3);
    // (6 + 0) mod 8 = 6, (6 + 3) mod 8 = 1
    assert_eq!(&tone.samples[0..4], &[6, 6, 1, 1]);
    assert_eq!(tone.phase, (6 + 2 * 3) % 8);
}

#[test]
fn render_phase_continuity_across_two_calls() {
    // two renders back to back produce the pairs of one long render
    let mut split = buffer_with(1000, 123, 3, 8);
    split.render_sound(512);
    let mut first = split.samples[0..6].to_vec();
    split.sample_count = 2;
    split.render_sound(512);
    first.extend_from_slice(&split.samples[0..4]);

    let mut whole = buffer_with(1000, 123, 5, 8);
    whole.render_sound(512);
    assert_eq!(&first[..], &whole.samples[0..10]);
    assert_eq!(split.phase, whole.phase);
}

#[test]
fn render_continuity_survives_a_tone_change() {
    // the phase is never reset, so a new frequency bends the walk onward
    // from the phase already reached
    let mut tone = buffer_with(100, 0, 4, 8);
    tone.render_sound(30);
    assert_eq!(&tone.samples[0..8], &[0, 0, 30, 30, 60, 60, 90, 90]);
    assert_eq!(tone.phase, 20);
    tone.sample_count = 2;
    tone.render_sound(7);
    assert_eq!(&tone.samples[0..4], &[20, 20, 27, 27]);
    assert_eq!(tone.phase, 34);
}

#[test]
fn render_sine_wavetable_matches_direct_computation() {
    // the platform builds the real wavetable: one amplitude-scaled sine
    // cycle across the sample rate
    let rate: u16 = 48000;
    let volume: f32 = 4000.0;
    let wavetable: Vec<i16> = (0..rate as u32)
        .map(|t| ((2.0 * std::f32::consts::PI * t as f32 / rate as f32).sin() * volume) as i16)
        .collect();
    let mut tone = SoundBuffer {
        samples: vec![0; 16],
        sample_count: 4,
        phase: 0,
        sample_rate: rate,
        wavetable,
    };
    tone.render_sound(512);
    for k in 0..4usize {
        let t = (512 * k as u32) % 48000;
        let expected =
            ((2.0 * std::f32::consts::PI * t as f32 / 48000.0).sin() * 4000.0) as i16;
        assert_eq!(tone.samples[2 * k], expected, "pair {}", k);
        assert_eq!(tone.samples[2 * k + 1], expected, "pair {}", k);
    }
    // sin(0) scaled is silence for the very first sample
    assert_eq!(tone.samples[0], 0);
}
