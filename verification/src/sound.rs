//! The interleaved stereo tone buffer and its oscillator state.
//!
//! The oscillator phase is kept exactly, as a tick count in units of
//! `2*pi / sample_rate` radians: one rendered pair advances the phase by
//! `tone_hz` ticks, and the waveform repeats after `sample_rate` ticks, so
//! the count is reduced modulo `sample_rate`. The waveform itself (one full
//! cycle, amplitude already applied) is a wavetable of `sample_rate` entries
//! that the platform layer computes once; this component only walks it.

use vstd::prelude::*;

verus! {

use vstd::arithmetic::div_mod::{lemma_add_mod_noop, lemma_add_mod_noop_right, lemma_small_mod};
use vstd::arithmetic::mul::lemma_mul_is_distributive_add_other_way;

/// Mathematical image of a `SoundBuffer`.
#[verifier::ext_equal]
pub struct SoundView {
    pub samples: Seq<i16>,
    pub sample_count: int,
    pub phase: int,
    pub sample_rate: int,
    pub wavetable: Seq<i16>,
}

/// An owned sequence of interleaved stereo sample pairs (left == right),
/// the number of pairs valid for the current tick, and the oscillator state.
pub struct SoundBuffer {
    pub samples: Vec<i16>,
    pub sample_count: usize,
    pub phase: u32,
    pub sample_rate: u16,
    pub wavetable: Vec<i16>,
}

impl View for SoundBuffer {
    type V = SoundView;

    open spec fn view(&self) -> SoundView {
        SoundView {
            samples: self.samples@,
            sample_count: self.sample_count as int,
            phase: self.phase as int,
            sample_rate: self.sample_rate as int,
            wavetable: self.wavetable@,
        }
    }
}

/// The wavetable position read for pair `k` of a render that starts at
/// `phase0` ticks and advances `hz` ticks per pair.
pub open spec fn tone_index(phase0: int, hz: int, rate: int, k: int) -> int {
    (phase0 + k * hz) % rate
}

/// The interleaved samples (2 per pair, left == right) of a render of `n`
/// pairs from phase `phase0`.
pub open spec fn rendered_pairs(
    wavetable: Seq<i16>,
    phase0: int,
    hz: int,
    rate: int,
    n: int,
) -> Seq<i16> {
    Seq::new((2 * n) as nat, |j: int| wavetable[tone_index(phase0, hz, rate, j / 2)])
}

/// One render: the first `2 * sample_count` slots are regenerated from the
/// oscillator, the rest keep their values, and the phase moves on by
/// `sample_count * hz` ticks. The phase is never reset, which keeps the tone
/// continuous across ticks even when `hz` changes between calls.
pub open spec fn render_spec(s: SoundView, hz: int) -> SoundView {
    SoundView {
        samples: rendered_pairs(s.wavetable, s.phase, hz, s.sample_rate, s.sample_count)
            + s.samples.skip(2 * s.sample_count),
        phase: (s.phase + s.sample_count * hz) % s.sample_rate,
        ..s
    }
}

impl SoundBuffer {
    /// The phase is reduced, the wavetable covers one full cycle, and the
    /// sample sequence has room for `sample_count` pairs.
    pub open spec fn wf(self) -> bool {
        &&& 0 < self.sample_rate
        &&& self.phase < self.sample_rate
        &&& self.wavetable@.len() == self.sample_rate
        &&& 2 * self.sample_count <= self.samples@.len()
    }

    /// Regenerate the first `sample_count` stereo pairs at `tone_hz`.
    ///
    /// Each pair holds the wavetable entry at the current phase, duplicated
    /// into the left and right slot, after which the phase advances by
    /// `tone_hz` ticks. A zero frequency must be clamped at the boundary; it
    /// never reaches this component.
    pub fn render_sound(&mut self, tone_hz: u16)
        requires
            old(self).wf(),
            1 <= tone_hz,
        ensures
            final(self).wf(),
            final(self)@ == render_spec(old(self)@, tone_hz as int),
    {
        let n: usize = self.sample_count;
        let len: usize = self.samples.len();
        let rate: u32 = self.sample_rate as u32;
        let ghost p0 = old(self)@.phase;
        let ghost hz = tone_hz as int;
        let ghost ratei = old(self)@.sample_rate;
        proof {
            lemma_small_mod(p0 as nat, ratei as nat);
        }
        let mut k: usize = 0;
        while k < n
            invariant
                old(self).wf(),
                k <= n,
                n == old(self).sample_count,
                1 <= tone_hz,
                hz == tone_hz as int,
                p0 == old(self)@.phase,
                ratei == old(self)@.sample_rate,
                rate == ratei,
                self.sample_count == old(self).sample_count,
                self.sample_rate == old(self).sample_rate,
                self.wavetable@ == old(self)@.wavetable,
                self.samples@.len() == old(self)@.samples.len(),
                len == self.samples@.len(),
                self.phase < rate,
                self.phase as int == tone_index(p0, hz, ratei, k as int),
                self.samples@ == rendered_pairs(old(self)@.wavetable, p0, hz, ratei, k as int)
                    + old(self)@.samples.skip(2 * k as int),
            decreases n - k,
        {
            let sample_value: i16 = self.wavetable[self.phase as usize];
            let ghost before = self.samples@;
            self.samples.set(2 * k, sample_value);
            self.samples.set(2 * k + 1, sample_value);
            proof {
                let ki = k as int;
                assert(self.samples@ =~= rendered_pairs(
                    old(self)@.wavetable,
                    p0,
                    hz,
                    ratei,
                    ki + 1,
                ) + old(self)@.samples.skip(2 * (ki + 1)));
                // the phase of the next pair
                lemma_add_mod_noop_right((p0 + ki * hz) % ratei, hz, ratei);
                lemma_add_mod_noop(p0 + ki * hz, hz, ratei);
                lemma_mul_is_distributive_add_other_way(hz, ki, 1);
                assert((tone_index(p0, hz, ratei, ki) + hz) % ratei == tone_index(
                    p0,
                    hz,
                    ratei,
                    ki + 1,
                ));
            }
            self.phase = (self.phase + tone_hz as u32) % rate;
            k += 1;
        }
        proof {
            assert(self@ =~= render_spec(old(self)@, tone_hz as int));
        }
    }
}

/// Phase continuity. Rendering `n1` pairs from phase `phase0` and then `n2`
/// pairs from the phase the first render left behind yields, pair for pair,
/// the samples of one render of `n1 + n2` pairs from `phase0`: changing the
/// requested pair budget between ticks never bends or restarts the waveform.
pub proof fn lemma_render_phase_continuity(
    wavetable: Seq<i16>,
    phase0: int,
    hz: int,
    rate: int,
    n1: int,
    n2: int,
)
    requires
        0 < rate,
        0 <= n1,
        0 <= n2,
    ensures
        rendered_pairs(wavetable, phase0, hz, rate, n1) + rendered_pairs(
            wavetable,
            (phase0 + n1 * hz) % rate,
            hz,
            rate,
            n2,
        ) == rendered_pairs(wavetable, phase0, hz, rate, n1 + n2),
{
    let first = rendered_pairs(wavetable, phase0, hz, rate, n1);
    let phase1 = (phase0 + n1 * hz) % rate;
    let second = rendered_pairs(wavetable, phase1, hz, rate, n2);
    let whole = rendered_pairs(wavetable, phase0, hz, rate, n1 + n2);
    assert forall|j: int| 0 <= j < 2 * (n1 + n2) implies (first + second)[j] == whole[j] by {
        if j < 2 * n1 {
            assert((first + second)[j] == first[j]);
        } else {
            let k = j / 2 - n1;
            assert((j - 2 * n1) / 2 == k);
            assert((first + second)[j] == wavetable[tone_index(phase1, hz, rate, k)]);
            lemma_add_mod_noop_right((phase0 + n1 * hz) % rate, k * hz, rate);
            lemma_add_mod_noop(phase0 + n1 * hz, k * hz, rate);
            lemma_mul_is_distributive_add_other_way(hz, n1, k);
            assert(tone_index(phase1, hz, rate, k) == tone_index(phase0, hz, rate, n1 + k));
            assert(n1 + k == j / 2);
        }
    }
    assert(first + second =~= whole);
}

} // verus!
