//! One tick of the presentation loop.
//!
//! The loop owns the pixel buffer, the tone buffer and the sink state, and
//! runs the fixed tick order: plan the audio span from the play cursor,
//! regenerate video and audio from the same tick's state, then write the
//! fresh samples into the device buffer. The platform collaborator supplies
//! the play cursor and whether the device granted the lock, and blits the
//! updated pixel buffer afterwards.

use vstd::prelude::*;

verus! {

use crate::display::{DisplayBuffer, resize_memory_spec, step_spec};
use crate::sink::{
    fill_device_spec,
    fill_output_spec,
    SoundOutput,
    spec_byte_to_lock,
    spec_bytes_to_write,
};
use crate::sound::{render_spec, SoundBuffer, SoundView};
use vstd::arithmetic::div_mod::lemma_div_is_ordered;

/// Regenerate one tick's video frame and audio clip, in that fixed pairing:
/// the tone buffer renders its current pair budget at `tone_hz`, and the
/// pixel pattern advances by one step.
pub fn update_and_render(
    display_buffer: &mut DisplayBuffer,
    sound_buffer: &mut SoundBuffer,
    tone_hz: u16,
)
    requires
        old(display_buffer).wf(),
        old(sound_buffer).wf(),
        1 <= tone_hz,
    ensures
        final(display_buffer).wf(),
        final(sound_buffer).wf(),
        final(display_buffer)@ == step_spec(old(display_buffer)@, 1),
        final(sound_buffer)@ == render_spec(old(sound_buffer)@, tone_hz as int),
{
    sound_buffer.render_sound(tone_hz);
    display_buffer.step_render(1);
}

/// The tone frequency after a requested change of `delta`: saturated to the
/// representable range and never allowed to reach zero, so the wave-period
/// arithmetic stays well defined.
pub open spec fn clamp_tone(t: int) -> int {
    if t < 1 {
        1
    } else if t > 0xFFFF {
        0xFFFF
    } else {
        t
    }
}

/// The owner and only mutator of the three components, driven once per tick
/// by the platform cadence.
pub struct PresentationLoop {
    pub display: DisplayBuffer,
    pub sound: SoundBuffer,
    pub output: SoundOutput,
    pub tone_hz: u16,
}

impl PresentationLoop {
    /// Every component is well formed, the generator and the sink agree on
    /// the sample rate, the tone frequency is strictly positive, and the tone
    /// buffer has room for the largest span a plan can ever request.
    pub open spec fn wf(self) -> bool {
        &&& self.display.wf()
        &&& self.sound.wf()
        &&& self.output.wf()
        &&& 1 <= self.tone_hz
        &&& self.sound.sample_rate == self.output.sample_rate
        &&& 2 * (self.output.buffer_size as int / 4) <= self.sound.samples@.len()
    }

    /// Run one tick against the device buffer image.
    ///
    /// In unchangeable order: plan the write span from the play cursor,
    /// derive the pair budget, regenerate video and audio from this tick's
    /// state, and copy the new samples into the span — so the frame handed
    /// out and the samples written are snapshots of the same tick. When the
    /// device refused the lock, the write alone is skipped, counters
    /// untouched.
    pub fn tick(&mut self, device: &mut Vec<u8>, play_cursor: u32, lock_granted: bool)
        requires
            old(self).wf(),
            old(device)@.len() == old(self).output.buffer_size,
            play_cursor < old(self).output.buffer_size,
        ensures
            final(self).wf(),
            final(device)@.len() == old(device)@.len(),
            final(self).tone_hz == old(self).tone_hz,
            final(self).display@ == step_spec(old(self).display@, 1),
            final(self).sound@ == render_spec(
                SoundView {
                    sample_count: spec_bytes_to_write(old(self).output@, play_cursor as int) / 4,
                    ..old(self).sound@
                },
                old(self).tone_hz as int,
            ),
            final(self).output@ == if lock_granted {
                fill_output_spec(
                    old(self).output@,
                    spec_byte_to_lock(old(self).output@),
                    spec_bytes_to_write(old(self).output@, play_cursor as int),
                )
            } else {
                old(self).output@
            },
            final(device)@ == if lock_granted {
                fill_device_spec(
                    old(device)@,
                    final(self).sound@.samples,
                    spec_byte_to_lock(old(self).output@),
                    spec_bytes_to_write(old(self).output@, play_cursor as int),
                )
            } else {
                old(device)@
            },
    {
        let (byte_to_lock, bytes_to_write) = self.output.plan(play_cursor);
        let sample_count: usize = (bytes_to_write / 4) as usize;
        proof {
            lemma_div_is_ordered(bytes_to_write as int, old(self).output@.buffer_size, 4);
        }
        self.sound.sample_count = sample_count;
        update_and_render(&mut self.display, &mut self.sound, self.tone_hz);
        self.output.fill_buffer(device, &self.sound, byte_to_lock, bytes_to_write, lock_granted);
    }

    /// Re-derive the pixel geometry after the output surface changed. The
    /// scrolling offset and the audio state are untouched.
    pub fn on_resize(&mut self, new_width: i32, new_height: i32)
        requires
            old(self).wf(),
            0 < new_width,
            0 < new_height,
            new_width * new_height <= usize::MAX,
        ensures
            final(self).wf(),
            final(self).display.width == new_width,
            final(self).display.height == new_height,
            final(self).display.current_offset == old(self).display.current_offset,
            final(self).display@.memory == resize_memory_spec(
                old(self).display@.memory,
                new_width * new_height,
            ),
            final(self).sound@ == old(self).sound@,
            final(self).output@ == old(self).output@,
            final(self).tone_hz == old(self).tone_hz,
    {
        self.display.resize(new_width, new_height);
    }

    /// Adjust the active tone frequency by `delta_hz`, saturating at the
    /// representable bounds and never reaching zero or below. Takes effect at
    /// the next tick's render; the phase itself never moves here, so the tone
    /// stays continuous across the change.
    pub fn on_tone_change(&mut self, delta_hz: i32)
        requires
            old(self).wf(),
        ensures
            final(self).wf(),
            final(self).tone_hz as int == clamp_tone(old(self).tone_hz as int + delta_hz as int),
            final(self).display@ == old(self).display@,
            final(self).sound@ == old(self).sound@,
            final(self).output@ == old(self).output@,
    {
        let t: i64 = self.tone_hz as i64 + delta_hz as i64;
        let new_hz: u16 = if t < 1 {
            1
        } else if t > 0xFFFF {
            0xFFFF
        } else {
            t as u16
        };
        self.tone_hz = new_hz;
    }
}

} // verus!
