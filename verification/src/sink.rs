//! The hardware-style circular audio byte buffer.
//!
//! The sink never owns the device memory; it computes which byte span is safe
//! to fill, honouring wraparound, and copies rendered sample pairs into a
//! byte-addressable image of the device buffer. A requested span may cover up
//! to two physical regions: region 1 starts at the locked byte, and, when the
//! span wraps past the end of the buffer, region 2 starts at byte 0.

use vstd::prelude::*;

verus! {

use crate::sound::SoundBuffer;
use vstd::arithmetic::div_mod::{
    lemma_div_by_multiple,
    lemma_div_is_ordered,
    lemma_fundamental_div_mod,
    lemma_mod_division_less_than_divisor,
};

/// Mathematical image of a `SoundOutput`.
#[verifier::ext_equal]
pub struct OutputView {
    pub buffer_size: int,
    pub running_sample_index: int,
    pub latency_sample_count: int,
    pub sample_rate: int,
    pub bytes_per_sample: int,
}

/// Write-side state of the circular device buffer: its fixed byte size, the
/// running count of sample pairs produced so far (kept reduced modulo the
/// pair capacity, since only its byte offset in the buffer is ever read), and
/// the configured look-ahead in sample pairs.
pub struct SoundOutput {
    pub buffer_size: u32,
    pub running_sample_index: u32,
    pub latency_sample_count: u32,
    pub sample_rate: u16,
    pub bytes_per_sample: u16,
}

impl View for SoundOutput {
    type V = OutputView;

    open spec fn view(&self) -> OutputView {
        OutputView {
            buffer_size: self.buffer_size as int,
            running_sample_index: self.running_sample_index as int,
            latency_sample_count: self.latency_sample_count as int,
            sample_rate: self.sample_rate as int,
            bytes_per_sample: self.bytes_per_sample as int,
        }
    }
}

/// The byte at which the next write span starts: the running pair count times
/// four bytes per pair, wrapped into the buffer.
pub open spec fn spec_byte_to_lock(o: OutputView) -> int {
    (o.running_sample_index * o.bytes_per_sample) % o.buffer_size
}

/// The byte the write span must reach: the look-ahead window ahead of the
/// play cursor, wrapped into the buffer.
pub open spec fn spec_target_cursor(o: OutputView, play_cursor: int) -> int {
    (play_cursor + o.latency_sample_count * o.bytes_per_sample) % o.buffer_size
}

/// The length of the logical span from the lock byte forward (wrapping) to
/// the target cursor.
pub open spec fn spec_bytes_to_write(o: OutputView, play_cursor: int) -> int {
    let lock = spec_byte_to_lock(o);
    let target = spec_target_cursor(o, play_cursor);
    if lock > target {
        o.buffer_size - lock + target
    } else {
        target - lock
    }
}

/// The low byte of a 16-bit sample, as it lands in the byte buffer.
pub open spec fn sample_lo(s: i16) -> u8 {
    (((s as u16) % 256) as u8)
}

/// The high byte of a 16-bit sample.
pub open spec fn sample_hi(s: i16) -> u8 {
    (((s as u16) / 256) as u8)
}

/// The byte image of `npairs` consecutive stereo pairs of `samples`, starting
/// at pair `first_pair`: each pair contributes four bytes, the 16-bit value
/// low byte first, left slot then right slot.
pub open spec fn pair_bytes(samples: Seq<i16>, first_pair: int, npairs: int) -> Seq<u8> {
    Seq::new(
        (4 * npairs) as nat,
        |b: int|
            {
                let s = samples[2 * (first_pair + b / 4) + (b % 4) / 2];
                if b % 2 == 0 {
                    sample_lo(s)
                } else {
                    sample_hi(s)
                }
            },
    )
}

/// `base` with `patch` written over it starting at byte `at`.
pub open spec fn overlay(base: Seq<u8>, at: int, patch: Seq<u8>) -> Seq<u8> {
    Seq::new(
        base.len(),
        |i: int|
            if at <= i < at + patch.len() {
                patch[i - at]
            } else {
                base[i]
            },
    )
}

/// Bytes of region 1, the part of the span that fits before the buffer end.
pub open spec fn spec_region_1_size(byte_to_lock: int, bytes_to_write: int, size: int) -> int {
    if byte_to_lock + bytes_to_write > size {
        size - byte_to_lock
    } else {
        bytes_to_write
    }
}

/// Bytes of region 2, the wrapped remainder of the span at the buffer start.
pub open spec fn spec_region_2_size(byte_to_lock: int, bytes_to_write: int, size: int) -> int {
    bytes_to_write - spec_region_1_size(byte_to_lock, bytes_to_write, size)
}

/// The device bytes after one write: whole pairs are copied region by region,
/// the source index running on across the region boundary, and any byte of a
/// region beyond its last whole pair keeps its old value.
pub open spec fn fill_device_spec(
    device: Seq<u8>,
    samples: Seq<i16>,
    byte_to_lock: int,
    bytes_to_write: int,
) -> Seq<u8> {
    let size = device.len() as int;
    let r1 = spec_region_1_size(byte_to_lock, bytes_to_write, size);
    let r2 = bytes_to_write - r1;
    overlay(
        overlay(device, byte_to_lock, pair_bytes(samples, 0, r1 / 4)),
        0,
        pair_bytes(samples, r1 / 4, r2 / 4),
    )
}

/// How many whole pairs one write copies.
pub open spec fn spec_pairs_written(byte_to_lock: int, bytes_to_write: int, size: int) -> int {
    let r1 = spec_region_1_size(byte_to_lock, bytes_to_write, size);
    r1 / 4 + (bytes_to_write - r1) / 4
}

/// The sink state after one write: only the running pair count moves, by the
/// number of pairs copied, reduced modulo the buffer's pair capacity.
pub open spec fn fill_output_spec(o: OutputView, byte_to_lock: int, bytes_to_write: int) -> OutputView {
    OutputView {
        running_sample_index: (o.running_sample_index + spec_pairs_written(
            byte_to_lock,
            bytes_to_write,
            o.buffer_size,
        )) % (o.buffer_size / 4),
        ..o
    }
}

impl SoundOutput {
    /// The buffer holds a positive whole number of 4-byte stereo pairs, the
    /// running index is reduced modulo the pair capacity, and the look-ahead
    /// window leaves the target-cursor arithmetic free of overflow.
    pub open spec fn wf(self) -> bool {
        &&& 0 < self.buffer_size
        &&& self.bytes_per_sample == 4
        &&& self.buffer_size % 4 == 0
        &&& self.running_sample_index * 4 < self.buffer_size
        &&& self.buffer_size + 4 * self.latency_sample_count <= u32::MAX
    }

    /// Plan the write for one tick: from the hardware play cursor, compute
    /// the byte to lock and how many bytes to write so that the written data
    /// always leads the play cursor by the configured look-ahead window.
    /// The span never covers the whole buffer, and wraps when the lock byte
    /// lies beyond the target cursor.
    pub fn plan(&self, play_cursor: u32) -> (span: (u32, u32))
        requires
            self.wf(),
            play_cursor < self.buffer_size,
        ensures
            span.0 as int == spec_byte_to_lock(self@),
            span.1 as int == spec_bytes_to_write(self@, play_cursor as int),
            span.0 < self.buffer_size,
            span.1 < self.buffer_size,
    {
        let byte_to_lock: u32 = (self.running_sample_index * (self.bytes_per_sample as u32))
            % self.buffer_size;
        let target_cursor: u32 = (play_cursor + self.latency_sample_count * (self.bytes_per_sample
            as u32)) % self.buffer_size;
        proof {
            lemma_mod_division_less_than_divisor(
                self@.running_sample_index * self@.bytes_per_sample,
                self@.buffer_size,
            );
            lemma_mod_division_less_than_divisor(
                play_cursor as int + self@.latency_sample_count * self@.bytes_per_sample,
                self@.buffer_size,
            );
        }
        let bytes_to_write: u32 = if byte_to_lock > target_cursor {
            self.buffer_size - byte_to_lock + target_cursor
        } else {
            target_cursor - byte_to_lock
        };
        (byte_to_lock, bytes_to_write)
    }

    /// Fill the whole device buffer with silence (zero bytes), used once
    /// before playback starts so no garbage plays before the first frame.
    /// Afterwards every byte reads zero, whatever the buffer held before.
    pub fn clear_buffer(&self, destination: &mut Vec<u8>)
        requires
            old(destination)@.len() == self.buffer_size,
        ensures
            final(destination)@.len() == old(destination)@.len(),
            forall|i: int| 0 <= i < final(destination)@.len() ==> final(destination)@[i] == 0u8,
    {
        let size: usize = destination.len();
        let mut i: usize = 0;
        while i < size
            invariant
                i <= size,
                size == destination@.len(),
                forall|j: int| 0 <= j < i ==> destination@[j] == 0u8,
            decreases size - i,
        {
            destination.set(i, 0);
            i += 1;
        }
    }

    /// Copy the freshly rendered pairs of `source` into the locked span of
    /// the device buffer, region by region, the source index running on
    /// across the region boundary, then advance the running pair count by
    /// the number of pairs written.
    ///
    /// When the device reports that the lock cannot be granted this tick
    /// (`lock_granted` false, a transient contention), the write is skipped
    /// whole: no byte and no counter changes, and no error surfaces, since
    /// the next tick's plan re-requests an adjusted span.
    pub fn fill_buffer(
        &mut self,
        destination: &mut Vec<u8>,
        source: &SoundBuffer,
        byte_to_lock: u32,
        bytes_to_write: u32,
        lock_granted: bool,
    )
        requires
            old(self).wf(),
            old(destination)@.len() == old(self).buffer_size,
            byte_to_lock < old(self).buffer_size,
            bytes_to_write <= old(self).buffer_size,
            source.wf(),
            bytes_to_write / 4 <= source.sample_count,
        ensures
            final(self).wf(),
            final(destination)@.len() == old(destination)@.len(),
            lock_granted ==> final(self)@ == fill_output_spec(
                old(self)@,
                byte_to_lock as int,
                bytes_to_write as int,
            ),
            lock_granted ==> final(destination)@ == fill_device_spec(
                old(destination)@,
                source@.samples,
                byte_to_lock as int,
                bytes_to_write as int,
            ),
            !lock_granted ==> final(self)@ == old(self)@ && final(destination)@ == old(
                destination,
            )@,
    {
        if !lock_granted {
            return;
        }
        let (region_1_size, region_2_size) = split_span(
            byte_to_lock,
            bytes_to_write,
            self.buffer_size,
        );
        let pairs_1: usize = (region_1_size / 4) as usize;
        let pairs_2: usize = (region_2_size / 4) as usize;
        let lock: usize = byte_to_lock as usize;
        let device_len: usize = destination.len();
        let samples_len: usize = source.samples.len();
        let ghost dev0 = old(destination)@;
        let ghost samples = source@.samples;
        proof {
            lemma_pairs_fit(region_1_size as int, region_2_size as int, bytes_to_write as int);
            lemma_div_is_ordered(bytes_to_write as int, old(self)@.buffer_size, 4);
            lemma_fundamental_div_mod(region_1_size as int, 4);
            lemma_fundamental_div_mod(region_2_size as int, 4);
            lemma_mod_division_less_than_divisor(region_1_size as int, 4);
            lemma_mod_division_less_than_divisor(region_2_size as int, 4);
            assert(destination@ =~= overlay(dev0, lock as int, pair_bytes(samples, 0, 0)));
        }
        let mut j: usize = 0;
        while j < pairs_1
            invariant
                j <= pairs_1,
                source.wf(),
                samples == source@.samples,
                lock + 4 * pairs_1 <= dev0.len(),
                2 * (pairs_1 + pairs_2) <= samples.len(),
                dev0.len() == device_len,
                samples.len() == samples_len,
                destination@.len() == dev0.len(),
                destination@ == overlay(dev0, lock as int, pair_bytes(samples, 0, j as int)),
            decreases pairs_1 - j,
        {
            let left: i16 = source.samples[2 * j];
            let right: i16 = source.samples[2 * j + 1];
            write_pair(destination, lock + 4 * j, left, right);
            proof {
                assert(destination@ =~= overlay(
                    dev0,
                    lock as int,
                    pair_bytes(samples, 0, j as int + 1),
                ));
            }
            j += 1;
        }
        let ghost dev1 = overlay(dev0, lock as int, pair_bytes(samples, 0, pairs_1 as int));
        proof {
            assert(destination@ =~= overlay(dev1, 0, pair_bytes(samples, pairs_1 as int, 0)));
        }
        let mut j2: usize = 0;
        while j2 < pairs_2
            invariant
                j2 <= pairs_2,
                source.wf(),
                samples == source@.samples,
                4 * pairs_2 <= dev1.len(),
                2 * (pairs_1 + pairs_2) <= samples.len(),
                dev0.len() == device_len,
                samples.len() == samples_len,
                dev1.len() == dev0.len(),
                destination@.len() == dev0.len(),
                destination@ == overlay(dev1, 0, pair_bytes(samples, pairs_1 as int, j2 as int)),
            decreases pairs_2 - j2,
        {
            let p: usize = pairs_1 + j2;
            let left: i16 = source.samples[2 * p];
            let right: i16 = source.samples[2 * p + 1];
            write_pair(destination, 4 * j2, left, right);
            proof {
                assert(destination@ =~= overlay(
                    dev1,
                    0,
                    pair_bytes(samples, pairs_1 as int, j2 as int + 1),
                ));
            }
            j2 += 1;
        }
        let total: u32 = region_1_size / 4 + region_2_size / 4;
        self.running_sample_index = (self.running_sample_index + total) % (self.buffer_size / 4);
        proof {
            lemma_mod_division_less_than_divisor(
                old(self)@.running_sample_index + total as int,
                old(self)@.buffer_size / 4,
            );
            lemma_fundamental_div_mod(old(self)@.buffer_size, 4);
            assert(self@ =~= fill_output_spec(
                old(self)@,
                byte_to_lock as int,
                bytes_to_write as int,
            ));
            assert(destination@ =~= fill_device_spec(
                dev0,
                samples,
                byte_to_lock as int,
                bytes_to_write as int,
            ));
        }
    }
}

/// Whole pairs never outnumber the span: `r1 / 4 + r2 / 4 <= (r1 + r2) / 4`.
proof fn lemma_pairs_fit(r1: int, r2: int, total: int)
    requires
        0 <= r1,
        0 <= r2,
        r1 + r2 == total,
    ensures
        r1 / 4 + r2 / 4 <= total / 4,
        4 * (r1 / 4 + r2 / 4) <= total,
{
    lemma_fundamental_div_mod(r1, 4);
    lemma_fundamental_div_mod(r2, 4);
    lemma_mod_division_less_than_divisor(r1, 4);
    lemma_mod_division_less_than_divisor(r2, 4);
    let q = r1 / 4 + r2 / 4;
    lemma_div_by_multiple(q, 4);
    lemma_div_is_ordered(q * 4, total, 4);
}

/// Write one stereo pair at byte offset `at`: four bytes, the 16-bit value
/// low byte first, left slot then right slot.
fn write_pair(destination: &mut Vec<u8>, at: usize, left: i16, right: i16)
    requires
        at + 4 <= old(destination)@.len(),
    ensures
        final(destination)@ == old(destination)@.update(at as int, sample_lo(left)).update(
            at as int + 1,
            sample_hi(left),
        ).update(at as int + 2, sample_lo(right)).update(at as int + 3, sample_hi(right)),
{
    let len: usize = destination.len();
    proof {
        assert(at + 4 <= len);
    }
    let lu: u16 = left as u16;
    let ru: u16 = right as u16;
    destination.set(at, (lu % 256) as u8);
    destination.set(at + 1, (lu / 256) as u8);
    destination.set(at + 2, (ru % 256) as u8);
    destination.set(at + 3, (ru / 256) as u8);
}

/// Split a logical write span into its one or two physical regions, as the
/// device lock reports them: region 1 runs from the locked byte towards the
/// buffer end, region 2 holds whatever wraps around to byte 0.
///
/// The two sizes always sum to exactly `bytes_to_write`, and region 2 is
/// non-empty precisely when the span runs past the buffer end.
pub fn split_span(byte_to_lock: u32, bytes_to_write: u32, buffer_size: u32) -> (regions: (
    u32,
    u32,
))
    requires
        byte_to_lock < buffer_size,
        bytes_to_write <= buffer_size,
    ensures
        regions.0 as int == spec_region_1_size(
            byte_to_lock as int,
            bytes_to_write as int,
            buffer_size as int,
        ),
        regions.1 as int == spec_region_2_size(
            byte_to_lock as int,
            bytes_to_write as int,
            buffer_size as int,
        ),
        regions.0 + regions.1 == bytes_to_write,
        regions.1 > 0 <==> byte_to_lock + bytes_to_write > buffer_size,
{
    if bytes_to_write > buffer_size - byte_to_lock {
        (buffer_size - byte_to_lock, bytes_to_write - (buffer_size - byte_to_lock))
    } else {
        (bytes_to_write, 0)
    }
}

} // verus!
