//! The owned 2-D pixel buffer and its scrolling interference pattern.

use vstd::prelude::*;

verus! {

use vstd::arithmetic::div_mod::{
    lemma_mod_add_multiples_vanish,
    lemma_mod_division_less_than_divisor,
    lemma_multiply_divide_lt,
    lemma_small_mod,
    lemma_sub_mod_noop,
    lemma_sub_mod_noop_right,
};
use vstd::arithmetic::mul::lemma_mul_is_commutative;

/// One pixel: four 8-bit channel values, in memory order blue, green, red, alpha.
#[derive(Clone, Copy, Debug, PartialEq, Eq, Structural)]
pub struct Pixel {
    pub b: u8,
    pub g: u8,
    pub r: u8,
    pub a: u8,
}

impl Default for Pixel {
    /// The all-zero pixel, used for newly allocated slots.
    fn default() -> (p: Pixel)
        ensures
            p == (Pixel { b: 0, g: 0, r: 0, a: 0 }),
    {
        Pixel { b: 0, g: 0, r: 0, a: 0 }
    }
}

/// Mathematical image of a `DisplayBuffer`.
#[verifier::ext_equal]
pub struct DisplayView {
    pub memory: Seq<Pixel>,
    pub current_offset: int,
    pub width: int,
    pub height: int,
}

/// An owned, row-major pixel buffer of `width * height` pixels together with
/// the scrolling offset that animates the pattern.
pub struct DisplayBuffer {
    pub memory: Vec<Pixel>,
    pub current_offset: i32,
    pub width: i32,
    pub height: i32,
}

impl View for DisplayBuffer {
    type V = DisplayView;

    open spec fn view(&self) -> DisplayView {
        DisplayView {
            memory: self.memory@,
            current_offset: self.current_offset as int,
            width: self.width as int,
            height: self.height as int,
        }
    }
}

/// `i32` addition that wraps around on overflow, stated over the integers.
pub open spec fn wrap_add_i32(a: int, b: int) -> int {
    if a + b > i32::MAX {
        a + b - 0x1_0000_0000
    } else if a + b < i32::MIN {
        a + b + 0x1_0000_0000
    } else {
        a + b
    }
}

/// The green channel the pattern assigns to linear index `i`:
/// `(x ^ y - offset) mod 256`, where `x = i mod width` and, deliberately,
/// `y = i div height` — the pattern divides by the height, not the width,
/// and the rendered output depends on that exact formula.
pub open spec fn green_at(i: int, width: int, height: int, offset: int) -> u8
    recommends
        0 < width,
        0 < height,
        0 <= i < width * height,
{
    let x = (i % width) as u32;
    let y = (i / height) as u32;
    ((((x ^ y) - offset) % 256) as u8)
}

/// One animation step: every green channel is recomputed from the current
/// offset while blue, red and alpha stay untouched, then the offset advances
/// by `step_by` (wrapping, as only its value mod 256 is ever displayed).
pub open spec fn step_spec(d: DisplayView, step_by: int) -> DisplayView {
    DisplayView {
        memory: Seq::new(
            d.memory.len(),
            |i: int|
                Pixel {
                    g: green_at(i, d.width, d.height, d.current_offset),
                    ..d.memory[i]
                },
        ),
        current_offset: wrap_add_i32(d.current_offset, step_by),
        ..d
    }
}

/// The pixel sequence after a reallocation to `new_len` pixels: the old
/// pixels survive in index order, new slots hold the all-zero pixel.
pub open spec fn resize_memory_spec(memory: Seq<Pixel>, new_len: int) -> Seq<Pixel> {
    Seq::new(
        new_len as nat,
        |i: int|
            if i < memory.len() {
                memory[i]
            } else {
                Pixel { b: 0, g: 0, r: 0, a: 0 }
            },
    )
}

/// `off mod 256` computed without signed division: the Euclidean remainder of
/// a negative offset is recovered from the remainder of `-1 - off`.
fn offset_mod_256(off: i32) -> (r: u8)
    ensures
        r as int == (off as int) % 256,
{
    if off >= 0 {
        let m: u32 = (off as u32) % 256;
        proof {
            lemma_mod_division_less_than_divisor(off as int, 256);
        }
        m as u8
    } else {
        let n: u32 = (-1 - off) as u32;
        let m: u32 = n % 256;
        proof {
            let ni = n as int;
            let offi = off as int;
            lemma_mod_division_less_than_divisor(ni, 256);
            // off == -1 - n, so off % 256 == (255 - n) % 256 == 255 - n % 256
            lemma_mod_add_multiples_vanish(-1 - ni, 256);
            lemma_sub_mod_noop_right(255, ni, 256);
            lemma_small_mod((255 - ni % 256) as nat, 256);
            assert(offi % 256 == 255 - ni % 256);
        }
        (255 - m) as u8
    }
}

/// `u8` subtraction wraps exactly as subtraction mod 256 does.
proof fn lemma_wrapping_sub_u8(a: u8, b: u8)
    ensures
        vstd::wrapping::u8_specs::wrapping_sub(a, b) as int == ((a as int) - (b as int)) % 256,
{
    let ai = a as int;
    let bi = b as int;
    if ai - bi < 0 {
        lemma_mod_add_multiples_vanish(ai - bi, 256);
        lemma_small_mod((ai - bi + 256) as nat, 256);
    } else {
        lemma_small_mod((ai - bi) as nat, 256);
    }
}

impl DisplayBuffer {
    /// Both dimensions are positive and the pixel sequence covers them exactly.
    pub open spec fn wf(self) -> bool {
        &&& 0 < self.width
        &&& 0 < self.height
        &&& self.memory@.len() == self.width * self.height
    }

    /// Repaint the scrolling interference pattern and advance the offset.
    ///
    /// Every pixel's green channel becomes `(x ^ y - offset) mod 256` for the
    /// `(x, y)` derived from its linear index; the other channels keep their
    /// values, and the scrolling offset then grows by `step_by`.
    pub fn step_render(&mut self, step_by: i32)
        requires
            old(self).wf(),
        ensures
            final(self).wf(),
            final(self)@ == step_spec(old(self)@, step_by as int),
            forall|i: int|
                0 <= i < old(self)@.memory.len() ==> (#[trigger] final(self)@.memory[i]).g
                    == green_at(i, old(self)@.width, old(self)@.height, old(self)@.current_offset),
    {
        let w: usize = self.width as usize;
        let h: usize = self.height as usize;
        let offm: u8 = offset_mod_256(self.current_offset);
        let len: usize = self.memory.len();
        let mut i: usize = 0;
        while i < len
            invariant
                old(self).wf(),
                i <= len,
                len == self.memory@.len(),
                len == old(self)@.memory.len(),
                w == old(self)@.width,
                h == old(self)@.height,
                offm as int == old(self)@.current_offset % 256,
                self.width == old(self).width,
                self.height == old(self).height,
                self.current_offset == old(self).current_offset,
                forall|j: int|
                    0 <= j < i ==> #[trigger] self.memory@[j] == (Pixel {
                        g: green_at(j, old(self)@.width, old(self)@.height,
                            old(self)@.current_offset),
                        ..old(self)@.memory[j]
                    }),
                forall|j: int| i <= j < len ==> #[trigger] self.memory@[j] == old(self)@.memory[j],
            decreases len - i,
        {
            proof {
                lemma_mul_is_commutative(old(self)@.width, old(self)@.height);
                lemma_multiply_divide_lt(i as int, old(self)@.height, old(self)@.width);
                lemma_mod_division_less_than_divisor(i as int, w as int);
            }
            let x: u32 = (i % w) as u32;
            let y: u32 = (i / h) as u32;
            let a8: u8 = ((x ^ y) % 256) as u8;
            let g: u8 = a8.wrapping_sub(offm);
            proof {
                let off = old(self)@.current_offset;
                let v = (x ^ y) as int;
                lemma_mod_division_less_than_divisor(v, 256);
                lemma_wrapping_sub_u8(a8, offm);
                lemma_sub_mod_noop(v, off, 256);
                assert(g as int == (v - off) % 256);
                assert(g == green_at(i as int, old(self)@.width, old(self)@.height, off));
            }
            let mut px: Pixel = self.memory[i];
            px.g = g;
            self.memory.set(i, px);
            i += 1;
        }
        self.current_offset = self.current_offset.wrapping_add(step_by);
        proof {
            assert(self@.memory =~= step_spec(old(self)@, step_by as int).memory);
            assert(self@ =~= step_spec(old(self)@, step_by as int));
        }
    }

    /// Adopt a new geometry. When the pixel count changes the sequence is
    /// reallocated, existing pixels surviving in index order and new slots
    /// holding the all-zero pixel. The scrolling offset is deliberately kept,
    /// so the animation does not jump on a window resize.
    ///
    /// Non-positive dimensions are a programmer error and must be rejected at
    /// the boundary before reaching this component.
    pub fn resize(&mut self, new_width: i32, new_height: i32)
        requires
            0 < new_width,
            0 < new_height,
            new_width * new_height <= usize::MAX,
        ensures
            final(self).wf(),
            final(self).width == new_width,
            final(self).height == new_height,
            final(self).current_offset == old(self).current_offset,
            final(self)@.memory == resize_memory_spec(old(self)@.memory, new_width * new_height),
    {
        self.width = new_width;
        self.height = new_height;
        let new_size: usize = (new_width as usize) * (new_height as usize);
        if new_size != self.memory.len() {
            let mut rebuilt: Vec<Pixel> = Vec::new();
            let mut i: usize = 0;
            while i < new_size
                invariant
                    i <= new_size,
                    rebuilt@.len() == i,
                    self.memory@ == old(self)@.memory,
                    forall|j: int|
                        0 <= j < i ==> #[trigger] rebuilt@[j] == resize_memory_spec(
                            old(self)@.memory,
                            new_size as int,
                        )[j],
                decreases new_size - i,
            {
                if i < self.memory.len() {
                    let px: Pixel = self.memory[i];
                    rebuilt.push(px);
                } else {
                    rebuilt.push(Pixel::default());
                }
                i += 1;
            }
            self.memory = rebuilt;
        }
        proof {
            assert(self@.memory =~= resize_memory_spec(old(self)@.memory, new_size as int));
        }
    }
}

} // verus!
