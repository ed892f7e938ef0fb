//! Colors: three channels that accumulate freely and are saturated into the
//! displayable range only when converted to bytes.

use vstd::prelude::*;

use crate::bounded::Bounded;
use crate::bounded::saturate_spec;
use crate::fixed::SCALE;
use crate::fixed::fits_i64;
use crate::fixed::fmul;
use crate::fixed::iabs;

verus! {

/// Largest channel magnitude the shading pipeline is specified for.
pub const CHANNEL_MAX: i64 = 100_000_000;

#[derive(Clone, Copy, Debug, PartialEq, Eq, Structural)]
pub struct Color {
    pub r: Bounded,
    pub g: Bounded,
    pub b: Bounded,
}

/// One channel as a display byte: saturate into `[0, 1]`, then rescale to 255.
pub open spec fn channel_byte_spec(v: int) -> int {
    (saturate_spec(v, 0, SCALE as int) * 255) / (SCALE as int)
}

impl Color {
    pub open spec fn wf(self) -> bool {
        &&& iabs(self.r.val as int) <= CHANNEL_MAX as int
        &&& iabs(self.g.val as int) <= CHANNEL_MAX as int
        &&& iabs(self.b.val as int) <= CHANNEL_MAX as int
    }

    pub fn bounded_new(r: Bounded, g: Bounded, b: Bounded) -> (c: Color)
        ensures
            c == (Color { r, g, b }),
    {
        Color { r, g, b }
    }

    pub fn new(r: i64, g: i64, b: i64) -> (c: Color)
        ensures
            c.r.val == r && c.g.val == g && c.b.val == b,
    {
        Color { r: Bounded::new(r), g: Bounded::new(g), b: Bounded::new(b) }
    }

    pub fn black() -> (c: Color)
        ensures
            c.r.val == 0 && c.g.val == 0 && c.b.val == 0,
            c.wf(),
    {
        Color::new(0, 0, 0)
    }

    pub fn white() -> (c: Color)
        ensures
            c.r.val == SCALE && c.g.val == SCALE && c.b.val == SCALE,
            c.wf(),
    {
        Color::new(SCALE, SCALE, SCALE)
    }

    pub fn blue() -> (c: Color)
        ensures
            c.r.val == 0 && c.g.val == 0 && c.b.val == SCALE,
            c.wf(),
    {
        Color::new(0, 0, SCALE)
    }

    pub fn red() -> (c: Color)
        ensures
            c.r.val == SCALE && c.g.val == 0 && c.b.val == 0,
            c.wf(),
    {
        Color::new(SCALE, 0, 0)
    }

    /// The three display bytes of the color.
    pub fn rgb(&self) -> (bytes: [u8; 3])
        ensures
            bytes@[0] as int == channel_byte_spec(self.r.val as int),
            bytes@[1] as int == channel_byte_spec(self.g.val as int),
            bytes@[2] as int == channel_byte_spec(self.b.val as int),
    {
        [
            channel_byte(self.r.get_saturated(0, SCALE)),
            channel_byte(self.g.get_saturated(0, SCALE)),
            channel_byte(self.b.get_saturated(0, SCALE)),
        ]
    }

    pub fn add(&self, rhs: Color) -> (c: Color)
        requires
            fits_i64(self.r.val + rhs.r.val),
            fits_i64(self.g.val + rhs.g.val),
            fits_i64(self.b.val + rhs.b.val),
        ensures
            c.r.val == self.r.val + rhs.r.val,
            c.g.val == self.g.val + rhs.g.val,
            c.b.val == self.b.val + rhs.b.val,
    {
        Color::bounded_new(self.r.add(rhs.r), self.g.add(rhs.g), self.b.add(rhs.b))
    }

    pub fn sub(&self, rhs: Color) -> (c: Color)
        requires
            fits_i64(self.r.val - rhs.r.val),
            fits_i64(self.g.val - rhs.g.val),
            fits_i64(self.b.val - rhs.b.val),
        ensures
            c.r.val == self.r.val - rhs.r.val,
            c.g.val == self.g.val - rhs.g.val,
            c.b.val == self.b.val - rhs.b.val,
    {
        Color::bounded_new(self.r.sub(rhs.r), self.g.sub(rhs.g), self.b.sub(rhs.b))
    }

    /// Scale every channel by a fixed-point factor.
    pub fn scaled(&self, coof: i64) -> (c: Color)
        requires
            fits_i64(fmul(self.r.val as int, coof as int)),
            fits_i64(fmul(self.g.val as int, coof as int)),
            fits_i64(fmul(self.b.val as int, coof as int)),
        ensures
            c.r.val as int == fmul(self.r.val as int, coof as int),
            c.g.val as int == fmul(self.g.val as int, coof as int),
            c.b.val as int == fmul(self.b.val as int, coof as int),
    {
        let k: Bounded = Bounded::new(coof);
        Color::bounded_new(self.r.mul(k), self.g.mul(k), self.b.mul(k))
    }

    /// Channelwise fixed-point product.
    pub fn mul(&self, rhs: Color) -> (c: Color)
        requires
            fits_i64(fmul(self.r.val as int, rhs.r.val as int)),
            fits_i64(fmul(self.g.val as int, rhs.g.val as int)),
            fits_i64(fmul(self.b.val as int, rhs.b.val as int)),
        ensures
            c.r.val as int == fmul(self.r.val as int, rhs.r.val as int),
            c.g.val as int == fmul(self.g.val as int, rhs.g.val as int),
            c.b.val as int == fmul(self.b.val as int, rhs.b.val as int),
    {
        Color::bounded_new(self.r.mul(rhs.r), self.g.mul(rhs.g), self.b.mul(rhs.b))
    }
}

/// Rescale one saturated channel to a byte.
fn channel_byte(v: i64) -> (r: u8)
    requires
        0 <= v <= SCALE,
    ensures
        r as int == (v * 255) / (SCALE as int),
    {
    proof {
        vstd::arithmetic::div_mod::lemma_div_pos_is_pos(v * 255, SCALE as int);
        vstd::arithmetic::div_mod::lemma_div_is_ordered(v * 255, 255 * SCALE as int, SCALE as int);
        vstd::arithmetic::div_mod::lemma_div_multiples_vanish(255, SCALE as int);
        assert(255 * (SCALE as int) == (SCALE as int) * 255) by (nonlinear_arith);
    }
    ((v * 255) / SCALE) as u8
}

} // verus!
