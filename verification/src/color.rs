//! Colors: a `Color` is representationally a `Vec3` whose components are
//! meant to lie in `[0, 1]`, plus the conversion to display bytes.

use vstd::prelude::*;
use crate::rat::{Ratio, Rat, rzero, rone, in_range};
use crate::vec3::{Vec3, V3};
use vstd::arithmetic::div_mod::lemma_fundamental_div_mod;

verus! {

/// A color with normalized red, green and blue intensities.
pub type Color = Vec3;

/// The display byte of one color component: the integer part of `256 * c`,
/// saturated to `0 ..= 255` (the effect of casting the scaled value to an
/// 8-bit unsigned integer).
pub open spec fn byte_of(c: Ratio) -> u8 {
    if c.n < 0 {
        0u8
    } else if c.n >= c.d {
        255u8
    } else {
        (256 * c.n / c.d) as u8
    }
}

/// The products formed by `Color::to_rgb` stay representable.
pub open spec fn rgb_fits(v: V3) -> bool {
    in_range(256 * v.x.n) && in_range(256 * v.y.n) && in_range(256 * v.z.n)
}

/// One component of the display conversion.
fn comp_byte(c: Rat) -> (b: u8)
    requires
        c.wf(),
        in_range(256 * c@.n),
    ensures
        b == byte_of(c@),
{
    if c.num < 0 {
        0
    } else if c.num >= c.den {
        255
    } else {
        let q: u128 = (256u128 * (c.num as u128)) / (c.den as u128);
        proof {
            let n = c@.n;
            let d = c@.d;
            lemma_fundamental_div_mod(256 * n, d);
            assert((256 * n) / d < 256) by (nonlinear_arith)
                requires
                    0 <= n < d,
                    d > 0,
                    256 * n == d * ((256 * n) / d) + (256 * n) % d,
                    0 <= (256 * n) % d < d;
            assert((256 * n) / d >= 0) by (nonlinear_arith)
                requires 0 <= n, d > 0;
        }
        q as u8
    }
}

impl Color {
    /// The color with all intensities zero.
    #[allow(non_snake_case)]
    pub fn Black() -> (c: Color)
        ensures
            c.wf(),
            c@ == (V3 { x: rzero(), y: rzero(), z: rzero() }),
    {
        Color::new(Rat::from_int(0), Rat::from_int(0), Rat::from_int(0))
    }

    /// The color with all intensities one.
    #[allow(non_snake_case)]
    pub fn White() -> (c: Color)
        ensures
            c.wf(),
            c@ == (V3 { x: rone(), y: rone(), z: rone() }),
    {
        Color::new(Rat::from_int(1), Rat::from_int(1), Rat::from_int(1))
    }

    /// Pure red, used to flag a sphere hit.
    #[allow(non_snake_case)]
    pub fn Red() -> (c: Color)
        ensures
            c.wf(),
            c@ == (V3 { x: rone(), y: rzero(), z: rzero() }),
    {
        Color::new(Rat::from_int(1), Rat::from_int(0), Rat::from_int(0))
    }

    /// The three display bytes of the color, in red, green, blue order.
    pub fn to_rgb(&self) -> (r: [u8; 3])
        requires
            self.wf(),
            rgb_fits(self@),
        ensures
            r[0] == byte_of(self@.x),
            r[1] == byte_of(self@.y),
            r[2] == byte_of(self@.z),
    {
        [comp_byte(self.x()), comp_byte(self.y()), comp_byte(self.z())]
    }
}

} // verus!
