//! Hue, chroma and tone: the perceptual coordinates of a colour.
//!
//! An [`Hct`] is a place in that space together with the colour that shows it. Made from
//! a colour, it holds that colour and its coordinates, rounded to whole units. Made from
//! coordinates, it holds them and the colour of the sRGB gamut that comes nearest to
//! them: where the gamut has no colour of the chroma asked for, chroma gives way. So a
//! colour always comes back unchanged from its coordinates, but coordinates need not
//! come back from their colour.

use crate::color::Argb;
use vstd::arithmetic::div_mod::*;
use vstd::arithmetic::power2::*;
use vstd::bits::*;
use vstd::prelude::*;

verus! {

/// A colour with its hue in degrees, its chroma and its tone.
#[derive(Clone, Copy, Debug, PartialEq, Eq, Structural)]
pub struct Hct {
    hue: u16,
    chroma: u16,
    tone: u8,
    color: Argb,
}

/// The exponent field of a binary64 pattern.
pub open spec fn binary64_exponent(bits: u64) -> int {
    (bits as int / 0x10_0000_0000_0000) % 2048
}

/// The significand of a normal binary64 pattern, with its leading one.
pub open spec fn binary64_significand(bits: u64) -> int {
    0x10_0000_0000_0000 + bits as int % 0x10_0000_0000_0000
}

/// Whether the sign bit of a binary64 pattern is set.
pub open spec fn binary64_negative(bits: u64) -> bool {
    bits >= 0x8000_0000_0000_0000
}

/// Whether a binary64 pattern encodes no number.
pub open spec fn binary64_is_nan(bits: u64) -> bool {
    binary64_exponent(bits) == 2047 && bits as int % 0x10_0000_0000_0000 != 0
}

/// The whole number nearest to the number that a binary64 pattern encodes, halves going
/// up, and no more than `limit`. A negative number and a pattern that encodes none give
/// zero.
///
/// A normal pattern with exponent field `e` and significand `m` encodes
/// `m * 2^(e - 1075)`.
pub open spec fn binary64_nearest(bits: u64, limit: int) -> int {
    let e = binary64_exponent(bits);
    let m = binary64_significand(bits);
    if binary64_negative(bits) || binary64_is_nan(bits) || e == 0 {
        0
    } else if e == 2047 {
        limit
    } else {
        let nearest = if e >= 1075 {
            m * pow2((e - 1075) as nat)
        } else {
            (m + pow2((1074 - e) as nat)) / (pow2((1075 - e) as nat) as int)
        };
        if nearest < limit {
            nearest
        } else {
            limit
        }
    }
}

/// An encoded number below one half rounds to zero.
proof fn lemma_binary64_small(m: int, s: nat)
    requires
        0 <= m < 0x20_0000_0000_0000,
        s >= 54,
    ensures
        (m + pow2((s - 1) as nat)) / (pow2(s) as int) == 0,
{
    lemma2_to64_rest();
    lemma_pow2_unfold(s);
    if s - 1 > 53 {
        lemma_pow2_strictly_increases(53, (s - 1) as nat);
    }
    lemma_basic_div(m + pow2((s - 1) as nat), pow2(s) as int);
}

/// An encoded number of 65536 or more stays so when rounded.
proof fn lemma_binary64_large(m: int, e: int)
    requires
        0x10_0000_0000_0000 <= m,
        1039 <= e,
    ensures
        e >= 1075 ==> m * pow2((e - 1075) as nat) >= 65536,
        e < 1075 ==> (m + pow2((1074 - e) as nat)) / (pow2((1075 - e) as nat) as int) >= 65536,
{
    lemma2_to64();
    lemma2_to64_rest();
    if e >= 1075 {
        let p = pow2((e - 1075) as nat) as int;
        lemma_pow2_pos((e - 1075) as nat);
        assert(m * p >= m) by (nonlinear_arith)
            requires
                p >= 1,
                m >= 0,
        ;
    } else {
        let s = (1075 - e) as nat;
        lemma_pow2_pos(s);
        lemma_pow2_pos((s - 1) as nat);
        lemma_pow2_subtracts(s, 52);
        lemma_div_is_ordered(pow2(52) as int, m + pow2((s - 1) as nat), pow2(s) as int);
        if 52 - s > 16 {
            lemma_pow2_strictly_increases(16, (52 - s) as nat);
        }
    }
}

/// Rounds the number that a binary64 pattern encodes to a whole number of at most
/// `limit`.
pub fn round_binary64(bits: u64, limit: u16) -> (rounded: u16)
    ensures
        rounded as int == binary64_nearest(bits, limit as int),
{
    if bits >= 0x8000_0000_0000_0000 {
        return 0;
    }
    let e: u64 = bits >> 52;
    let f: u64 = bits & 0xF_FFFF_FFFF_FFFF;
    assert(e == bits / 0x10_0000_0000_0000 && f == bits % 0x10_0000_0000_0000 && e < 2048) by (bit_vector)
        requires
            bits < 0x8000_0000_0000_0000,
            e == bits >> 52,
            f == bits & 0xF_FFFF_FFFF_FFFF,
    ;
    assert(e as int == binary64_exponent(bits));
    if e == 2047 {
        return if f == 0 {
            limit
        } else {
            0
        };
    }
    if e == 0 {
        return 0;
    }
    let m: u64 = f + 0x10_0000_0000_0000;
    if e < 1022 {
        proof {
            lemma_binary64_small(m as int, (1075 - e) as nat);
        }
        return 0;
    }
    if e >= 1039 {
        proof {
            lemma_binary64_large(m as int, e as int);
        }
        return limit;
    }
    let s: u64 = 1075 - e;
    proof {
        lemma2_to64_rest();
        lemma_u64_pow2_no_overflow((s - 1) as nat);
        if s - 1 < 52 {
            lemma_pow2_strictly_increases((s - 1) as nat, 52);
        }
        lemma_u64_shl_is_mul(1, (s - 1) as u64);
    }
    let half: u64 = 1u64 << (s - 1);
    let nearest: u64 = (m + half) >> s;
    proof {
        lemma_u64_shr_is_div((m + half) as u64, s);
    }
    if nearest < limit as u64 {
        nearest as u16
    } else {
        limit
    }
}

/// The binary64 patterns of the hue, chroma and tone of a colour under the CAM16 model
/// in standard viewing conditions, tone being CIE L*.
pub uninterp spec fn cam16_encoding(color: Argb) -> (u64, u64, u64);

/// The colour of the sRGB gamut that the HCT solver gives for a hue in degrees, a chroma
/// and a tone in whole units.
pub uninterp spec fn solved_color(hue: u16, chroma: u16, tone: u8) -> Argb;

/// Calls `material_colors::Hct::new` and hands out the three coordinates of the result,
/// each as the bit pattern of the `get_hue`, `get_chroma` and `get_tone` value. Nothing
/// is claimed of them but that they depend on the colour alone.
///
/// `Hct::new` stops the program where the hue it computes is not in [0, 360). It does
/// not look at alpha, and for none of the 16,777,216 colours that remain it does so:
/// the tests go through all of them.
#[verifier::external_body]
fn cam16_coordinates(color: Argb) -> (bits: (u64, u64, u64))
    ensures
        bits == cam16_encoding(color),
{
    let hct = material_colors::Hct::new(
        material_colors::Argb::new(color.alpha, color.red, color.green, color.blue),
    );
    (hct.get_hue().to_bits(), hct.get_chroma().to_bits(), hct.get_tone().to_bits())
}

/// Calls `material_colors::hct::solver::HctSolver::solve_to_int` on the three whole
/// numbers. Nothing is claimed of the colour but that it depends on them alone.
#[verifier::external_body]
fn solve(hue: u16, chroma: u16, tone: u8) -> (color: Argb)
    requires
        hue < 360,
        tone <= 100,
    ensures
        color == solved_color(hue, chroma, tone),
{
    let c = material_colors::hct::solver::HctSolver::solve_to_int(
        hue.into(),
        chroma.into(),
        tone.into(),
    );
    Argb { alpha: c.alpha, red: c.red, green: c.green, blue: c.blue }
}

/// The hue that a binary64 pattern rounds to, on the circle: a full turn is no turn.
pub open spec fn rounded_hue(bits: u64) -> u16 {
    (binary64_nearest(bits, 360) % 360) as u16
}

/// The chroma that a binary64 pattern rounds to.
pub open spec fn rounded_chroma(bits: u64) -> u16 {
    binary64_nearest(bits, 0xffff) as u16
}

/// The tone that a binary64 pattern rounds to, 100 at most.
pub open spec fn rounded_tone(bits: u64) -> u8 {
    binary64_nearest(bits, 100) as u8
}

/// Rounds three coordinates given as binary64 patterns to a hue, a chroma and a tone.
pub fn round_coordinates(hue_bits: u64, chroma_bits: u64, tone_bits: u64) -> (rounded: (u16, u16, u8))
    ensures
        rounded.0 == rounded_hue(hue_bits),
        rounded.1 == rounded_chroma(chroma_bits),
        rounded.2 == rounded_tone(tone_bits),
        rounded.0 < 360,
        rounded.2 <= 100,
{
    let hue = round_binary64(hue_bits, 360) % 360;
    let chroma = round_binary64(chroma_bits, 0xffff);
    let tone = round_binary64(tone_bits, 100) as u8;
    (hue, chroma, tone)
}

impl Hct {
    /// What every value holds: a hue on the circle, a tone of 100 at most, and either
    /// the colour's own coordinates or the colour found for the coordinates.
    #[verifier::type_invariant]
    spec fn consistent(self) -> bool {
        &&& self.hue < 360
        &&& self.tone <= 100
        &&& self.is_of_color(self.color) || self.is_of_coordinates(self.hue, self.chroma, self.tone)
    }

    /// The hue, in degrees.
    pub closed spec fn hue(self) -> u16 {
        self.hue
    }

    /// The chroma.
    pub closed spec fn chroma(self) -> u16 {
        self.chroma
    }

    /// The tone, from 0 for black to 100 for white.
    pub closed spec fn tone(self) -> u8 {
        self.tone
    }

    /// The colour that shows the coordinates.
    pub closed spec fn color(self) -> Argb {
        self.color
    }

    /// Whether this is a colour with its own coordinates, rounded.
    pub open spec fn is_of_color(self, color: Argb) -> bool {
        &&& self.color() == color
        &&& self.hue() == rounded_hue(cam16_encoding(color).0)
        &&& self.chroma() == rounded_chroma(cam16_encoding(color).1)
        &&& self.tone() == rounded_tone(cam16_encoding(color).2)
    }

    /// Whether these are the coordinates asked for, hue taken on the circle and tone no
    /// higher than 100, with the colour that the solver finds for them.
    pub open spec fn is_of_coordinates(self, hue: u16, chroma: u16, tone: u8) -> bool {
        &&& self.hue() == hue % 360
        &&& self.chroma() == chroma
        &&& self.tone() == if tone < 100 {
            tone
        } else {
            100
        }
        &&& self.color() == solved_color(self.hue(), self.chroma(), self.tone())
    }

    /// The place with these coordinates, and the colour of the gamut nearest to it.
    pub fn new(hue: u16, chroma: u16, tone: u8) -> (hct: Hct)
        ensures
            hct.is_of_coordinates(hue, chroma, tone),
    {
        let hue = hue % 360;
        let tone = if tone < 100 {
            tone
        } else {
            100
        };
        Hct { hue, chroma, tone, color: solve(hue, chroma, tone) }
    }

    /// The hue, in degrees below 360.
    pub fn get_hue(&self) -> (hue: u16)
        ensures
            hue == self.hue(),
            hue < 360,
    {
        proof {
            use_type_invariant(self);
        }
        self.hue
    }

    /// The chroma.
    pub fn get_chroma(&self) -> (chroma: u16)
        ensures
            chroma == self.chroma(),
    {
        self.chroma
    }

    /// The tone, from 0 for black to 100 for white.
    pub fn get_tone(&self) -> (tone: u8)
        ensures
            tone == self.tone(),
            tone <= 100,
    {
        proof {
            use_type_invariant(self);
        }
        self.tone
    }
}

/// A colour comes back unchanged from its coordinates: what `to_hct` makes of a colour,
/// `to_argb` turns into that colour again, in every channel.
pub proof fn lemma_color_comes_back(hct: Hct, color: Argb)
    requires
        hct.is_of_color(color),
    ensures
        hct.color() == color,
{
}

/// A colour with its perceptual coordinates, in whole units. Alpha plays no part in them.
pub fn to_hct(color: Argb) -> (hct: Hct)
    ensures
        hct.is_of_color(color),
{
    let bits = cam16_coordinates(color);
    let rounded = round_coordinates(bits.0, bits.1, bits.2);
    Hct { hue: rounded.0, chroma: rounded.1, tone: rounded.2, color }
}

/// The colour that shows the coordinates. Of a colour's own coordinates that is the
/// colour itself, so `to_argb(to_hct(c))` is `c`; of coordinates asked for it is the
/// colour of the gamut nearest to them.
pub fn to_argb(hct: Hct) -> (color: Argb)
    ensures
        color == hct.color(),
{
    hct.color
}

} // verus!
