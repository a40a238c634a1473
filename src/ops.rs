use crate::channel::{names_ok, selector_of, Selector};
use crate::color::{Rgb, Rgba};
use crate::raster::Image;
use vstd::arithmetic::div_mod::{lemma_basic_div, lemma_mod_multiples_basic, lemma_mul_mod_noop_left};
use vstd::arithmetic::power::pow;
use vstd::arithmetic::power2::{lemma2_to64, lemma_pow2_adds, lemma_pow2_pos, pow2};
use vstd::bits::{lemma_u16_shl_is_mul, lemma_u8_shr_is_div};
use vstd::prelude::*;

verus! {

/// The catalog of per-channel operators, each with its own parameters.
#[derive(Clone, Copy, PartialEq, Eq, Debug, Structural)]
pub enum Operator {
    /// `L + R`; wraps modulo 256 when `raw`, else saturates at 255.
    Add { raw: bool },
    /// `L - R`; wraps modulo 256 when `raw`, else the absolute difference.
    Sub { raw: bool },
    /// `L * R` modulo 256.
    Mult,
    /// `L` to the power `R`, modulo 256.
    Pow,
    /// `L / max(R, 1)`, truncating.
    Div,
    /// `L | R`, complemented when `negate`.
    Or { negate: bool },
    /// `L & R`, complemented when `negate`.
    And { negate: bool },
    /// `L ^ R`, complemented when `negate`.
    Xor { negate: bool },
    /// `L` shifted left by `bits`; wraps into eight bits when `raw`, else
    /// saturates at 255. The right operand is unused.
    ShiftLeft { bits: u8, raw: bool },
    /// `L` shifted right by `bits` (zero from eight bits on). The right
    /// operand is unused.
    ShiftRight { bits: u8 },
    /// `(L + R) / 2`, truncating.
    Average,
    /// The overlay blend: `L * R / 128` below 128, else
    /// `255 - (255 - L) * (255 - R) / 128`.
    Overlay,
    /// The screen blend: `255 - (255 - L) * (255 - R) / 255`.
    Screen,
}

/// What an operator makes of one left channel value `l` and one right
/// channel value `r`.
pub open spec fn channel_result(op: Operator, l: u8, r: u8) -> u8 {
    match op {
        Operator::Add { raw } => if raw {
            ((l + r) % 256) as u8
        } else if l + r > 255 {
            255
        } else {
            (l + r) as u8
        },
        Operator::Sub { raw } => if raw {
            ((l - r) % 256) as u8
        } else if l >= r {
            (l - r) as u8
        } else {
            (r - l) as u8
        },
        Operator::Mult => ((l * r) % 256) as u8,
        Operator::Pow => (pow(l as int, r as nat) % 256) as u8,
        Operator::Div => if r == 0 {
            l
        } else {
            (l / r) as u8
        },
        Operator::Or { negate } => if negate {
            !(l | r)
        } else {
            l | r
        },
        Operator::And { negate } => if negate {
            !(l & r)
        } else {
            l & r
        },
        Operator::Xor { negate } => if negate {
            !(l ^ r)
        } else {
            l ^ r
        },
        Operator::ShiftLeft { bits, raw } => if raw {
            ((l * pow2(bits as nat)) % 256) as u8
        } else if l * pow2(bits as nat) > 255 {
            255
        } else {
            (l * pow2(bits as nat)) as u8
        },
        Operator::ShiftRight { bits } => (l as nat / pow2(bits as nat)) as u8,
        Operator::Average => ((l + r) / 2) as u8,
        Operator::Overlay => if l < 128 {
            (l * r / 128) as u8
        } else {
            (255 - (255 - l) * (255 - r) / 128) as u8
        },
        Operator::Screen => (255 - (255 - l) * (255 - r) / 255) as u8,
    }
}

/// The output pixel for source pixel `p`: the operator applied to each pair
/// of the remapped left triple and the right triple, with `p`'s alpha.
pub open spec fn pixel_result(op: Operator, lhs: Selector, rhs: Rgb, p: Rgba) -> Rgba {
    let l = lhs.remap(p.r, p.g, p.b);
    Rgba {
        r: channel_result(op, l.r, rhs.r),
        g: channel_result(op, l.g, rhs.g),
        b: channel_result(op, l.b, rhs.b),
        a: p.a,
    }
}

/// `out` is `img` with every pixel passed through the operator: same
/// dimensions, and each pixel as `pixel_result` gives it.
pub open spec fn operated(img: Image, out: Image, op: Operator, lhs: Selector, rhs: Rgb) -> bool {
    &&& out.wf()
    &&& out.spec_width() == img.spec_width()
    &&& out.spec_height() == img.spec_height()
    &&& forall|x: int, y: int|
        0 <= x < img.spec_width() && 0 <= y < img.spec_height() ==> #[trigger] out.spec_pixel(x, y)
            == pixel_result(op, lhs, rhs, img.spec_pixel(x, y))
}

/// The right-hand triple: the constant color, remapped by its own tokens.
pub open spec fn operand_of(names: Option<Vec<String>>, color: Rgb) -> Rgb {
    selector_of(names).remap(color.r, color.g, color.b)
}

fn pow_mod_256(l: u8, e: u8) -> (v: u8)
    ensures
        v == pow(l as int, e as nat) % 256,
{
    let mut acc: u32 = 1;
    let mut i: u8 = 0;
    proof {
        reveal(pow);
    }
    while i < e
        invariant
            i <= e,
            acc < 256,
            acc == pow(l as int, i as nat) % 256,
        decreases e - i,
    {
        proof {
            let p = pow(l as int, i as nat);
            reveal(pow);
            assert(pow(l as int, (i + 1) as nat) == l * p);
            lemma_mul_mod_noop_left(p, l as int, 256);
            assert((acc * l) % 256 == (p * l) % 256);
            assert(p * l == l * p) by (nonlinear_arith);
            assert(acc * l <= 255 * 255) by (nonlinear_arith)
                requires
                    acc < 256,
                    l <= 255,
            ;
        }
        acc = (acc * (l as u32)) % 256;
        i = i + 1;
    }
    acc as u8
}

fn shift_left(l: u8, bits: u8, raw: bool) -> (v: u8)
    ensures
        v == channel_result(Operator::ShiftLeft { bits, raw }, l, 0),
{
    if bits >= 8 {
        proof {
            let k = pow2((bits - 8) as nat);
            lemma_pow2_adds(8, (bits - 8) as nat);
            lemma_pow2_pos((bits - 8) as nat);
            lemma2_to64();
            assert(pow2(bits as nat) == 256 * k);
            assert(l * (256 * k) == (l * k) * 256) by (nonlinear_arith);
            lemma_mod_multiples_basic(l * k, 256);
            assert(l >= 1 ==> l * (256 * k) > 255) by (nonlinear_arith)
                requires
                    k > 0,
            ;
            assert(l == 0 ==> l * (256 * k) == 0) by (nonlinear_arith);
        }
        if raw || l == 0 {
            0
        } else {
            255
        }
    } else {
        proof {
            lemma2_to64();
            assert(pow2(bits as nat) <= 128);
            assert(l * pow2(bits as nat) <= 255 * 128) by (nonlinear_arith)
                requires
                    pow2(bits as nat) <= 128,
                    l <= 255,
            ;
            lemma_u16_shl_is_mul(l as u16, bits as u16);
        }
        let w: u16 = (l as u16) << (bits as u16);
        if raw {
            (w % 256) as u8
        } else if w > 255 {
            255
        } else {
            w as u8
        }
    }
}

fn shift_right(l: u8, bits: u8) -> (v: u8)
    ensures
        v == channel_result(Operator::ShiftRight { bits }, l, 0),
{
    if bits >= 8 {
        proof {
            lemma_pow2_adds(8, (bits - 8) as nat);
            lemma_pow2_pos((bits - 8) as nat);
            lemma2_to64();
            assert(pow2(bits as nat) >= 256) by (nonlinear_arith)
                requires
                    pow2(bits as nat) == pow2(8) * pow2((bits - 8) as nat),
                    pow2(8) == 256,
                    pow2((bits - 8) as nat) > 0,
            ;
            lemma_basic_div(l as int, pow2(bits as nat) as int);
        }
        0
    } else {
        proof {
            lemma_u8_shr_is_div(l, bits);
        }
        l >> bits
    }
}

/// One channel through the operator.
pub fn apply_channel(op: Operator, l: u8, r: u8) -> (v: u8)
    ensures
        v == channel_result(op, l, r),
{
    match op {
        Operator::Add { raw } => {
            let s: u16 = l as u16 + r as u16;
            if raw {
                (s % 256) as u8
            } else if s > 255 {
                255
            } else {
                s as u8
            }
        },
        Operator::Sub { raw } => {
            if raw {
                ((l as u16 + 256 - r as u16) % 256) as u8
            } else if l >= r {
                l - r
            } else {
                r - l
            }
        },
        Operator::Mult => {
            proof {
                assert(l * r <= 255 * 255) by (nonlinear_arith)
                    requires
                        l <= 255,
                        r <= 255,
                ;
            }
            ((l as u32 * r as u32) % 256) as u8
        },
        Operator::Pow => pow_mod_256(l, r),
        Operator::Div => {
            if r == 0 {
                l
            } else {
                l / r
            }
        },
        Operator::Or { negate } => if negate {
            !(l | r)
        } else {
            l | r
        },
        Operator::And { negate } => if negate {
            !(l & r)
        } else {
            l & r
        },
        Operator::Xor { negate } => if negate {
            !(l ^ r)
        } else {
            l ^ r
        },
        Operator::ShiftLeft { bits, raw } => shift_left(l, bits, raw),
        Operator::ShiftRight { bits } => shift_right(l, bits),
        Operator::Average => ((l as u16 + r as u16) / 2) as u8,
        Operator::Overlay => {
            proof {
                assert(l * r <= 255 * 255) by (nonlinear_arith)
                    requires
                        l <= 255,
                        r <= 255,
                ;
                assert(l < 128 ==> l * r / 128 <= 255) by (nonlinear_arith)
                    requires
                        l <= 255,
                        r <= 255,
                ;
                assert(l >= 128 ==> (255 - l) * (255 - r) / 128 <= 255) by (nonlinear_arith)
                    requires
                        l <= 255,
                        r <= 255,
                ;
                assert((255 - l) * (255 - r) >= 0) by (nonlinear_arith)
                    requires
                        l <= 255,
                        r <= 255,
                ;
            }
            if l < 128 {
                ((l as u32 * r as u32) / 128) as u8
            } else {
                (255 - ((255 - l as u32) * (255 - r as u32)) / 128) as u8
            }
        },
        Operator::Screen => {
            proof {
                assert((255 - l) * (255 - r) <= 255 * 255) by (nonlinear_arith)
                    requires
                        l <= 255,
                        r <= 255,
                ;
                assert((255 - l) * (255 - r) >= 0) by (nonlinear_arith)
                    requires
                        l <= 255,
                        r <= 255,
                ;
            }
            (255 - ((255 - l as u32) * (255 - r as u32)) / 255) as u8
        },
    }
}

/// One pixel through the operator: remap the left triple, combine each
/// channel with the right triple, keep alpha.
pub fn apply_pixel(op: Operator, lhs: Selector, rhs: Rgb, p: Rgba) -> (q: Rgba)
    ensures
        q == pixel_result(op, lhs, rhs, p),
{
    let l = lhs.apply(p.r, p.g, p.b);
    Rgba {
        r: apply_channel(op, l.r, rhs.r),
        g: apply_channel(op, l.g, rhs.g),
        b: apply_channel(op, l.b, rhs.b),
        a: p.a,
    }
}

/// Every pixel of `img` through the operator, into a new image.
pub fn apply_operator(img: &Image, op: Operator, lhs: Selector, rhs: Rgb) -> (out: Image)
    requires
        img.wf(),
    ensures
        operated(*img, out, op, lhs, rhs),
{
    let f = |p: Rgba| -> (q: Rgba)
        ensures
            q == pixel_result(op, lhs, rhs, p),
        {
            apply_pixel(op, lhs, rhs, p)
        };
    img.map_pixels(f, Ghost(|p: Rgba| pixel_result(op, lhs, rhs, p)))
}

/// The operator over `img` with operands given as remap tokens: the left
/// triple from `lhs` (identity when absent), the right triple from `color`
/// remapped by `rhs`.
pub fn apply_named(
    img: &Image,
    op: Operator,
    lhs: &Option<Vec<String>>,
    rhs: &Option<Vec<String>>,
    color: Rgb,
) -> (out: Image)
    requires
        img.wf(),
        names_ok(*lhs),
        names_ok(*rhs),
    ensures
        operated(*img, out, op, selector_of(*lhs), operand_of(*rhs, color)),
{
    let left = Selector::from_names(lhs);
    let right = Selector::from_names(rhs).apply(color.r, color.g, color.b);
    apply_operator(img, op, left, right)
}

/// Every operator keeps the image's dimensions and each source pixel's
/// alpha.
pub proof fn operator_keeps_size_and_alpha(img: Image, out: Image, op: Operator, lhs: Selector, rhs: Rgb)
    requires
        operated(img, out, op, lhs, rhs),
    ensures
        out.spec_width() == img.spec_width(),
        out.spec_height() == img.spec_height(),
        forall|x: int, y: int|
            0 <= x < img.spec_width() && 0 <= y < img.spec_height() ==> (#[trigger] out.spec_pixel(x, y)).a
                == img.spec_pixel(x, y).a,
{
    assert forall|x: int, y: int|
        0 <= x < img.spec_width() && 0 <= y < img.spec_height() implies (#[trigger] out.spec_pixel(x, y)).a
            == img.spec_pixel(x, y).a by {
        assert(out.spec_pixel(x, y) == pixel_result(op, lhs, rhs, img.spec_pixel(x, y)));
    }
}

/// Addition and subtraction in raw mode are arithmetic modulo 256; in the
/// other mode addition saturates at 255 and subtraction is the absolute
/// difference, both inside `[0, 255]`.
pub proof fn wrap_and_clamp(l: u8, r: u8)
    ensures
        channel_result(Operator::Add { raw: true }, l, r) == (l + r) % 256,
        channel_result(Operator::Sub { raw: true }, l, r) == (l - r) % 256,
        channel_result(Operator::Add { raw: false }, l, r) == if l + r > 255 {
            255
        } else {
            l + r
        },
        channel_result(Operator::Sub { raw: false }, l, r) == if l >= r {
            l - r
        } else {
            r - l
        },
        0 <= channel_result(Operator::Add { raw: false }, l, r) <= 255,
        0 <= channel_result(Operator::Sub { raw: false }, l, r) <= 255,
{
}

} // verus!
