//! The color model: a color value with two synchronized representations
//! (a gamma-encoded channel form and a hue/saturation/lightness/alpha form),
//! a parser from hexadecimal text, and linear interpolation between colors.
//!
//! Every channel is a fixed-point number: the integer `v` stands for the
//! real value `v / UNIT`, so a channel ranges over `[0, UNIT]` exactly as
//! the real channel ranges over `[0, 1]`.

use vstd::prelude::*;

verus! {

use vstd::arithmetic::div_mod::{
    lemma_div_pos_is_pos, lemma_div_multiples_vanish, lemma_div_is_ordered,
    lemma_multiply_divide_le, lemma_mod_division_less_than_divisor, lemma_div_by_multiple,
};
use vstd::arithmetic::mul::{lemma_mul_inequality, lemma_mul_nonnegative, lemma_mul_upper_bound};

/// Fixed-point scale of every color channel and of fade progress:
/// the integer `v` stands for the real number `v / UNIT`.
pub const UNIT: u32 = 65535;

/// Gamma-encoded channel form; each field lies in `[0, UNIT]`.
#[derive(Clone, Copy, Debug, PartialEq, Eq, Structural)]
pub struct Rgba {
    pub r: u32,
    pub g: u32,
    pub b: u32,
    pub a: u32,
}

/// Hue/saturation/lightness/alpha form; each field lies in `[0, UNIT]`.
/// The hue is the fraction of a full turn, not degrees.
#[derive(Clone, Copy, Debug, PartialEq, Eq, Structural)]
pub struct Hsla {
    pub h: u32,
    pub s: u32,
    pub l: u32,
    pub a: u32,
}

/// A color value carrying both representations at once. They are computed
/// together at construction (from hexadecimal text, or as the result of
/// interpolation) and never diverge: see [`Color::wf`].
#[derive(Clone, Copy, Debug, PartialEq, Eq, Structural)]
pub struct Color {
    pub rgba: Rgba,
    pub hsla: Hsla,
}

pub open spec fn in_unit(x: int) -> bool {
    0 <= x <= UNIT
}

impl Rgba {
    pub open spec fn wf(self) -> bool {
        in_unit(self.r as int) && in_unit(self.g as int) && in_unit(self.b as int) && in_unit(
            self.a as int,
        )
    }
}

impl Hsla {
    pub open spec fn wf(self) -> bool {
        in_unit(self.h as int) && in_unit(self.s as int) && in_unit(self.l as int) && in_unit(
            self.a as int,
        )
    }
}

pub open spec fn max3(a: int, b: int, c: int) -> int {
    if a >= b && a >= c {
        a
    } else if b >= c {
        b
    } else {
        c
    }
}

pub open spec fn min3(a: int, b: int, c: int) -> int {
    if a <= b && a <= c {
        a
    } else if b <= c {
        b
    } else {
        c
    }
}

/// Hue of a gamma-encoded color, measured in sixths of a turn at scale
/// `UNIT`, i.e. a value in `[0, 6 * UNIT)`. The numerators are shifted by a
/// multiple of `6 * delta * UNIT` so that they are never negative.
pub open spec fn spec_hue6(r: int, g: int, b: int) -> int {
    let mx = max3(r, g, b);
    let mn = min3(r, g, b);
    let d = mx - mn;
    if d == 0 {
        0
    } else if mx == r {
        ((g * UNIT + 6 * d * UNIT - b * UNIT) / d) % (6 * UNIT)
    } else if mx == g {
        (b * UNIT + 2 * d * UNIT - r * UNIT) / d
    } else {
        (r * UNIT + 4 * d * UNIT - g * UNIT) / d
    }
}

/// Hue as a fraction of a turn at scale `UNIT`.
pub open spec fn spec_hue(r: int, g: int, b: int) -> int {
    spec_hue6(r, g, b) / 6
}

/// Saturation at scale `UNIT`.
pub open spec fn spec_sat(r: int, g: int, b: int) -> int {
    let mx = max3(r, g, b);
    let mn = min3(r, g, b);
    let d = mx - mn;
    if d == 0 {
        0
    } else if mx + mn <= UNIT {
        d * UNIT / (mx + mn)
    } else {
        d * UNIT / (2 * UNIT - mx - mn)
    }
}

/// Lightness at scale `UNIT`.
pub open spec fn spec_light(r: int, g: int, b: int) -> int {
    (max3(r, g, b) + min3(r, g, b)) / 2
}

/// The hue/saturation/lightness form computed from the channel form,
/// carrying the alpha over unchanged.
pub open spec fn hsla_of_rgba(c: Rgba) -> Hsla {
    Hsla {
        h: spec_hue(c.r as int, c.g as int, c.b as int) as u32,
        s: spec_sat(c.r as int, c.g as int, c.b as int) as u32,
        l: spec_light(c.r as int, c.g as int, c.b as int) as u32,
        a: c.a,
    }
}

/// Chroma of a hue/saturation/lightness triple, at scale `UNIT`.
pub open spec fn spec_chroma(s: int, l: int) -> int {
    if 2 * l <= UNIT {
        2 * l * s / (UNIT as int)
    } else {
        (2 * UNIT - 2 * l) * s / (UNIT as int)
    }
}

/// Second-largest component of the hue segment, at scale `UNIT`.
pub open spec fn spec_hue_x(h: int, s: int, l: int) -> int {
    let c = spec_chroma(s, l);
    let hmod = (6 * h) % (2 * UNIT);
    if hmod <= UNIT {
        c * hmod / (UNIT as int)
    } else {
        c * (2 * UNIT - hmod) / (UNIT as int)
    }
}

/// Offset added to every channel, at scale `UNIT`.
pub open spec fn spec_hue_m(s: int, l: int) -> int {
    l - spec_chroma(s, l) / 2
}

/// The gamma-encoded channel triple computed from a hue/saturation/lightness
/// triple, by the usual six hue segments.
pub open spec fn rgb_of_hsl(h: int, s: int, l: int) -> (int, int, int) {
    let c = spec_chroma(s, l);
    let x = spec_hue_x(h, s, l);
    let m = spec_hue_m(s, l);
    let seg = (6 * h / (UNIT as int)) % 6;
    if seg == 0 {
        (c + m, x + m, m)
    } else if seg == 1 {
        (x + m, c + m, m)
    } else if seg == 2 {
        (m, c + m, x + m)
    } else if seg == 3 {
        (m, x + m, c + m)
    } else if seg == 4 {
        (x + m, m, c + m)
    } else {
        (c + m, m, x + m)
    }
}

/// The channel form computed from the hue/saturation/lightness form,
/// carrying the alpha over unchanged.
pub open spec fn rgba_of_hsla(c: Hsla) -> Rgba {
    let (r, g, b) = rgb_of_hsl(c.h as int, c.s as int, c.l as int);
    Rgba { r: r as u32, g: g as u32, b: b as u32, a: c.a }
}

impl Color {
    /// Well-formedness: all channels in range, one shared alpha, and the two
    /// representations consistent — one of them was computed from the other.
    pub open spec fn wf(self) -> bool {
        &&& self.rgba.wf()
        &&& self.hsla.wf()
        &&& self.rgba.a == self.hsla.a
        &&& (self.hsla == hsla_of_rgba(self.rgba) || self.rgba == rgba_of_hsla(self.hsla))
    }

    /// A color whose hue/saturation/lightness form was computed from its
    /// channel form (the parser builds such colors).
    pub open spec fn is_rgba_primary(self) -> bool {
        self.hsla == hsla_of_rgba(self.rgba)
    }

    /// A color whose channel form was computed from its
    /// hue/saturation/lightness form (interpolation builds such colors).
    pub open spec fn is_hsla_primary(self) -> bool {
        self.rgba == rgba_of_hsla(self.hsla)
    }
}

/// The hue, saturation and lightness of an in-range channel triple are
/// themselves in range (and the raw hue in sixths stays under a full turn).
pub proof fn lemma_hsl_in_range(r: int, g: int, b: int)
    requires
        in_unit(r),
        in_unit(g),
        in_unit(b),
    ensures
        0 <= spec_hue6(r, g, b) < 6 * UNIT,
        in_unit(spec_hue(r, g, b)),
        in_unit(spec_sat(r, g, b)),
        in_unit(spec_light(r, g, b)),
{
    let mx = max3(r, g, b);
    let mn = min3(r, g, b);
    let d = mx - mn;
    if d != 0 {
        // Saturation: the numerator d * UNIT never exceeds denom * UNIT.
        let denom = if mx + mn <= UNIT {
            mx + mn
        } else {
            2 * UNIT - mx - mn
        };
        assert(0 < denom && d <= denom);
        lemma_mul_inequality(d, denom, UNIT as int);
        assert(denom * (UNIT as int) == (UNIT as int) * denom) by (nonlinear_arith);
        lemma_multiply_divide_le(d * UNIT, denom, UNIT as int);
        lemma_div_pos_is_pos(d * UNIT, denom);
        // Hue: each branch's shifted numerator lies between d*UNIT-multiples.
        if mx == r {
            lemma_mod_division_less_than_divisor(
                (g * UNIT + 6 * d * UNIT - b * UNIT) / d,
                6 * UNIT,
            );
        } else if mx == g {
            let num = b * UNIT + 2 * d * UNIT - r * UNIT;
            assert(d * UNIT <= num && num <= d * (3 * UNIT)) by (nonlinear_arith)
                requires
                    num == b * UNIT + 2 * d * UNIT - r * UNIT,
                    mn <= b <= mx,
                    mn <= r <= mx,
                    d == mx - mn,
            ;
            lemma_div_is_ordered(d * UNIT, num, d);
            lemma_div_multiples_vanish(UNIT as int, d);
            lemma_multiply_divide_le(num, d, 3 * UNIT);
        } else {
            let num = r * UNIT + 4 * d * UNIT - g * UNIT;
            assert(d * (3 * UNIT) <= num && num <= d * (5 * UNIT)) by (nonlinear_arith)
                requires
                    num == r * UNIT + 4 * d * UNIT - g * UNIT,
                    mn <= r <= mx,
                    mn <= g <= mx,
                    d == mx - mn,
            ;
            lemma_div_pos_is_pos(num, d);
            lemma_multiply_divide_le(num, d, 5 * UNIT);
        }
    }
}

fn max3_exec(a: u32, b: u32, c: u32) -> (m: u32)
    ensures
        m == max3(a as int, b as int, c as int),
{
    if a >= b && a >= c {
        a
    } else if b >= c {
        b
    } else {
        c
    }
}

fn min3_exec(a: u32, b: u32, c: u32) -> (m: u32)
    ensures
        m == min3(a as int, b as int, c as int),
{
    if a <= b && a <= c {
        a
    } else if b <= c {
        b
    } else {
        c
    }
}

/// Compute the hue/saturation/lightness triple of a channel triple.
pub fn rgb_to_hsl(r: u32, g: u32, b: u32) -> (hsl: (u32, u32, u32))
    requires
        in_unit(r as int),
        in_unit(g as int),
        in_unit(b as int),
    ensures
        hsl.0 == spec_hue(r as int, g as int, b as int),
        hsl.1 == spec_sat(r as int, g as int, b as int),
        hsl.2 == spec_light(r as int, g as int, b as int),
        in_unit(hsl.0 as int),
        in_unit(hsl.1 as int),
        in_unit(hsl.2 as int),
{
    proof {
        lemma_hsl_in_range(r as int, g as int, b as int);
    }
    let mx: u64 = max3_exec(r, g, b) as u64;
    let mn: u64 = min3_exec(r, g, b) as u64;
    let d: u64 = mx - mn;
    let u: u64 = UNIT as u64;
    let l: u64 = (mx + mn) / 2;
    if d == 0 {
        (0, 0, l as u32)
    } else {
        let denom: u64 = if mx + mn <= u {
            mx + mn
        } else {
            2 * u - mx - mn
        };
        let s: u64 = d * u / denom;
        let h6: u64 = if mx == r as u64 {
            ((g as u64 * u + 6 * d * u - b as u64 * u) / d) % (6 * u)
        } else if mx == g as u64 {
            (b as u64 * u + 2 * d * u - r as u64 * u) / d
        } else {
            (r as u64 * u + 4 * d * u - g as u64 * u) / d
        };
        let h: u64 = h6 / 6;
        (h as u32, s as u32, l as u32)
    }
}

/// The channel triple computed from an in-range hue/saturation/lightness
/// triple is itself in range.
pub proof fn lemma_rgb_in_range(h: int, s: int, l: int)
    requires
        in_unit(h),
        in_unit(s),
        in_unit(l),
    ensures
        0 <= spec_chroma(s, l) <= UNIT,
        0 <= spec_hue_x(h, s, l) <= spec_chroma(s, l),
        0 <= spec_hue_m(s, l),
        spec_chroma(s, l) + spec_hue_m(s, l) <= UNIT,
        in_unit(rgb_of_hsl(h, s, l).0),
        in_unit(rgb_of_hsl(h, s, l).1),
        in_unit(rgb_of_hsl(h, s, l).2),
{
    let c = spec_chroma(s, l);
    let cbound = if 2 * l <= UNIT {
        2 * l
    } else {
        2 * UNIT - 2 * l
    };
    // c <= cbound <= UNIT, and cbound <= 2 * l in both branches.
    lemma_scaled_product_le(cbound, s);
    assert(0 <= c <= cbound);
    // x <= c: the factor UNIT - |hmod - UNIT| is at most UNIT.
    let hmod = (6 * h) % (2 * UNIT);
    lemma_mod_division_less_than_divisor(6 * h, 2 * UNIT);
    if hmod <= UNIT {
        lemma_scaled_product_le(c, hmod);
    } else {
        lemma_scaled_product_le(c, 2 * UNIT - hmod);
    }
    // m >= 0 and c + m <= UNIT follow linearly from c <= cbound.
    lemma_mod_division_less_than_divisor(6 * h / (UNIT as int), 6);
    lemma_div_pos_is_pos(6 * h, UNIT as int);
}

/// For `a >= 0` and `0 <= b <= UNIT`, the scaled product `a * b / UNIT`
/// stays within `[0, a]`.
proof fn lemma_scaled_product_le(a: int, b: int)
    requires
        0 <= a,
        0 <= b <= UNIT,
    ensures
        0 <= a * b / (UNIT as int) <= a,
{
    lemma_mul_nonnegative(a, b);
    lemma_div_pos_is_pos(a * b, UNIT as int);
    lemma_mul_inequality(b, UNIT as int, a);
    assert(a * b == b * a) by (nonlinear_arith);
    assert((UNIT as int) * a == a * (UNIT as int)) by (nonlinear_arith);
    lemma_multiply_divide_le(a * b, UNIT as int, a);
}

/// Compute the channel triple of a hue/saturation/lightness triple.
pub fn hsl_to_rgb(h: u32, s: u32, l: u32) -> (rgb: (u32, u32, u32))
    requires
        in_unit(h as int),
        in_unit(s as int),
        in_unit(l as int),
    ensures
        rgb.0 == rgb_of_hsl(h as int, s as int, l as int).0,
        rgb.1 == rgb_of_hsl(h as int, s as int, l as int).1,
        rgb.2 == rgb_of_hsl(h as int, s as int, l as int).2,
        in_unit(rgb.0 as int),
        in_unit(rgb.1 as int),
        in_unit(rgb.2 as int),
{
    proof {
        lemma_rgb_in_range(h as int, s as int, l as int);
    }
    let u: u64 = UNIT as u64;
    let cbound: u64 = if 2 * (l as u64) <= u {
        2 * (l as u64)
    } else {
        2 * u - 2 * (l as u64)
    };
    let c: u64 = cbound * (s as u64) / u;
    let hmod: u64 = (6 * (h as u64)) % (2 * u);
    let q: u64 = if hmod <= u {
        hmod
    } else {
        2 * u - hmod
    };
    let x: u64 = c * q / u;
    let m: u64 = (l as u64) - c / 2;
    let seg: u64 = (6 * (h as u64) / u) % 6;
    let (r1, g1, b1): (u64, u64, u64) = if seg == 0 {
        (c + m, x + m, m)
    } else if seg == 1 {
        (x + m, c + m, m)
    } else if seg == 2 {
        (m, c + m, x + m)
    } else if seg == 3 {
        (m, x + m, c + m)
    } else if seg == 4 {
        (x + m, m, c + m)
    } else {
        (c + m, m, x + m)
    };
    (r1 as u32, g1 as u32, b1 as u32)
}

/// Interpolation position clamped to `[0, UNIT]`: values outside the range
/// never extrapolate.
pub open spec fn spec_clamp(t: int) -> int {
    if t < 0 {
        0
    } else if t > UNIT {
        UNIT as int
    } else {
        t
    }
}

/// Linear interpolation of one channel at position `t` in `[0, UNIT]`,
/// in the form `(a * (UNIT - t) + b * t) / UNIT`, which is exact at both
/// endpoints and for equal channels.
pub open spec fn spec_lerp(a: int, b: int, t: int) -> int {
    (a * (UNIT - t) + b * t) / (UNIT as int)
}

/// `v` lies inclusively between `x` and `y`, whichever order those stand
/// in.
pub open spec fn channel_between(x: int, y: int, v: int) -> bool {
    if x <= y {
        x <= v <= y
    } else {
        y <= v <= x
    }
}

/// An interpolated channel stays inside `[min(a, b), max(a, b)]`.
pub proof fn lemma_lerp_between(a: int, b: int, t: int)
    requires
        in_unit(a),
        in_unit(b),
        0 <= t <= UNIT,
    ensures
        a <= b ==> a <= spec_lerp(a, b, t) <= b,
        b <= a ==> b <= spec_lerp(a, b, t) <= a,
        in_unit(spec_lerp(a, b, t)),
{
    let num = a * (UNIT - t) + b * t;
    let lo = if a <= b {
        a
    } else {
        b
    };
    let hi = if a <= b {
        b
    } else {
        a
    };
    assert(lo * UNIT <= num && num <= hi * UNIT) by (nonlinear_arith)
        requires
            num == a * (UNIT - t) + b * t,
            lo <= a <= hi,
            lo <= b <= hi,
            0 <= t <= UNIT,
    ;
    lemma_div_is_ordered(lo * UNIT, num, UNIT as int);
    lemma_div_is_ordered(num, hi * UNIT, UNIT as int);
    lemma_div_by_multiple(lo, UNIT as int);
    lemma_div_by_multiple(hi, UNIT as int);
}

/// Interpolating a channel with itself gives the channel back, exactly, at
/// every position; and the endpoints give the endpoints back, exactly.
pub proof fn lemma_lerp_exact(a: int, b: int, t: int)
    requires
        in_unit(a),
        in_unit(b),
        0 <= t <= UNIT,
    ensures
        spec_lerp(a, a, t) == a,
        spec_lerp(a, b, 0) == a,
        spec_lerp(a, b, UNIT as int) == b,
{
    assert(a * (UNIT - t) + a * t == a * UNIT) by (nonlinear_arith);
    lemma_div_by_multiple(a, UNIT as int);
    lemma_div_by_multiple(b, UNIT as int);
    assert(a * (UNIT - 0) + b * 0 == a * UNIT);
    assert(a * (UNIT - (UNIT as int)) + b * (UNIT as int) == b * UNIT) by (nonlinear_arith);
}

fn lerp_channel(a: u32, b: u32, t: u32) -> (r: u32)
    requires
        in_unit(a as int),
        in_unit(b as int),
        t <= UNIT,
    ensures
        r == spec_lerp(a as int, b as int, t as int),
        in_unit(r as int),
{
    proof {
        lemma_lerp_between(a as int, b as int, t as int);
    }
    let num: u64 = (a as u64) * ((UNIT - t) as u64) + (b as u64) * (t as u64);
    assert(num <= 65535u64 * 65535u64) by (nonlinear_arith)
        requires
            num == (a as int) * (UNIT - t) + (b as int) * (t as int),
            a <= 65535,
            b <= 65535,
            t <= 65535,
    ;
    (num / (UNIT as u64)) as u32
}

/// The hue/saturation/lightness form of colors interpolated at a clamped
/// position: each of the four fields is interpolated independently.
pub open spec fn spec_lerp_hsla(x: Hsla, y: Hsla, tc: int) -> Hsla {
    Hsla {
        h: spec_lerp(x.h as int, y.h as int, tc) as u32,
        s: spec_lerp(x.s as int, y.s as int, tc) as u32,
        l: spec_lerp(x.l as int, y.l as int, tc) as u32,
        a: spec_lerp(x.a as int, y.a as int, tc) as u32,
    }
}

/// Color interpolation: clamp `t` to `[0, UNIT]`, interpolate hue,
/// saturation, lightness and alpha independently (the hue as a plain
/// scalar, not circularly), then recompute the gamma-encoded channel form
/// from the interpolated values.
pub open spec fn spec_lerp_color(a: Color, b: Color, t: int) -> Color {
    let hsla = spec_lerp_hsla(a.hsla, b.hsla, spec_clamp(t));
    Color { rgba: rgba_of_hsla(hsla), hsla }
}

/// Linearly interpolate two colors at position `t` (at scale `UNIT`; values
/// outside `[0, UNIT]` are clamped, never extrapolated).
pub fn lerp_color(a: Color, b: Color, t: i64) -> (r: Color)
    requires
        a.wf(),
        b.wf(),
    ensures
        r == spec_lerp_color(a, b, t as int),
        r.wf(),
        r.is_hsla_primary(),
{
    let tc: u32 = if t < 0 {
        0
    } else if t > UNIT as i64 {
        UNIT
    } else {
        t as u32
    };
    let h = lerp_channel(a.hsla.h, b.hsla.h, tc);
    let s = lerp_channel(a.hsla.s, b.hsla.s, tc);
    let l = lerp_channel(a.hsla.l, b.hsla.l, tc);
    let alpha = lerp_channel(a.hsla.a, b.hsla.a, tc);
    let (cr, cg, cb) = hsl_to_rgb(h, s, l);
    Color { rgba: Rgba { r: cr, g: cg, b: cb, a: alpha }, hsla: Hsla { h, s, l, a: alpha } }
}

/// Interpolating a color with itself changes nothing: the
/// hue/saturation/lightness form is returned exactly, and for a color whose
/// channel form was computed from that form, the whole color is returned
/// exactly, at every position `t`.
pub proof fn lemma_lerp_color_identity(a: Color, t: int)
    requires
        a.wf(),
    ensures
        spec_lerp_color(a, a, t).hsla == a.hsla,
        a.is_hsla_primary() ==> spec_lerp_color(a, a, t) == a,
{
    let tc = spec_clamp(t);
    lemma_lerp_exact(a.hsla.h as int, a.hsla.h as int, tc);
    lemma_lerp_exact(a.hsla.s as int, a.hsla.s as int, tc);
    lemma_lerp_exact(a.hsla.l as int, a.hsla.l as int, tc);
    lemma_lerp_exact(a.hsla.a as int, a.hsla.a as int, tc);
}

/// Interpolation at position `0` gives the first color back and at position
/// `UNIT` the second, exactly in the hue/saturation/lightness form, and
/// exactly as a whole for colors whose channel form was computed from it.
pub proof fn lemma_lerp_color_endpoints(a: Color, b: Color)
    requires
        a.wf(),
        b.wf(),
    ensures
        spec_lerp_color(a, b, 0).hsla == a.hsla,
        a.is_hsla_primary() ==> spec_lerp_color(a, b, 0) == a,
        spec_lerp_color(a, b, UNIT as int).hsla == b.hsla,
        b.is_hsla_primary() ==> spec_lerp_color(a, b, UNIT as int) == b,
{
    lemma_lerp_exact(a.hsla.h as int, b.hsla.h as int, 0);
    lemma_lerp_exact(a.hsla.s as int, b.hsla.s as int, 0);
    lemma_lerp_exact(a.hsla.l as int, b.hsla.l as int, 0);
    lemma_lerp_exact(a.hsla.a as int, b.hsla.a as int, 0);
}

/// Positions outside `[0, UNIT]` never extrapolate: the result equals the
/// result at the clamped position.
pub proof fn lemma_lerp_color_clamps(a: Color, b: Color, t: int)
    ensures
        spec_lerp_color(a, b, t) == spec_lerp_color(a, b, spec_clamp(t)),
{
}

/// The one way parsing a color can fail: the text is not `#RRGGBB` or
/// `#RRGGBBAA` with hexadecimal digits.
#[derive(Clone, Copy, Debug, PartialEq, Eq, Structural)]
pub enum ColorParseError {
    InvalidColorFormat,
}

pub open spec fn is_hex_digit(c: char) -> bool {
    ||| 48 <= c as u32 <= 57
    ||| 97 <= c as u32 <= 102
    ||| 65 <= c as u32 <= 70
}

pub open spec fn hex_digit_val(c: char) -> int {
    if 48 <= c as u32 <= 57 {
        c as u32 - 48
    } else if 97 <= c as u32 <= 102 {
        c as u32 - 87
    } else {
        c as u32 - 55
    }
}

/// The accepted grammar: `#` followed by exactly six or exactly eight
/// hexadecimal digits, in either letter case.
pub open spec fn valid_hex_color(s: Seq<char>) -> bool {
    &&& (s.len() == 7 || s.len() == 9)
    &&& s[0] == '#'
    &&& forall|i: int| 1 <= i < s.len() ==> is_hex_digit(#[trigger] s[i])
}

/// The byte written at positions `i`, `i + 1`, in `[0, 255]`.
pub open spec fn spec_hex_byte(s: Seq<char>, i: int) -> int {
    hex_digit_val(s[i]) * 16 + hex_digit_val(s[i + 1])
}

/// A parsed channel: the byte scaled from `[0, 255]` onto `[0, UNIT]`
/// (the scale factor 257 maps 255 to `UNIT` exactly).
pub open spec fn spec_channel(s: Seq<char>, i: int) -> int {
    spec_hex_byte(s, i) * 257
}

/// The channel form a valid hexadecimal color denotes; a missing alpha
/// pair means fully opaque.
pub open spec fn spec_parse_rgba(s: Seq<char>) -> Rgba {
    Rgba {
        r: spec_channel(s, 1) as u32,
        g: spec_channel(s, 3) as u32,
        b: spec_channel(s, 5) as u32,
        a: if s.len() == 9 {
            spec_channel(s, 7) as u32
        } else {
            UNIT
        },
    }
}

/// The color a valid hexadecimal color denotes: the channel form together
/// with the hue/saturation/lightness form computed from it.
pub open spec fn spec_parse_color(s: Seq<char>) -> Color {
    let rgba = spec_parse_rgba(s);
    Color { rgba, hsla: hsla_of_rgba(rgba) }
}

fn hex_digit(c: char) -> (r: Option<u8>)
    ensures
        r is Some <==> is_hex_digit(c),
        is_hex_digit(c) ==> r == Some(hex_digit_val(c) as u8) && hex_digit_val(c) < 16,
{
    let code: u32 = c as u32;
    if code >= 48 && code <= 57 {
        Some((code - 48) as u8)
    } else if code >= 97 && code <= 102 {
        Some((code - 87) as u8)
    } else if code >= 65 && code <= 70 {
        Some((code - 55) as u8)
    } else {
        None
    }
}

fn channel_at(s: &str, i: usize) -> (v: u32)
    requires
        i + 1 < s@.len() <= usize::MAX,
        is_hex_digit(s@[i as int]),
        is_hex_digit(s@[i as int + 1]),
    ensures
        v == spec_channel(s@, i as int),
        in_unit(v as int),
{
    let hi = hex_digit(s.get_char(i)).unwrap();
    let lo = hex_digit(s.get_char(i + 1)).unwrap();
    (hi as u32 * 16 + lo as u32) * 257
}

impl Color {
    /// Parse `#RRGGBB` or `#RRGGBBAA` (hexadecimal digits of either letter
    /// case); a missing alpha pair means fully opaque. Exactly the texts of
    /// that shape are accepted.
    pub fn from_str(s: &str) -> (res: Result<Color, ColorParseError>)
        ensures
            res is Ok <==> valid_hex_color(s@),
            valid_hex_color(s@) ==> res == Ok::<Color, ColorParseError>(spec_parse_color(s@))
                && spec_parse_color(s@).wf() && spec_parse_color(s@).is_rgba_primary(),
            !valid_hex_color(s@) ==> res == Err::<Color, ColorParseError>(
                ColorParseError::InvalidColorFormat,
            ),
    {
        let n = s.unicode_len();
        if n != 7 && n != 9 {
            return Err(ColorParseError::InvalidColorFormat);
        }
        if s.get_char(0) != '#' {
            return Err(ColorParseError::InvalidColorFormat);
        }
        let mut i: usize = 1;
        while i < n
            invariant
                1 <= i <= n,
                n == s@.len(),
                n == 7 || n == 9,
                s@[0] == '#',
                forall|j: int| 1 <= j < i ==> is_hex_digit(#[trigger] s@[j]),
            decreases n - i,
        {
            if hex_digit(s.get_char(i)).is_none() {
                return Err(ColorParseError::InvalidColorFormat);
            }
            i = i + 1;
        }
        let cr = channel_at(s, 1);
        let cg = channel_at(s, 3);
        let cb = channel_at(s, 5);
        let ca = if n == 9 {
            channel_at(s, 7)
        } else {
            UNIT
        };
        proof {
            lemma_hsl_in_range(cr as int, cg as int, cb as int);
        }
        let (h, sat, l) = rgb_to_hsl(cr, cg, cb);
        Ok(Color { rgba: Rgba { r: cr, g: cg, b: cb, a: ca }, hsla: Hsla { h, s: sat, l, a: ca } })
    }
}

/// The fallback color handed out for a style key whose text failed to
/// parse: fully opaque magenta.
pub open spec fn spec_default_color() -> Color {
    let rgba = Rgba { r: UNIT, g: 0, b: UNIT, a: UNIT };
    Color { rgba, hsla: hsla_of_rgba(rgba) }
}

impl Default for Color {
    /// The fallback color, with its hue/saturation/lightness form computed
    /// from the channel form.
    fn default() -> (c: Color)
        ensures
            c == spec_default_color(),
            c.wf(),
            c.is_rgba_primary(),
    {
        proof {
            lemma_hsl_in_range(UNIT as int, 0, UNIT as int);
        }
        let (h, s, l) = rgb_to_hsl(UNIT, 0, UNIT);
        Color { rgba: Rgba { r: UNIT, g: 0, b: UNIT, a: UNIT }, hsla: Hsla { h, s, l, a: UNIT } }
    }
}

} // verus!
