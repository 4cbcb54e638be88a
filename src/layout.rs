//! Letterbox geometry in exact integer arithmetic.
//!
//! A layer of target size `(tw, th)` is shown on a screen of size `(sw, sh)`
//! at the uniform scale `min(sw / tw, sh / th)` and centred. The scale is the
//! fraction `num / den`, where `(num, den)` is `(sw, tw)` or `(sh, th)`; every
//! other quantity is a fraction over it as well, so nothing is rounded until
//! the cursor is floored into a layer pixel.
use vstd::arithmetic::div_mod::{lemma_fundamental_div_mod, lemma_fundamental_div_mod_converse};
use vstd::prelude::*;

verus! {

/// A size in pixels.
#[derive(Clone, Copy, Debug, PartialEq, Eq, Structural)]
pub struct Resolution {
    pub width: u32,
    pub height: u32,
}

/// A non-negative fraction `num / den`.
#[derive(Clone, Copy, Debug, PartialEq, Eq, Structural)]
pub struct Fraction {
    pub num: u64,
    pub den: u64,
}

impl Fraction {
    /// The denominator is positive.
    pub open spec fn wf(self) -> bool {
        self.den > 0
    }
}

/// The uniform scale-to-fit factor `num / den`.
#[derive(Clone, Copy, Debug, PartialEq, Eq, Structural)]
pub struct Scale {
    pub num: u32,
    pub den: u32,
}

/// Where and how large a layer's image lands on the screen. Each fraction
/// has the denominator that the exact value needs.
#[derive(Clone, Copy, Debug, PartialEq, Eq, Structural)]
pub struct Placement {
    pub scale: Scale,
    pub offset_x: Fraction,
    pub offset_y: Fraction,
    pub width: Fraction,
    pub height: Fraction,
}

/// A cursor position in a layer's own pixels.
#[derive(Clone, Copy, Debug, Default, PartialEq, Eq, Structural)]
pub struct MousePosition {
    pub x: i32,
    pub y: i32,
}

/// The horizontal fit `sw / tw` is the smaller (or equal) one.
pub open spec fn fits_width(target: Resolution, screen: Resolution) -> bool {
    screen.width * target.height <= screen.height * target.width
}

/// `min(sw / tw, sh / th)`, as the pair of the chosen axis.
pub open spec fn scale_spec(target: Resolution, screen: Resolution) -> Scale {
    if fits_width(target, screen) {
        Scale { num: screen.width, den: target.width }
    } else {
        Scale { num: screen.height, den: target.height }
    }
}

/// Numerator over `2 * den` of the centring offset `(s - t * scale) / 2` on an
/// axis with screen extent `s` and target extent `t`.
pub open spec fn offset_num(s: int, t: int, scale: Scale) -> int {
    scale.den * s - scale.num * t
}

/// `floor((raw - offset) / scale)` on one axis: the layer pixel under the
/// physical coordinate `raw`.
pub open spec fn layer_coord(raw: int, s: int, t: int, scale: Scale) -> int {
    (2 * scale.den * raw - offset_num(s, t, scale)) / (2 * scale.num as int)
}

/// `v` saturated to the range of `i32`.
pub open spec fn clamp_i32(v: int) -> i32 {
    if v < i32::MIN {
        i32::MIN
    } else if v > i32::MAX {
        i32::MAX
    } else {
        v as i32
    }
}

/// The layer pixel under the physical cursor `(cx, cy)`, each coordinate
/// saturated to `i32`. Coordinates outside the layer are kept as they are.
pub open spec fn cursor_spec(target: Resolution, screen: Resolution, cx: int, cy: int) -> MousePosition {
    let k = scale_spec(target, screen);
    MousePosition {
        x: clamp_i32(layer_coord(cx, screen.width as int, target.width as int, k)),
        y: clamp_i32(layer_coord(cy, screen.height as int, target.height as int, k)),
    }
}

/// The exact placement of a layer of size `target` on `screen`.
pub open spec fn placement_spec(target: Resolution, screen: Resolution) -> Placement {
    let scale = scale_spec(target, screen);
    Placement {
        scale,
        offset_x: Fraction {
            num: offset_num(screen.width as int, target.width as int, scale) as u64,
            den: (2 * scale.den) as u64,
        },
        offset_y: Fraction {
            num: offset_num(screen.height as int, target.height as int, scale) as u64,
            den: (2 * scale.den) as u64,
        },
        width: Fraction { num: (target.width * scale.num) as u64, den: scale.den as u64 },
        height: Fraction { num: (target.height * scale.num) as u64, den: scale.den as u64 },
    }
}

/// A product of two values in `[0, ma]` and `[0, mb]` lies in `[0, ma * mb]`.
proof fn lemma_mul_bounded(a: int, b: int, ma: int, mb: int)
    requires
        0 <= a <= ma,
        0 <= b <= mb,
    ensures
        0 <= a * b <= ma * mb,
{
    assert(0 <= a * b <= ma * mb) by (nonlinear_arith)
        requires 0 <= a <= ma, 0 <= b <= mb;
}

/// The scale is `min(sw / tw, sh / th)`: it is one of the two ratios and no
/// larger than either, so the scaled image fits inside the screen and both
/// centring offsets are non-negative.
pub proof fn lemma_scale_fits(target: Resolution, screen: Resolution)
    requires
        target.width > 0,
        target.height > 0,
    ensures
        ({
            let k = scale_spec(target, screen);
            &&& k.den > 0
            &&& (k == Scale { num: screen.width, den: target.width }
                || k == Scale { num: screen.height, den: target.height })
            &&& k.num * target.width <= screen.width * k.den
            &&& k.num * target.height <= screen.height * k.den
            &&& offset_num(screen.width as int, target.width as int, k) >= 0
            &&& offset_num(screen.height as int, target.height as int, k) >= 0
        }),
{
    let (tw, th, sw, sh) = (target.width as int, target.height as int, screen.width as int, screen.height as int);
    let k = scale_spec(target, screen);
    if fits_width(target, screen) {
        assert(sw * th <= sh * tw);
        assert(offset_num(sw, tw, k) == 0) by (nonlinear_arith)
            requires k.den == tw, k.num == sw, offset_num(sw, tw, k) == k.den * sw - k.num * tw;
        assert(offset_num(sh, th, k) == sh * tw - sw * th) by (nonlinear_arith)
            requires k.den == tw, k.num == sw, offset_num(sh, th, k) == k.den * sh - k.num * th;
    } else {
        assert(sh * tw < sw * th);
        assert(offset_num(sh, th, k) == 0) by (nonlinear_arith)
            requires k.den == th, k.num == sh, offset_num(sh, th, k) == k.den * sh - k.num * th;
        assert(offset_num(sw, tw, k) == sw * th - sh * tw) by (nonlinear_arith)
            requires k.den == th, k.num == sh, offset_num(sw, tw, k) == k.den * sw - k.num * tw;
    }
}

/// The physical pixel that holds the image of the layer coordinate `l` on an
/// axis: `floor(l * scale + offset)`.
pub open spec fn screen_pixel(l: int, s: int, t: int, k: Scale) -> int {
    (2 * k.num * l + offset_num(s, t, k)) / (2 * k.den as int)
}

/// Mapping a layer coordinate to its physical pixel and back recovers it up
/// to one pixel, on any axis shown at a scale of at least one; where the image
/// of the coordinate falls exactly on a pixel, it is recovered exactly.
pub proof fn lemma_axis_round_trip(l: int, s: int, t: int, k: Scale)
    requires
        k.num >= k.den > 0,
    ensures
        l - 1 <= layer_coord(screen_pixel(l, s, t, k), s, t, k) <= l,
        (2 * k.num * l + offset_num(s, t, k)) % (2 * k.den as int) == 0
            ==> layer_coord(screen_pixel(l, s, t, k), s, t, k) == l,
{
    let n = k.num as int;
    let d = k.den as int;
    let off = offset_num(s, t, k);
    let p = 2 * n * l + off;
    let raw = screen_pixel(l, s, t, k);
    lemma_fundamental_div_mod(p, 2 * d);
    let rp = p % (2 * d);
    assert(2 * d * raw == p - rp);
    let v = 2 * d * raw - off;
    assert(v == 2 * n * l - rp);
    let c = layer_coord(raw, s, t, k);
    assert(c == v / (2 * n));
    lemma_fundamental_div_mod(v, 2 * n);
    let rv = v % (2 * n);
    assert(2 * n * c + rv == v);
    assert(c <= l) by (nonlinear_arith)
        requires 2 * n * c + rv == 2 * n * l - rp, 0 <= rv, 0 <= rp, n > 0;
    assert(c >= l - 1) by (nonlinear_arith)
        requires 2 * n * c + rv == 2 * n * l - rp, rv < 2 * n, rp < 2 * d, d <= n, n > 0;
    if rp == 0 {
        assert(c == l) by (nonlinear_arith)
            requires 2 * n * c + rv == 2 * n * l, 0 <= rv < 2 * n, n > 0;
    }
}

/// Round trip of a layer point `(lx, ly)` inside the layer: its physical pixel
/// maps back to within one pixel of it on each axis, when the layer is shown
/// at a scale of at least one.
pub proof fn lemma_round_trip(target: Resolution, screen: Resolution, lx: int, ly: int)
    requires
        target.width > 0,
        target.height > 0,
        0 <= lx < target.width,
        0 <= ly < target.height,
        scale_spec(target, screen).num >= scale_spec(target, screen).den,
    ensures
        ({
            let k = scale_spec(target, screen);
            let (sw, sh, tw, th) = (screen.width as int, screen.height as int, target.width as int, target.height as int);
            &&& lx - 1 <= layer_coord(screen_pixel(lx, sw, tw, k), sw, tw, k) <= lx
            &&& ly - 1 <= layer_coord(screen_pixel(ly, sh, th, k), sh, th, k) <= ly
        }),
{
    let k = scale_spec(target, screen);
    lemma_axis_round_trip(lx, screen.width as int, target.width as int, k);
    lemma_axis_round_trip(ly, screen.height as int, target.height as int, k);
}

/// The scale-to-fit factor `min(sw / tw, sh / th)`.
pub fn fit_scale(target: Resolution, screen: Resolution) -> (r: Scale)
    requires
        target.width > 0,
        target.height > 0,
    ensures
        r == scale_spec(target, screen),
        r.den > 0,
        r.num == 0 <==> (screen.width == 0 || screen.height == 0),
{
    proof {
        lemma_mul_bounded(screen.width as int, target.height as int, u32::MAX as int, u32::MAX as int);
        lemma_mul_bounded(screen.height as int, target.width as int, u32::MAX as int, u32::MAX as int);
    }
    let horizontal = screen.width as u64 * target.height as u64;
    let vertical = screen.height as u64 * target.width as u64;
    proof {
        if screen.width > 0 {
            assert(screen.width * target.height > 0) by (nonlinear_arith)
                requires screen.width > 0, target.height > 0;
        }
        if screen.height > 0 {
            assert(screen.height * target.width > 0) by (nonlinear_arith)
                requires screen.height > 0, target.width > 0;
        }
        if screen.width == 0 {
            assert(screen.width * target.height == 0) by (nonlinear_arith)
                requires screen.width == 0;
        }
        if screen.height == 0 {
            assert(screen.height * target.width == 0) by (nonlinear_arith)
                requires screen.height == 0;
        }
    }
    if horizontal <= vertical {
        Scale { num: screen.width, den: target.width }
    } else {
        Scale { num: screen.height, den: target.height }
    }
}

/// The letterboxed placement of a layer of size `target` on `screen`: the
/// scale-to-fit factor, the centring offsets and the scaled size.
pub fn letterbox(target: Resolution, screen: Resolution) -> (r: Placement)
    requires
        target.width > 0,
        target.height > 0,
    ensures
        r == placement_spec(target, screen),
        r.offset_x.wf(),
        r.offset_y.wf(),
        r.width.wf(),
        r.height.wf(),
{
    let k = fit_scale(target, screen);
    proof {
        lemma_scale_fits(target, screen);
        let m = u32::MAX as int;
        lemma_mul_bounded(k.den as int, screen.width as int, m, m);
        lemma_mul_bounded(k.den as int, screen.height as int, m, m);
        lemma_mul_bounded(k.num as int, target.width as int, m, m);
        lemma_mul_bounded(k.num as int, target.height as int, m, m);
    }
    let den = k.den as u64;
    let num = k.num as u64;
    Placement {
        scale: k,
        offset_x: Fraction {
            num: den * screen.width as u64 - num * target.width as u64,
            den: 2 * den,
        },
        offset_y: Fraction {
            num: den * screen.height as u64 - num * target.height as u64,
            den: 2 * den,
        },
        width: Fraction { num: num * target.width as u64, den },
        height: Fraction { num: num * target.height as u64, den },
    }
}

/// `floor(n / d)` for a positive divisor.
fn floor_div(n: i128, d: i128) -> (r: i128)
    requires
        d > 0,
        n > i128::MIN,
    ensures
        r == n / d,
{
    if n >= 0 {
        ((n as u128) / (d as u128)) as i128
    } else {
        let x = (-n - 1) as u128;
        let m = x / (d as u128);
        proof {
            lemma_fundamental_div_mod(x as int, d as int);
            let rr = (x as int) % (d as int);
            assert(n == (-(m as int) - 1) * d + (d - rr - 1)) by (nonlinear_arith)
                requires
                    x == -n - 1,
                    x as int == d * m + rr;
            lemma_fundamental_div_mod_converse(n as int, d as int, -(m as int) - 1, d - rr - 1);
        }
        -(m as i128) - 1
    }
}

/// The layer pixel on one axis under the physical coordinate `raw`, for a
/// screen extent `screen_extent` and a target extent `target_extent` shown at
/// `scale`, saturated to `i32`.
pub fn layer_coordinate(raw: i32, screen_extent: u32, target_extent: u32, scale: Scale) -> (r: i32)
    requires
        scale.num > 0,
        scale.den > 0,
    ensures
        r == clamp_i32(layer_coord(raw as int, screen_extent as int, target_extent as int, scale)),
{
    proof {
        let m = u32::MAX as int;
        lemma_mul_bounded(scale.den as int, screen_extent as int, m, m);
        lemma_mul_bounded(scale.num as int, target_extent as int, m, m);
        let a = if raw >= 0 { raw as int } else { -raw };
        lemma_mul_bounded(2 * scale.den, a, 2 * m, 0x8000_0000);
        assert(2 * scale.den * raw == 2 * scale.den * a || 2 * scale.den * raw == -(2 * scale.den * a)) by (nonlinear_arith)
            requires a == raw || a == -raw;
    }
    let den = scale.den as i128;
    let num = scale.num as i128;
    let n = 2 * den * raw as i128 - (den * screen_extent as i128 - num * target_extent as i128);
    let q = floor_div(n, 2 * num);
    if q < i32::MIN as i128 {
        i32::MIN
    } else if q > i32::MAX as i128 {
        i32::MAX
    } else {
        q as i32
    }
}

/// The layer pixel under the physical cursor `(cx, cy)` when a layer of size
/// `target` is letterboxed onto `screen`; `None` while the screen has no area,
/// since then no scale maps back.
pub fn remap_cursor(target: Resolution, screen: Resolution, cx: i32, cy: i32) -> (r: Option<MousePosition>)
    requires
        target.width > 0,
        target.height > 0,
    ensures
        (screen.width == 0 || screen.height == 0) ==> r is None,
        (screen.width > 0 && screen.height > 0) ==> r == Some(cursor_spec(target, screen, cx as int, cy as int)),
{
    let k = fit_scale(target, screen);
    if k.num == 0 {
        return None;
    }
    let x = layer_coordinate(cx, screen.width, target.width, k);
    let y = layer_coordinate(cy, screen.height, target.height, k);
    Some(MousePosition { x, y })
}

} // verus!
