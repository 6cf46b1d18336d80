//! Aspect-preserving scaling and display/source coordinate translation.
//!
//! The scale factor is kept as an exact rational `num / den`, so that
//! resizing and coordinate translation are integer arithmetic.

use vstd::arithmetic::div_mod::{
    lemma_div_is_ordered, lemma_div_multiples_vanish, lemma_div_pos_is_pos,
    lemma_multiply_divide_lt,
};
use vstd::arithmetic::mul::{
    lemma_mul_is_commutative, lemma_mul_nonnegative, lemma_mul_strict_inequality,
    lemma_mul_strictly_positive, lemma_mul_unary_negation, lemma_mul_upper_bound,
};
use vstd::prelude::*;

use crate::image::{lemma_row_major_index, Image, ImageView, Pixel, Size};

verus! {

/// An exact scale factor `num / den`.
#[derive(Clone, Copy, Debug, PartialEq, Eq, Structural)]
pub struct Factor {
    pub num: usize,
    pub den: usize,
}

impl Factor {
    pub open spec fn wf(self) -> bool {
        self.den > 0
    }
}

/// `a / b <= c / d` for positive denominators, written as the cross product.
pub open spec fn frac_le(a: int, b: int, c: int, d: int) -> bool {
    a * d <= c * b
}

/// The factor that fits `actual` inside `target`: the smaller of
/// `target.x / actual.x` and `target.y / actual.y`, or one when the source
/// has no extent.
pub open spec fn spec_factor(actual: Size, target: Size) -> Factor {
    if actual.x == 0 || actual.y == 0 {
        Factor { num: 1, den: 1 }
    } else if target.x * actual.y <= target.y * actual.x {
        Factor { num: target.x, den: actual.x }
    } else {
        Factor { num: target.y, den: actual.y }
    }
}

/// The uniform factor by which `actual` is scaled to fit inside `target`,
/// preserving aspect: the minimum of the two per-axis ratios. A source
/// without extent gets factor one.
pub fn resize_factor(actual: Size, target: Size) -> (f: Factor)
    ensures
        f == spec_factor(actual, target),
        f.wf(),
        (actual.x == 0 || actual.y == 0) ==> f == (Factor { num: 1, den: 1 }),
        actual.x > 0 && actual.y > 0 ==> {
            &&& frac_le(f.num as int, f.den as int, target.x as int, actual.x as int)
            &&& frac_le(f.num as int, f.den as int, target.y as int, actual.y as int)
            &&& (f.num == target.x && f.den == actual.x) || (f.num == target.y && f.den
                == actual.y)
        },
{
    if actual.x == 0 || actual.y == 0 {
        return Factor { num: 1, den: 1 };
    }
    proof {
        lemma_mul_upper_bound(target.x as int, u64::MAX as int, actual.y as int, u64::MAX as int);
        lemma_mul_upper_bound(target.y as int, u64::MAX as int, actual.x as int, u64::MAX as int);
    }
    let cross_x: u128 = (target.x as u128) * (actual.y as u128);
    let cross_y: u128 = (target.y as u128) * (actual.x as u128);
    if cross_x <= cross_y {
        Factor { num: target.x, den: actual.x }
    } else {
        Factor { num: target.y, den: actual.y }
    }
}

/// One side of `v` scaled by `f`, rounded down, and at least one.
pub open spec fn spec_scale_dim(v: int, f: Factor) -> int {
    let s = v * f.num / f.den as int;
    if s < 1 {
        1
    } else {
        s
    }
}

fn scale_dim(v: usize, f: Factor) -> (r: usize)
    requires
        f.wf(),
        v as int * f.num as int / f.den as int <= usize::MAX,
    ensures
        r == spec_scale_dim(v as int, f),
{
    proof {
        lemma_mul_upper_bound(v as int, u64::MAX as int, f.num as int, u64::MAX as int);
        lemma_div_pos_is_pos(v as int * f.num as int, f.den as int);
    }
    let p: u128 = (v as u128) * (f.num as u128);
    let q: u128 = p / (f.den as u128);
    if q < 1 {
        1
    } else {
        q as usize
    }
}

/// Division truncating toward zero, as machine division does.
pub open spec fn trunc_div(a: int, b: int) -> int {
    if a >= 0 {
        a / b
    } else {
        -((-a) / b)
    }
}

/// `v` clamped into the machine's signed coordinate range.
pub open spec fn clamp_isize(v: int) -> int {
    if v > isize::MAX {
        isize::MAX as int
    } else if v < isize::MIN {
        isize::MIN as int
    } else {
        v
    }
}

/// A display coordinate divided by the factor: `v * den / num`, truncating
/// toward zero and saturating at the coordinate range. A factor of zero
/// (a target without extent) saturates outright, except at the origin.
pub open spec fn spec_display_to_source(v: int, f: Factor) -> int {
    if f.num == 0 {
        if v > 0 {
            isize::MAX as int
        } else if v < 0 {
            isize::MIN as int
        } else {
            0
        }
    } else {
        clamp_isize(trunc_div(v * f.den, f.num as int))
    }
}

/// A source coordinate multiplied by the factor: `v * num / den`, truncating
/// toward zero and saturating at the coordinate range.
pub open spec fn spec_source_to_display(v: int, f: Factor) -> int {
    clamp_isize(trunc_div(v * f.num, f.den as int))
}

/// Converts a display-space coordinate to source-image space by dividing by
/// the scale factor.
pub fn display_to_source(v: isize, f: Factor) -> (r: isize)
    requires
        f.wf(),
    ensures
        r as int == spec_display_to_source(v as int, f),
{
    if f.num == 0 {
        if v > 0 {
            isize::MAX
        } else if v < 0 {
            isize::MIN
        } else {
            0
        }
    } else if v >= 0 {
        proof {
            lemma_mul_upper_bound(v as int, u64::MAX as int, f.den as int, u64::MAX as int);
            lemma_mul_nonnegative(v as int, f.den as int);
            lemma_div_pos_is_pos(v as int * f.den as int, f.num as int);
        }
        let q: u128 = (v as u128) * (f.den as u128) / (f.num as u128);
        if q > isize::MAX as u128 {
            isize::MAX
        } else {
            q as isize
        }
    } else {
        let m: u128 = (-(v as i128)) as u128;
        proof {
            lemma_mul_upper_bound(m as int, u64::MAX as int, f.den as int, u64::MAX as int);
            lemma_mul_nonnegative(m as int, f.den as int);
            lemma_div_pos_is_pos(m as int * f.den as int, f.num as int);
        }
        let q: u128 = m * (f.den as u128) / (f.num as u128);
        proof {
            lemma_mul_unary_negation(v as int, f.den as int);
            lemma_mul_strictly_positive(m as int, f.den as int);
            assert(trunc_div(v as int * f.den as int, f.num as int) == -(q as int));
        }
        if q > isize::MAX as u128 {
            isize::MIN
        } else {
            -(q as i128) as isize
        }
    }
}

/// Converts a source-image coordinate to display space by multiplying by
/// the scale factor.
pub fn source_to_display(v: isize, f: Factor) -> (r: isize)
    requires
        f.wf(),
    ensures
        r as int == spec_source_to_display(v as int, f),
{
    if v >= 0 {
        proof {
            lemma_mul_upper_bound(v as int, u64::MAX as int, f.num as int, u64::MAX as int);
            lemma_mul_nonnegative(v as int, f.num as int);
            lemma_div_pos_is_pos(v as int * f.num as int, f.den as int);
        }
        let q: u128 = (v as u128) * (f.num as u128) / (f.den as u128);
        if q > isize::MAX as u128 {
            isize::MAX
        } else {
            q as isize
        }
    } else {
        let m: u128 = (-(v as i128)) as u128;
        proof {
            lemma_mul_upper_bound(m as int, u64::MAX as int, f.num as int, u64::MAX as int);
            lemma_mul_nonnegative(m as int, f.num as int);
            lemma_div_pos_is_pos(m as int * f.num as int, f.den as int);
        }
        let q: u128 = m * (f.num as u128) / (f.den as u128);
        proof {
            lemma_mul_unary_negation(v as int, f.num as int);
            lemma_mul_nonnegative(m as int, f.num as int);
            assert(trunc_div(v as int * f.num as int, f.den as int) == -(q as int));
        }
        if q > isize::MAX as u128 {
            isize::MIN
        } else {
            -(q as i128) as isize
        }
    }
}

/// The one-pixel transparent placeholder produced when a resize has nothing
/// to show.
pub open spec fn unit_view() -> ImageView {
    ImageView::filled(1, 1, Pixel::spec_transparent())
}

/// Nearest-neighbour resampling of `v` to `ow` by `oh`: output pixel
/// `(x, y)` reads source pixel `(x * width / ow, y * height / oh)`.
pub open spec fn nearest_view(v: ImageView, ow: int, oh: int) -> ImageView {
    ImageView {
        width: ow as nat,
        height: oh as nat,
        data: Seq::new(
            (ow * oh) as nat,
            |i: int| v.pix((i % ow) * v.width / ow, (i / ow) * v.height / oh),
        ),
    }
}

/// What `resize` returns: the placeholder when either size has no extent,
/// otherwise the nearest-neighbour resampling to the fitted size.
pub open spec fn resize_view(v: ImageView, target: Size) -> ImageView {
    if v.width == 0 || v.height == 0 || target.x == 0 || target.y == 0 {
        unit_view()
    } else {
        let f = spec_factor(Size { x: v.width as usize, y: v.height as usize }, target);
        nearest_view(v, spec_scale_dim(v.width as int, f), spec_scale_dim(v.height as int, f))
    }
}

/// The fitted dimensions stay inside the target rectangle.
proof fn lemma_fit_bounds(actual: Size, target: Size)
    requires
        actual.x > 0,
        actual.y > 0,
        target.x > 0,
        target.y > 0,
    ensures
        ({
            let f = spec_factor(actual, target);
            &&& f.wf()
            &&& 0 <= actual.x as int * f.num as int / f.den as int <= target.x
            &&& 0 <= actual.y as int * f.num as int / f.den as int <= target.y
        }),
{
    let ax = actual.x as int;
    let ay = actual.y as int;
    let tx = target.x as int;
    let ty = target.y as int;
    let f = spec_factor(actual, target);
    lemma_mul_nonnegative(ax, f.num as int);
    lemma_mul_nonnegative(ay, f.num as int);
    lemma_div_pos_is_pos(ax * f.num as int, f.den as int);
    lemma_div_pos_is_pos(ay * f.num as int, f.den as int);
    if tx * ay <= ty * ax {
        // factor is tx / ax; the width scales exactly to tx,
        // and the height to ay * tx / ax <= ty.
        assert(ax * tx / ax == tx) by {
            lemma_mul_is_commutative(ax, tx);
            lemma_div_multiples_vanish(tx, ax);
        }
        assert(ay * tx / ax <= ty) by {
            lemma_mul_is_commutative(ay, tx);
            lemma_mul_is_commutative(ty, ax);
            lemma_div_is_ordered(tx * ay, ty * ax, ax);
            lemma_div_multiples_vanish(ty, ax);
        }
    } else {
        assert(ay * ty / ay == ty) by {
            lemma_mul_is_commutative(ay, ty);
            lemma_div_multiples_vanish(ty, ay);
        }
        assert(ax * ty / ay <= tx) by {
            lemma_mul_is_commutative(ax, ty);
            lemma_mul_is_commutative(tx, ay);
            lemma_div_is_ordered(ty * ax, tx * ay, ay);
            lemma_div_multiples_vanish(tx, ay);
        }
    }
}

/// The resized image is well-formed, at least one pixel on each axis, and
/// no larger than the target on either axis (except that an empty target
/// still yields one pixel).
pub proof fn lemma_resize_bounds(v: ImageView, target: Size)
    requires
        v.wf(),
        target.x <= isize::MAX,
        target.y <= isize::MAX,
    ensures
        ({
            let r = resize_view(v, target);
            &&& r.wf()
            &&& 1 <= r.width
            &&& 1 <= r.height
            &&& r.width <= (if target.x < 1 {
                1int
            } else {
                target.x as int
            })
            &&& r.height <= (if target.y < 1 {
                1int
            } else {
                target.y as int
            })
        }),
{
    let r = resize_view(v, target);
    if v.width == 0 || v.height == 0 || target.x == 0 || target.y == 0 {
        assert(r.data.len() == 1);
    } else {
        let actual = Size { x: v.width as usize, y: v.height as usize };
        lemma_fit_bounds(actual, target);
        let f = spec_factor(actual, target);
        let ow = spec_scale_dim(v.width as int, f);
        let oh = spec_scale_dim(v.height as int, f);
        assert(1 <= ow <= target.x && 1 <= oh <= target.y);
        assert(r.data.len() == (ow * oh) as nat && (ow * oh) as nat == r.width * r.height)
            by (nonlinear_arith)
            requires
                1 <= ow,
                1 <= oh,
                r == nearest_view(v, ow, oh),
        ;
    }
}

/// Scales `source` uniformly by the factor that fits it inside
/// `target_size`, rounding down but keeping at least one pixel on each axis.
/// A source or target without extent yields the one-pixel transparent
/// placeholder.
pub fn resize(source: &Image, target_size: Size) -> (r: Image)
    requires
        source.wf(),
        target_size.x <= isize::MAX,
        target_size.y <= isize::MAX,
        target_size.x * target_size.y <= usize::MAX,
    ensures
        r.wf(),
        r@ == resize_view(source@, target_size),
{
    let sw = source.width();
    let sh = source.height();
    if target_size.x == 0 || target_size.y == 0 || sw == 0 || sh == 0 {
        return Image::new_filled(1, 1, Pixel::transparent());
    }
    let f = resize_factor(source.size(), target_size);
    proof {
        lemma_fit_bounds(Size { x: sw, y: sh }, target_size);
    }
    let ow = scale_dim(sw, f);
    let oh = scale_dim(sh, f);
    proof {
        lemma_mul_upper_bound(ow as int, target_size.x as int, oh as int, target_size.y as int);
    }
    nearest(source, ow, oh)
}

/// Nearest-neighbour resampling to exactly `ow` by `oh` pixels.
fn nearest(source: &Image, ow: usize, oh: usize) -> (r: Image)
    requires
        source.wf(),
        source@.width > 0,
        source@.height > 0,
        0 < ow <= isize::MAX,
        0 < oh <= isize::MAX,
        ow * oh <= usize::MAX,
    ensures
        r.wf(),
        r@ == nearest_view(source@, ow as int, oh as int),
{
    let sw = source.width();
    let sh = source.height();
    let mut data: Vec<Pixel> = Vec::new();
    let mut y: usize = 0;
    while y < oh
        invariant
            source.wf(),
            sw == source@.width,
            sh == source@.height,
            sw > 0,
            sh > 0,
            0 < ow <= isize::MAX,
            0 < oh <= isize::MAX,
            ow * oh <= usize::MAX,
            y <= oh,
            data@.len() == y * ow,
            forall|i: int|
                0 <= i < data@.len() ==> data@[i] == source@.pix(
                    (i % ow as int) * sw / ow as int,
                    (i / ow as int) * sh / oh as int,
                ),
        decreases oh - y,
    {
        let mut x: usize = 0;
        while x < ow
            invariant
                source.wf(),
                sw == source@.width,
                sh == source@.height,
                sw > 0,
                sh > 0,
                0 < ow <= isize::MAX,
                0 < oh <= isize::MAX,
                ow * oh <= usize::MAX,
                y < oh,
                x <= ow,
                data@.len() == y * ow + x,
                forall|i: int|
                    0 <= i < data@.len() ==> data@[i] == source@.pix(
                        (i % ow as int) * sw / ow as int,
                        (i / ow as int) * sh / oh as int,
                    ),
            decreases ow - x,
        {
            proof {
                lemma_row_major_index(ow as nat, oh as nat, x as int, y as int);
                lemma_mul_strict_inequality(x as int, ow as int, sw as int);
                lemma_mul_is_commutative(ow as int, sw as int);
                lemma_multiply_divide_lt(x as int * sw as int, ow as int, sw as int);
                lemma_mul_nonnegative(x as int, sw as int);
                lemma_div_pos_is_pos(x as int * sw as int, ow as int);
                lemma_mul_strict_inequality(y as int, oh as int, sh as int);
                lemma_mul_is_commutative(oh as int, sh as int);
                lemma_multiply_divide_lt(y as int * sh as int, oh as int, sh as int);
                lemma_mul_nonnegative(y as int, sh as int);
                lemma_div_pos_is_pos(y as int * sh as int, oh as int);
                lemma_mul_upper_bound(x as int, u64::MAX as int, sw as int, u64::MAX as int);
                lemma_mul_upper_bound(y as int, u64::MAX as int, sh as int, u64::MAX as int);
            }
            let sx: usize = ((x as u128) * (sw as u128) / (ow as u128)) as usize;
            let sy: usize = ((y as u128) * (sh as u128) / (oh as u128)) as usize;
            let p = source.pixel(sx, sy);
            data.push(p);
            x = x + 1;
        }
        proof {
            assert((y + 1) * ow == y * ow + ow) by (nonlinear_arith);
        }
        y = y + 1;
    }
    let r = Image::from_pixels(ow, oh, data);
    proof {
        assert(oh * ow == ow * oh) by (nonlinear_arith);
        assert(r@.data =~= nearest_view(source@, ow as int, oh as int).data);
    }
    r
}

} // verus!
