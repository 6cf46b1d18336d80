//! Drawing the selection overlay: full-width and full-height lines, drawn by
//! inverting the colour channels so that drawing the same line again erases
//! it.

use vstd::arithmetic::div_mod::{lemma_fundamental_div_mod, lemma_multiply_divide_lt};
use vstd::prelude::*;

use crate::image::{lemma_row_major_index, Image, ImageView, Pixel};

verus! {

/// The colour-inverted pixel: each colour channel flipped, alpha kept.
pub open spec fn spec_negative(color: Pixel) -> Pixel {
    Pixel {
        r: (255 - color.r) as u8,
        g: (255 - color.g) as u8,
        b: (255 - color.b) as u8,
        a: color.a,
    }
}

/// Inverts the colour channels of a pixel and keeps its alpha.
pub fn negative(color: Pixel) -> (p: Pixel)
    ensures
        p == spec_negative(color),
{
    Pixel { r: 255 - color.r, g: 255 - color.g, b: 255 - color.b, a: color.a }
}

/// `v` with row `pos` colour-inverted; unchanged when the row is outside.
pub open spec fn hline_view(v: ImageView, pos: int) -> ImageView {
    if 0 <= pos < v.height {
        ImageView {
            width: v.width,
            height: v.height,
            data: Seq::new(
                v.data.len(),
                |i: int|
                    if i / v.width as int == pos {
                        spec_negative(v.data[i])
                    } else {
                        v.data[i]
                    },
            ),
        }
    } else {
        v
    }
}

/// `v` with column `pos` colour-inverted; unchanged when the column is
/// outside.
pub open spec fn vline_view(v: ImageView, pos: int) -> ImageView {
    if 0 <= pos < v.width {
        ImageView {
            width: v.width,
            height: v.height,
            data: Seq::new(
                v.data.len(),
                |i: int|
                    if i % v.width as int == pos {
                        spec_negative(v.data[i])
                    } else {
                        v.data[i]
                    },
            ),
        }
    } else {
        v
    }
}

spec fn hline_partial(v: ImageView, pos: int, upto: int, i: int) -> Pixel {
    let w = v.width as int;
    if i / w == pos && (i % w) < upto {
        spec_negative(v.data[i])
    } else {
        v.data[i]
    }
}

spec fn vline_partial(v: ImageView, pos: int, upto: int, i: int) -> Pixel {
    let w = v.width as int;
    if i % w == pos && (i / w) < upto {
        spec_negative(v.data[i])
    } else {
        v.data[i]
    }
}

/// An image without columns has no pixels at all.
proof fn lemma_zero_width_empty(v: ImageView)
    requires
        v.wf(),
        v.width == 0,
    ensures
        v.data.len() == 0,
{
    assert(v.data.len() == 0) by (nonlinear_arith)
        requires
            v.width == 0,
            v.data.len() == v.width * v.height,
    ;
}

/// Inverts the whole row at height `pos`, if that row lies inside the image.
pub fn draw_full_horizontal_line(image: &mut Image, pos: isize)
    requires
        old(image).wf(),
    ensures
        final(image).wf(),
        final(image)@ == hline_view(old(image)@, pos as int),
{
    let h = image.height();
    if pos >= 0 && pos < h as isize {
        let y = pos as usize;
        let w = image.width();
        proof {
            if w == 0 {
                lemma_zero_width_empty(image@);
            }
        }
        let mut x: usize = 0;
        while x < w
            invariant
                old(image).wf(),
                image.wf(),
                w == image@.width,
                w == old(image)@.width,
                image@.height == old(image)@.height,
                y == pos,
                y < image@.height,
                image@.data.len() == old(image)@.data.len(),
                forall|i: int|
                    0 <= i < image@.data.len() ==> image@.data[i] == hline_partial(
                        old(image)@,
                        pos as int,
                        x as int,
                        i,
                    ),
                x <= w,
            decreases w - x,
        {
            proof {
                lemma_row_major_index(image@.width, image@.height, x as int, y as int);
            }
            let ghost prev = image@;
            let p = image.pixel(x, y);
            image.set_pixel(x, y, negative(p));
            proof {
                let idx = y as int * w as int + x as int;
                assert forall|i: int|
                    0 <= i < image@.data.len() implies image@.data[i] == hline_partial(
                    old(image)@,
                    pos as int,
                    x as int + 1,
                    i,
                ) by {
                    lemma_fundamental_div_mod(i, w as int);
                    assert(prev.data[i] == hline_partial(old(image)@, pos as int, x as int, i));
                    assert(image@.data[i] == (if i == idx {
                        spec_negative(prev.data[idx])
                    } else {
                        prev.data[i]
                    }));
                    if i == idx {
                        assert(prev.data[i] == old(image)@.data[i]);
                        assert(image@.data[i] == spec_negative(old(image)@.data[i]));
                        assert(hline_partial(old(image)@, pos as int, x as int + 1, i)
                            == spec_negative(old(image)@.data[i]));
                    } else {
                        if i / (w as int) == pos as int && (i % (w as int)) == x as int {
                            assert(i == w as int * (i / w as int) + (i % w as int));
                            assert(i == w as int * (pos as int) + (x as int));
                            assert(i == idx);
                            assert(false);
                        }
                        assert(hline_partial(old(image)@, pos as int, x as int + 1, i)
                            == hline_partial(old(image)@, pos as int, x as int, i));
                    }
                }
            }
            x = x + 1;
        }
        proof {
            if w == 0 {
                lemma_zero_width_empty(old(image)@);
                assert(image@.data =~= hline_view(old(image)@, pos as int).data);
            } else {
                assert forall|i: int|
                    0 <= i < image@.data.len() implies image@.data[i] == hline_view(
                    old(image)@,
                    pos as int,
                ).data[i] by {
                    lemma_fundamental_div_mod(i, w as int);
                }
                assert(image@.data =~= hline_view(old(image)@, pos as int).data);
            }
        }
    } else {
        proof {
            assert(image@ == hline_view(old(image)@, pos as int));
        }
    }
}

/// Inverts the whole column at width `pos`, if that column lies inside the
/// image.
pub fn draw_full_vertical_line(image: &mut Image, pos: isize)
    requires
        old(image).wf(),
    ensures
        final(image).wf(),
        final(image)@ == vline_view(old(image)@, pos as int),
{
    let w = image.width();
    if pos >= 0 && pos < w as isize {
        let x = pos as usize;
        let h = image.height();
        let mut y: usize = 0;
        while y < h
            invariant
                old(image).wf(),
                image.wf(),
                w == image@.width,
                w == old(image)@.width,
                h == image@.height,
                h == old(image)@.height,
                x == pos,
                x < image@.width,
                image@.data.len() == old(image)@.data.len(),
                forall|i: int|
                    0 <= i < image@.data.len() ==> image@.data[i] == vline_partial(
                        old(image)@,
                        pos as int,
                        y as int,
                        i,
                    ),
                y <= h,
            decreases h - y,
        {
            proof {
                lemma_row_major_index(image@.width, image@.height, x as int, y as int);
            }
            let ghost prev = image@;
            let p = image.pixel(x, y);
            image.set_pixel(x, y, negative(p));
            proof {
                let idx = y as int * w as int + x as int;
                assert forall|i: int|
                    0 <= i < image@.data.len() implies image@.data[i] == vline_partial(
                    old(image)@,
                    pos as int,
                    y as int + 1,
                    i,
                ) by {
                    lemma_fundamental_div_mod(i, w as int);
                    assert(prev.data[i] == vline_partial(old(image)@, pos as int, y as int, i));
                    assert(image@.data[i] == (if i == idx {
                        spec_negative(prev.data[idx])
                    } else {
                        prev.data[i]
                    }));
                    if i == idx {
                        assert(prev.data[i] == old(image)@.data[i]);
                        assert(image@.data[i] == spec_negative(old(image)@.data[i]));
                        assert(vline_partial(old(image)@, pos as int, y as int + 1, i)
                            == spec_negative(old(image)@.data[i]));
                    } else {
                        if i % (w as int) == pos as int && (i / (w as int)) == y as int {
                            assert(i == w as int * (i / w as int) + (i % w as int));
                            assert(i == w as int * (y as int) + (pos as int));
                            assert(i == idx);
                            assert(false);
                        }
                        assert(vline_partial(old(image)@, pos as int, y as int + 1, i)
                            == vline_partial(old(image)@, pos as int, y as int, i));
                    }
                }
            }
            y = y + 1;
        }
        proof {
            assert forall|i: int|
                0 <= i < image@.data.len() implies image@.data[i] == vline_view(
                old(image)@,
                pos as int,
            ).data[i] by {
                lemma_fundamental_div_mod(i, w as int);
                lemma_multiply_divide_lt(i, w as int, h as int);
            }
            assert(image@.data =~= vline_view(old(image)@, pos as int).data);
        }
    } else {
        proof {
            assert(image@ == vline_view(old(image)@, pos as int));
        }
    }
}

} // verus!
