//! Conversion between the pixel buffer and the flat byte layout used by
//! image files: four bytes per pixel, red, green, blue, alpha.

use vstd::prelude::*;

use crate::image::Pixel;

verus! {

/// The flat byte sequence of a pixel sequence: four bytes per pixel.
pub open spec fn pixels_to_bytes(s: Seq<Pixel>) -> Seq<u8> {
    Seq::new(
        4 * s.len(),
        |i: int|
            {
                let p = s[i / 4];
                if i % 4 == 0 {
                    p.r
                } else if i % 4 == 1 {
                    p.g
                } else if i % 4 == 2 {
                    p.b
                } else {
                    p.a
                }
            },
    )
}

/// The pixel sequence read out of a flat byte sequence.
pub open spec fn bytes_to_pixels(s: Seq<u8>) -> Seq<Pixel> {
    Seq::new(
        s.len() / 4,
        |i: int| Pixel { r: s[4 * i], g: s[4 * i + 1], b: s[4 * i + 2], a: s[4 * i + 3] },
    )
}

/// Reading pixels back out of their byte layout gives the pixels again.
pub proof fn lemma_bytes_round_trip(s: Seq<Pixel>)
    ensures
        bytes_to_pixels(pixels_to_bytes(s)) == s,
{
    assert forall|i: int| 0 <= i < s.len() implies bytes_to_pixels(pixels_to_bytes(s))[i]
        == s[i] by {
        assert((4 * i) / 4 == i && (4 * i + 1) / 4 == i && (4 * i + 2) / 4 == i && (4 * i + 3) / 4
            == i && (4 * i) % 4 == 0 && (4 * i + 1) % 4 == 1 && (4 * i + 2) % 4 == 2 && (4 * i + 3)
            % 4 == 3) by (nonlinear_arith);
    }
    assert(bytes_to_pixels(pixels_to_bytes(s)) =~= s);
}

/// Flattens pixels into their four-byte file layout.
pub fn rgba_to_bytes(input: Vec<Pixel>) -> (r: Vec<u8>)
    requires
        4 * input@.len() <= usize::MAX,
    ensures
        r@ == pixels_to_bytes(input@),
{
    let count: usize = input.len() * 4;
    let mut r: Vec<u8> = Vec::new();
    let mut i: usize = 0;
    while i < count
        invariant
            count == 4 * input@.len(),
            i <= count,
            i % 4 == 0,
            r@.len() == i,
            forall|j: int| 0 <= j < i ==> r@[j] == pixels_to_bytes(input@)[j],
        decreases count - i,
    {
        proof {
            assert(i / 4 < input@.len() && (i as int) / 4 == i / 4 && (i + 1) / 4 == i / 4 && (i
                + 2) / 4 == i / 4 && (i + 3) / 4 == i / 4 && (i + 1) % 4 == 1 && (i + 2) % 4 == 2
                && (i + 3) % 4 == 3 && (i + 4) % 4 == 0) by (nonlinear_arith)
                requires
                    i % 4 == 0,
                    0 <= i,
                    i < count,
                    count == 4 * input@.len(),
            ;
        }
        let p = input[i / 4];
        r.push(p.r);
        r.push(p.g);
        r.push(p.b);
        r.push(p.a);
        i = i + 4;
    }
    proof {
        assert(r@ =~= pixels_to_bytes(input@));
    }
    r
}

/// Groups a flat byte buffer into pixels, four bytes each.
pub fn bytes_to_rgba(input: Vec<u8>) -> (r: Vec<Pixel>)
    requires
        input@.len() % 4 == 0,
    ensures
        r@ == bytes_to_pixels(input@),
{
    let count: usize = input.len();
    let mut r: Vec<Pixel> = Vec::new();
    let mut offset: usize = 0;
    while offset < count
        invariant
            count == input@.len(),
            count % 4 == 0,
            offset <= count,
            offset % 4 == 0,
            4 * r@.len() == offset,
            forall|j: int| 0 <= j < r@.len() ==> r@[j] == bytes_to_pixels(input@)[j],
        decreases count - offset,
    {
        proof {
            assert(offset + 4 <= count && (offset + 4) % 4 == 0 && (offset as int) == 4 * (
            offset as int / 4) && offset as int / 4 < count as int / 4) by (nonlinear_arith)
                requires
                    offset % 4 == 0,
                    count % 4 == 0,
                    0 <= offset,
                    offset < count,
            ;
        }
        let p = Pixel {
            r: input[offset],
            g: input[offset + 1],
            b: input[offset + 2],
            a: input[offset + 3],
        };
        r.push(p);
        offset = offset + 4;
    }
    proof {
        assert(r@ =~= bytes_to_pixels(input@));
    }
    r
}

} // verus!
