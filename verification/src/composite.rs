//! The compositor actor: builds the four-way mirror mosaic of a patch,
//! either fitted to a preview size or at full resolution for saving.

use vstd::arithmetic::mul::lemma_mul_upper_bound;
use vstd::prelude::*;

use crate::bytes::{pixels_to_bytes, rgba_to_bytes};
use crate::image::{lemma_row_major_index, Image, ImageView, Size};
use crate::message::{
    CompositeMessage, CompositorAction, GuiMessage, MessageReceiver,
};
use crate::scale::{lemma_resize_bounds, resize, resize_view};

verus! {

/// The mosaic of a patch: twice the patch on each axis. The top-left
/// quadrant is the patch itself; the top-right mirrors it left-right, the
/// bottom-left top-bottom, and the bottom-right both ways, so every seam is
/// continuous.
pub open spec fn mosaic_view(p: ImageView) -> ImageView {
    let w2 = 2 * p.width as int;
    let h2 = 2 * p.height as int;
    ImageView {
        width: (2 * p.width) as nat,
        height: (2 * p.height) as nat,
        data: Seq::new(
            ((2 * p.width) * (2 * p.height)) as nat,
            |i: int|
                {
                    let x = i % w2;
                    let y = i / w2;
                    let sx = if x < p.width {
                        x
                    } else {
                        w2 - 1 - x
                    };
                    let sy = if y < p.height {
                        y
                    } else {
                        h2 - 1 - y
                    };
                    p.pix(sx, sy)
                },
        ),
    }
}

/// The mosaic's size and mirror symmetry, pixel for pixel: the pixel at
/// `(x, y)` of the patch appears at `(x, y)`, at `(2w-1-x, y)`, at
/// `(x, 2h-1-y)` and at `(2w-1-x, 2h-1-y)` of the mosaic.
pub proof fn lemma_mosaic_mirrors(p: ImageView, x: int, y: int)
    requires
        p.wf(),
        2 * p.width <= isize::MAX,
        2 * p.height <= isize::MAX,
        (2 * p.width) * (2 * p.height) <= usize::MAX,
        p.in_bounds(x, y),
    ensures
        mosaic_view(p).wf(),
        mosaic_view(p).width == 2 * p.width,
        mosaic_view(p).height == 2 * p.height,
        mosaic_view(p).pix(x, y) == p.pix(x, y),
        mosaic_view(p).pix(2 * p.width - 1 - x, y) == p.pix(x, y),
        mosaic_view(p).pix(x, 2 * p.height - 1 - y) == p.pix(x, y),
        mosaic_view(p).pix(2 * p.width - 1 - x, 2 * p.height - 1 - y) == p.pix(x, y),
{
    let w2 = 2 * p.width as int;
    let h2 = 2 * p.height as int;
    lemma_row_major_index((2 * p.width) as nat, (2 * p.height) as nat, x, y);
    lemma_row_major_index((2 * p.width) as nat, (2 * p.height) as nat, w2 - 1 - x, y);
    lemma_row_major_index((2 * p.width) as nat, (2 * p.height) as nat, x, h2 - 1 - y);
    lemma_row_major_index((2 * p.width) as nat, (2 * p.height) as nat, w2 - 1 - x, h2 - 1 - y);
}

/// The mosaic's seams are continuous: the two columns astride the vertical
/// seam agree pixel for pixel, as do the two rows astride the horizontal
/// seam.
pub proof fn lemma_mosaic_seams(p: ImageView, x: int, y: int)
    requires
        p.wf(),
        p.width > 0,
        p.height > 0,
        2 * p.width <= isize::MAX,
        2 * p.height <= isize::MAX,
        (2 * p.width) * (2 * p.height) <= usize::MAX,
        0 <= x < 2 * p.width,
        0 <= y < 2 * p.height,
    ensures
        mosaic_view(p).pix(p.width - 1, y) == mosaic_view(p).pix(p.width as int, y),
        mosaic_view(p).pix(x, p.height - 1) == mosaic_view(p).pix(x, p.height as int),
{
    let w2 = 2 * p.width as int;
    let h2 = 2 * p.height as int;
    lemma_row_major_index((2 * p.width) as nat, (2 * p.height) as nat, p.width - 1, y);
    lemma_row_major_index((2 * p.width) as nat, (2 * p.height) as nat, p.width as int, y);
    lemma_row_major_index((2 * p.width) as nat, (2 * p.height) as nat, x, p.height - 1);
    lemma_row_major_index((2 * p.width) as nat, (2 * p.height) as nat, x, p.height as int);
}

/// Builds the mosaic of `image`: a new buffer twice the size on each axis,
/// tiled with the image and its three mirrorings.
pub fn create_mosaic(image: &Image) -> (r: Image)
    requires
        image.wf(),
        2 * image@.width <= isize::MAX,
        2 * image@.height <= isize::MAX,
        (2 * image@.width) * (2 * image@.height) <= usize::MAX,
    ensures
        r.wf(),
        r@ == mosaic_view(image@),
{
    let w = image.width();
    let h = image.height();
    let w2: usize = 2 * w;
    let h2: usize = 2 * h;
    proof {
        assert((2 * w as int) * (2 * h as int) == (2 * image@.width) * (2 * image@.height))
            by (nonlinear_arith)
            requires
                w == image@.width,
                h == image@.height,
        ;
    }
    let mut data: Vec<crate::image::Pixel> = Vec::new();
    let mut y: usize = 0;
    while y < h2
        invariant
            image.wf(),
            w == image@.width,
            h == image@.height,
            w2 == 2 * w,
            h2 == 2 * h,
            w2 * h2 <= usize::MAX,
            y <= h2,
            data@.len() == y * w2,
            forall|i: int| 0 <= i < data@.len() ==> data@[i] == mosaic_view(image@).data[i],
        decreases h2 - y,
    {
        let mut x: usize = 0;
        while x < w2
            invariant
                image.wf(),
                w == image@.width,
                h == image@.height,
                w2 == 2 * w,
                h2 == 2 * h,
                w2 * h2 <= usize::MAX,
                y < h2,
                x <= w2,
                data@.len() == y * w2 + x,
                forall|i: int| 0 <= i < data@.len() ==> data@[i] == mosaic_view(image@).data[i],
            decreases w2 - x,
        {
            proof {
                lemma_row_major_index(w2 as nat, h2 as nat, x as int, y as int);
            }
            let sx: usize = if x < w {
                x
            } else {
                w2 - 1 - x
            };
            let sy: usize = if y < h {
                y
            } else {
                h2 - 1 - y
            };
            let p = image.pixel(sx, sy);
            data.push(p);
            x = x + 1;
        }
        proof {
            assert((y + 1) * w2 == y * w2 + w2) by (nonlinear_arith);
        }
        y = y + 1;
    }
    proof {
        assert(h2 * w2 == w2 * h2) by (nonlinear_arith);
    }
    let r = Image::from_pixels(w2, h2, data);
    proof {
        assert(r@.data =~= mosaic_view(image@).data);
    }
    r
}

/// The compositor owns no state of its own: each request is served from its
/// message alone.
pub struct CompositorState {}

impl CompositorState {
    pub fn new() -> CompositorState {
        CompositorState {  }
    }

    /// The target size that one quadrant of the live preview is fitted to:
    /// half the viewport on each axis.
    pub open spec fn spec_half(size: Size) -> Size {
        Size { x: (size.x / 2) as usize, y: (size.y / 2) as usize }
    }
}

impl MessageReceiver<CompositeMessage> for CompositorState {
    type Action = CompositorAction;

    open spec fn msg_ok(self, message: CompositeMessage) -> bool {
        match message {
            CompositeMessage::CompositeMosaic(img, size) => {
                &&& img.wf()
                &&& size.x <= isize::MAX
                &&& size.y <= isize::MAX
                &&& size.x * size.y <= usize::MAX
            },
            CompositeMessage::SaveMosaic(img, _) => {
                &&& img.wf()
                &&& 2 * img@.width <= isize::MAX
                &&& 2 * img@.height <= isize::MAX
                &&& 16 * (img@.width * img@.height) <= usize::MAX
            },
        }
    }

    open spec fn post(
        self,
        message: CompositeMessage,
        post: CompositorState,
        actions: Seq<CompositorAction>,
    ) -> bool {
        match message {
            CompositeMessage::CompositeMosaic(img, size) => {
                &&& actions.len() == 2
                &&& actions[0] matches CompositorAction::Gui(GuiMessage::RenderTarget(m))
                    && m.wf() && m@ == mosaic_view(
                    resize_view(img@, CompositorState::spec_half(size)),
                )
                &&& actions[1] is Finished
            },
            CompositeMessage::SaveMosaic(img, path) => {
                &&& actions.len() == 1
                &&& actions[0] matches CompositorAction::WriteFile(size, bytes, p) && ({
                    &&& size.x == mosaic_view(img@).width
                    &&& size.y == mosaic_view(img@).height
                    &&& bytes@ == pixels_to_bytes(mosaic_view(img@).data)
                    &&& p == path
                })
            },
        }
    }

    /// Serves one compositing request: the live preview is resized to fit a
    /// quadrant of the viewport, mirrored into the mosaic and handed to the
    /// presentation side, followed unconditionally by the completion
    /// handshake; a save request mirrors the patch at full resolution and
    /// hands back the bytes to write.
    fn receive(&mut self, message: CompositeMessage) -> (actions: Vec<CompositorAction>)
    {
        match message {
            CompositeMessage::CompositeMosaic(img, size) => {
                let half = Size { x: size.x / 2, y: size.y / 2 };
                proof {
                    lemma_mul_upper_bound(half.x as int, size.x as int, half.y as int, size.y as int);
                    lemma_resize_bounds(img@, half);
                    lemma_mosaic_fits(size, half, resize_view(img@, half));
                }
                let resized = resize(&img, half);
                let mosaic = create_mosaic(&resized);
                let mut actions: Vec<CompositorAction> = Vec::new();
                actions.push(CompositorAction::Gui(GuiMessage::RenderTarget(mosaic)));
                actions.push(CompositorAction::Finished);
                actions
            },
            CompositeMessage::SaveMosaic(img, path) => {
                proof {
                    lemma_save_fits(img@);
                }
                let mosaic = create_mosaic(&img);
                let size = mosaic.size();
                let bytes = rgba_to_bytes(mosaic.into_pixels());
                let mut actions: Vec<CompositorAction> = Vec::new();
                actions.push(CompositorAction::WriteFile(size, bytes, path));
                actions
            },
        }
    }
}

/// A preview fitted into half the viewport leaves room for its mosaic: both
/// doubled dimensions stay addressable and the doubled buffer fits.
proof fn lemma_mosaic_fits(size: Size, half: Size, r: ImageView)
    requires
        size.x <= isize::MAX,
        size.y <= isize::MAX,
        size.x * size.y <= usize::MAX,
        half.x == size.x / 2,
        half.y == size.y / 2,
        1 <= r.width,
        1 <= r.height,
        r.width <= if half.x < 1 { 1int } else { half.x as int },
        r.height <= if half.y < 1 { 1int } else { half.y as int },
    ensures
        2 * r.width <= isize::MAX,
        2 * r.height <= isize::MAX,
        (2 * r.width) * (2 * r.height) <= usize::MAX,
{
    let w = r.width as int;
    let h = r.height as int;
    let sx = size.x as int;
    let sy = size.y as int;
    assert(2 * w <= isize::MAX && 2 * h <= isize::MAX && (2 * w) * (2 * h) <= usize::MAX)
        by (nonlinear_arith)
        requires
            sx <= isize::MAX,
            sy <= isize::MAX,
            sx * sy <= usize::MAX,
            usize::MAX == 2 * (isize::MAX as int) + 1,
            1 <= w,
            1 <= h,
            w <= if sx / 2 < 1 { 1int } else { sx / 2 },
            h <= if sy / 2 < 1 { 1int } else { sy / 2 },
    ;
}

/// A patch small enough to save leaves room for its mosaic and the mosaic's
/// byte layout.
proof fn lemma_save_fits(v: ImageView)
    requires
        v.wf(),
        2 * v.width <= isize::MAX,
        2 * v.height <= isize::MAX,
        16 * (v.width * v.height) <= usize::MAX,
    ensures
        (2 * v.width) * (2 * v.height) <= usize::MAX,
        4 * mosaic_view(v).data.len() <= usize::MAX,
        mosaic_view(v).data.len() == (2 * v.width) * (2 * v.height),
{
    assert((2 * v.width) * (2 * v.height) == 4 * (v.width * v.height)) by (nonlinear_arith);
}

} // verus!
