//! The selection actor: owns the source image, the selection rectangle, the
//! two viewport sizes, the render cache and the compositor's single-flight
//! gate, and answers every message with the actions to perform.

use vstd::prelude::*;

use crate::image::{Image, ImageView, Pixel, Size};
use crate::message::{
    CompositeMessage, GuiMessage, ImageId, LogicAction, LogicMessage, MessageReceiver,
    SelectionLines,
};
use crate::scale::{
    display_to_source, resize, resize_factor, resize_view, source_to_display,
    spec_display_to_source, spec_factor, spec_source_to_display, unit_view,
};

verus! {

/// A point in source-image coordinates.
#[derive(Clone, Copy, Debug, PartialEq, Eq, Structural)]
pub struct Point {
    pub x: isize,
    pub y: isize,
}

/// A normalized rectangle: `x1 <= x2` and `y1 <= y2`.
pub struct NormRect {
    pub x1: int,
    pub y1: int,
    pub x2: int,
    pub y2: int,
}

/// The normalized rectangle spanned by two corners, in any order.
pub open spec fn normalized_rect(start: Point, end: Point) -> NormRect {
    NormRect {
        x1: if start.x <= end.x {
            start.x as int
        } else {
            end.x as int
        },
        x2: if start.x <= end.x {
            end.x as int
        } else {
            start.x as int
        },
        y1: if start.y <= end.y {
            start.y as int
        } else {
            end.y as int
        },
        y2: if start.y <= end.y {
            end.y as int
        } else {
            start.y as int
        },
    }
}

/// The patch cut from `img` by the selection corners: a buffer of exactly
/// the normalized rectangle's size, holding the image's pixels where the
/// rectangle overlaps the image and transparency elsewhere. A degenerate
/// rectangle — no extent, or one too large to address — yields the one-pixel
/// transparent placeholder.
pub open spec fn patch_view(img: ImageView, start: Point, end: Point) -> ImageView {
    let r = normalized_rect(start, end);
    let w = r.x2 - r.x1;
    let h = r.y2 - r.y1;
    if w <= 0 || h <= 0 || w > isize::MAX || h > isize::MAX || w * h > usize::MAX {
        unit_view()
    } else {
        ImageView {
            width: w as nat,
            height: h as nat,
            data: Seq::new(
                (w * h) as nat,
                |i: int|
                    {
                        let sx = r.x1 + i % w;
                        let sy = r.y1 + i / w;
                        if 0 <= sx < img.width && 0 <= sy < img.height {
                            img.pix(sx, sy)
                        } else {
                            Pixel::spec_transparent()
                        }
                    },
            ),
        }
    }
}

/// Normalization never produces a negative extent, and swapping the two
/// corners yields the identical rectangle and the identical patch from any
/// image.
pub proof fn lemma_normalized_swap(img: ImageView, start: Point, end: Point)
    ensures
        normalized_rect(start, end).x1 <= normalized_rect(start, end).x2,
        normalized_rect(start, end).y1 <= normalized_rect(start, end).y2,
        normalized_rect(start, end) == normalized_rect(end, start),
        patch_view(img, start, end) == patch_view(img, end, start),
{
}

/// Cuts the selection's patch out of the image.
pub fn extract_patch(img: &Image, start: Point, end: Point) -> (r: Image)
    requires
        img.wf(),
    ensures
        r.wf(),
        r@ == patch_view(img@, start, end),
{
    let x1: isize = if start.x <= end.x {
        start.x
    } else {
        end.x
    };
    let x2: isize = if start.x <= end.x {
        end.x
    } else {
        start.x
    };
    let y1: isize = if start.y <= end.y {
        start.y
    } else {
        end.y
    };
    let y2: isize = if start.y <= end.y {
        end.y
    } else {
        start.y
    };
    let wv: i128 = x2 as i128 - x1 as i128;
    let hv: i128 = y2 as i128 - y1 as i128;
    if wv <= 0 || hv <= 0 || wv > isize::MAX as i128 || hv > isize::MAX as i128 {
        return Image::new_filled(1, 1, Pixel::transparent());
    }
    let w: usize = wv as usize;
    let h: usize = hv as usize;
    let count: usize = match w.checked_mul(h) {
        Some(c) => c,
        None => {
            return Image::new_filled(1, 1, Pixel::transparent());
        },
    };
    let iw = img.width();
    let ih = img.height();
    let mut data: Vec<Pixel> = Vec::new();
    let mut py: usize = 0;
    while py < h
        invariant
            img.wf(),
            iw == img@.width,
            ih == img@.height,
            x1 == normalized_rect(start, end).x1,
            x2 == normalized_rect(start, end).x2,
            y1 == normalized_rect(start, end).y1,
            y2 == normalized_rect(start, end).y2,
            w == x2 - x1,
            h == y2 - y1,
            0 < w <= isize::MAX,
            0 < h <= isize::MAX,
            w * h <= usize::MAX,
            py <= h,
            data@.len() == py * w,
            forall|i: int|
                0 <= i < data@.len() ==> data@[i] == patch_view(img@, start, end).data[i],
        decreases h - py,
    {
        let mut px: usize = 0;
        while px < w
            invariant
                img.wf(),
                iw == img@.width,
                ih == img@.height,
                x1 == normalized_rect(start, end).x1,
                x2 == normalized_rect(start, end).x2,
                y1 == normalized_rect(start, end).y1,
                y2 == normalized_rect(start, end).y2,
                w == x2 - x1,
                h == y2 - y1,
                0 < w <= isize::MAX,
                0 < h <= isize::MAX,
                w * h <= usize::MAX,
                py < h,
                px <= w,
                data@.len() == py * w + px,
                forall|i: int|
                    0 <= i < data@.len() ==> data@[i] == patch_view(img@, start, end).data[i],
            decreases w - px,
        {
            proof {
                crate::image::lemma_row_major_index(w as nat, h as nat, px as int, py as int);
            }
            let sx: i128 = x1 as i128 + px as i128;
            let sy: i128 = y1 as i128 + py as i128;
            let p: Pixel = if sx >= 0 && sy >= 0 && (sx as u128) < iw as u128 && (sy as u128)
                < ih as u128 {
                img.pixel(sx as usize, sy as usize)
            } else {
                Pixel::transparent()
            };
            data.push(p);
            px = px + 1;
        }
        proof {
            assert((py + 1) * w == py * w + w) by (nonlinear_arith);
        }
        py = py + 1;
    }
    proof {
        assert(h * w == w * h) by (nonlinear_arith);
    }
    let r = Image::from_pixels(w, h, data);
    proof {
        assert(r@.data =~= patch_view(img@, start, end).data);
    }
    r
}

/// The selection actor's state: the authoritative source image, the
/// selection corners, the two viewport sizes, the render cache, the pending
/// flag for the composite preview, and the compositor's single-flight gate.
pub struct LogicState {
    /// The loaded source image.
    pub image: Image,
    /// The selection preview's viewport size.
    pub select_size: Size,
    /// The composite preview's viewport size.
    pub result_size: Size,
    /// One corner of the selection, in source coordinates.
    pub start: Point,
    /// The other corner of the selection.
    pub end: Point,
    /// Whether the composite preview is out of date: a request is pending.
    pub result_modified: bool,
    /// The single-flight gate: no compositing job is in flight.
    pub compositor_free: bool,
    /// The size at which the selection preview was last fully rendered.
    pub last_source_size: Option<Size>,
    /// The overlay lines last sent, to be erased before the next ones.
    pub last_rendered_lines: Option<SelectionLines>,
}

impl LogicState {
    /// A viewport size the state can work with: addressable and allocatable.
    pub open spec fn size_ok(s: Size) -> bool {
        s.x <= isize::MAX && s.y <= isize::MAX && s.x * s.y <= usize::MAX
    }

    pub open spec fn wf(self) -> bool {
        &&& self.image.wf()
        &&& Self::size_ok(self.select_size)
        &&& Self::size_ok(self.result_size)
    }

    /// The image's size, as the scaling routines take it.
    pub open spec fn spec_image_size(self) -> Size {
        Size { x: self.image@.width as usize, y: self.image@.height as usize }
    }

    /// The overlay line positions for the current selection: the selection
    /// corners carried into display space.
    pub open spec fn spec_lines(self) -> SelectionLines {
        let f = spec_factor(self.spec_image_size(), self.select_size);
        SelectionLines {
            x1: spec_source_to_display(self.start.x as int, f) as isize,
            x2: spec_source_to_display(self.end.x as int, f) as isize,
            y1: spec_source_to_display(self.start.y as int, f) as isize,
            y2: spec_source_to_display(self.end.y as int, f) as isize,
        }
    }

    /// After the selection preview was rendered, the cache records the size
    /// and the overlay just sent.
    pub open spec fn after_select_render(self) -> LogicState {
        LogicState {
            last_source_size: Some(self.select_size),
            last_rendered_lines: Some(self.spec_lines()),
            ..self
        }
    }

    /// After a composite render was attempted: when work was pending and the
    /// compositor free, the request went out and the compositor is now busy;
    /// otherwise nothing changed.
    pub open spec fn after_result_render(self) -> LogicState {
        if self.result_modified && self.compositor_free {
            LogicState { result_modified: false, compositor_free: false, ..self }
        } else {
            self
        }
    }

    /// The composite preview marked out of date.
    pub open spec fn with_pending(self) -> LogicState {
        LogicState { result_modified: true, ..self }
    }

    /// The state after the selection preview was re-rendered and a
    /// composite render attempted.
    pub open spec fn after_both_renders(self) -> LogicState {
        self.after_select_render().after_result_render()
    }

    /// The state after both previews were marked out of date and
    /// re-rendered.
    pub open spec fn after_render_all(self) -> LogicState {
        self.with_pending().after_both_renders()
    }

    /// How many messages a selection-preview render sends.
    pub open spec fn select_actions_len(self) -> int {
        if self.last_source_size == Some(self.select_size) {
            if self.last_rendered_lines is Some {
                2int
            } else {
                1int
            }
        } else {
            2int
        }
    }

    /// What the selection-preview render sends. When the cached render size
    /// equals the current viewport size, only the overlay is re-sent: first
    /// the previous lines (drawing them again erases them), then the new
    /// ones. Otherwise the image is resized afresh and sent with the
    /// overlay.
    pub open spec fn select_actions_match(self, actions: Seq<LogicAction>) -> bool {
        let lines = self.spec_lines();
        if self.last_source_size == Some(self.select_size) {
            match self.last_rendered_lines {
                Some(prev) => actions =~= seq![
                    LogicAction::Gui(GuiMessage::RenderLines(prev)),
                    LogicAction::Gui(GuiMessage::RenderLines(lines)),
                ],
                None => actions =~= seq![LogicAction::Gui(GuiMessage::RenderLines(lines))],
            }
        } else {
            &&& actions.len() == 2
            &&& actions[0] matches LogicAction::Gui(GuiMessage::RenderSource(img)) && img.wf()
                && img@ == resize_view(self.image@, self.select_size)
            &&& actions[1] == LogicAction::Gui(GuiMessage::RenderLines(lines))
        }
    }

    /// How many messages a composite-render attempt sends.
    pub open spec fn result_actions_len(self) -> int {
        if self.result_modified && self.compositor_free {
            1int
        } else {
            0int
        }
    }

    /// What a composite-render attempt sends: exactly one mosaic request,
    /// holding the current patch and composite viewport size, when work is
    /// pending and the compositor is free; nothing otherwise.
    pub open spec fn result_actions_match(self, actions: Seq<LogicAction>) -> bool {
        if self.result_modified && self.compositor_free {
            &&& actions.len() == 1
            &&& actions[0] matches LogicAction::Compositor(
                CompositeMessage::CompositeMosaic(patch, size),
            ) && patch.wf() && patch@ == patch_view(self.image@, self.start, self.end) && size
                == self.result_size
        } else {
            actions.len() == 0
        }
    }

    /// What re-rendering both previews sends: the selection render's
    /// messages, then the composite attempt's.
    pub open spec fn both_renders_match(self, actions: Seq<LogicAction>) -> bool {
        let mid = self.after_select_render();
        &&& actions.len() == self.select_actions_len() + mid.result_actions_len()
        &&& self.select_actions_match(actions.take(self.select_actions_len()))
        &&& mid.result_actions_match(actions.skip(self.select_actions_len()))
    }

    /// As `both_renders_match`, with the composite preview first marked out
    /// of date.
    pub open spec fn render_all_match(self, actions: Seq<LogicAction>) -> bool {
        self.with_pending().both_renders_match(actions)
    }

    /// A fresh state: a one-pixel transparent image, one-pixel viewports, an
    /// empty selection at the origin, both previews out of date, the
    /// compositor free and the render cache cold.
    pub fn new() -> (s: LogicState)
        ensures
            s.wf(),
            s.image@ == unit_view(),
            s.select_size == (Size { x: 1, y: 1 }),
            s.result_size == (Size { x: 1, y: 1 }),
            s.start == (Point { x: 0, y: 0 }),
            s.end == (Point { x: 0, y: 0 }),
            s.result_modified,
            s.compositor_free,
            s.last_source_size is None,
            s.last_rendered_lines is None,
    {
        LogicState {
            image: Image::new_filled(1, 1, Pixel::transparent()),
            select_size: Size { x: 1, y: 1 },
            result_size: Size { x: 1, y: 1 },
            start: Point { x: 0, y: 0 },
            end: Point { x: 0, y: 0 },
            result_modified: true,
            compositor_free: true,
            last_source_size: None,
            last_rendered_lines: None,
        }
    }

    /// The overlay line positions for the current selection.
    pub fn selection_lines(&self) -> (lines: SelectionLines)
        requires
            self.wf(),
        ensures
            lines == self.spec_lines(),
    {
        let f = resize_factor(self.image.size(), self.select_size);
        SelectionLines {
            x1: source_to_display(self.start.x, f),
            x2: source_to_display(self.end.x, f),
            y1: source_to_display(self.start.y, f),
            y2: source_to_display(self.end.y, f),
        }
    }

    /// The patch cut from the image by the current selection.
    pub fn get_selected_patch(&self) -> (r: Image)
        requires
            self.wf(),
        ensures
            r.wf(),
            r@ == patch_view(self.image@, self.start, self.end),
    {
        extract_patch(&self.image, self.start, self.end)
    }

    /// Re-renders the selection preview, re-sending only the overlay when
    /// the cached render size still matches the viewport.
    pub fn render_select_image(&mut self) -> (actions: Vec<LogicAction>)
        requires
            old(self).wf(),
        ensures
            *final(self) == old(self).after_select_render(),
            final(self).wf(),
            old(self).select_actions_match(actions@),
    {
        let lines = self.selection_lines();
        let mut actions: Vec<LogicAction> = Vec::new();
        let hit: bool = match self.last_source_size {
            Some(size) => size == self.select_size,
            None => false,
        };
        if hit {
            match self.last_rendered_lines {
                Some(prev) => actions.push(LogicAction::Gui(GuiMessage::RenderLines(prev))),
                None => (),
            }
            self.last_rendered_lines = Some(lines);
            actions.push(LogicAction::Gui(GuiMessage::RenderLines(lines)));
        } else {
            let img = resize(&self.image, self.select_size);
            self.last_source_size = Some(self.select_size);
            self.last_rendered_lines = Some(lines);
            actions.push(LogicAction::Gui(GuiMessage::RenderSource(img)));
            actions.push(LogicAction::Gui(GuiMessage::RenderLines(lines)));
        }
        proof {
            if old(self).last_source_size == Some(old(self).select_size) {
                if old(self).last_rendered_lines is Some {
                    assert(actions@ =~= seq![
                        LogicAction::Gui(
                            GuiMessage::RenderLines(old(self).last_rendered_lines->0),
                        ),
                        LogicAction::Gui(GuiMessage::RenderLines(old(self).spec_lines())),
                    ]);
                } else {
                    assert(actions@ =~= seq![
                        LogicAction::Gui(GuiMessage::RenderLines(old(self).spec_lines())),
                    ]);
                }
            }
        }
        actions
    }

    /// Attempts the composite render: when the preview is out of date and
    /// the compositor is free, sends the current patch and viewport size and
    /// closes the single-flight gate; a busy compositor leaves the request
    /// pending for the completion handshake to retry.
    pub fn render_result_image(&mut self) -> (actions: Vec<LogicAction>)
        requires
            old(self).wf(),
        ensures
            *final(self) == old(self).after_result_render(),
            final(self).wf(),
            old(self).result_actions_match(actions@),
    {
        let mut actions: Vec<LogicAction> = Vec::new();
        if self.result_modified && self.compositor_free {
            let patch = self.get_selected_patch();
            actions.push(
                LogicAction::Compositor(
                    CompositeMessage::CompositeMosaic(patch, self.result_size),
                ),
            );
            self.result_modified = false;
            self.compositor_free = false;
        }
        actions
    }

    /// The state after a successful load: the new image, the selection reset
    /// to the whole image, and the render cache invalidated.
    pub open spec fn loaded(self, img: Image) -> LogicState {
        LogicState {
            image: img,
            start: Point { x: 0, y: 0 },
            end: Point { x: img@.width as isize, y: img@.height as isize },
            last_source_size: None,
            last_rendered_lines: None,
            ..self
        }
    }

    /// The state after a pointer event: button one moves the selection's
    /// start, button three its end, to the pressed position carried into
    /// source coordinates; any other button moves nothing.
    pub open spec fn moused(self, button: u32, x: isize, y: isize) -> LogicState {
        let f = spec_factor(self.spec_image_size(), self.select_size);
        let p = Point {
            x: spec_display_to_source(x as int, f) as isize,
            y: spec_display_to_source(y as int, f) as isize,
        };
        if button == 1 {
            LogicState { start: p, ..self }
        } else if button == 3 {
            LogicState { end: p, ..self }
        } else {
            self
        }
    }

    /// The state after a viewport resize: the stored size changes only when
    /// the event brings a different one, and a changed composite viewport
    /// marks that preview out of date.
    pub open spec fn resized(self, id: ImageId, size: Size) -> LogicState {
        match id {
            ImageId::Select => if self.select_size != size {
                LogicState { select_size: size, ..self }
            } else {
                self
            },
            ImageId::Result => if self.result_size != size {
                LogicState { result_size: size, result_modified: true, ..self }
            } else {
                self
            },
        }
    }

    /// Replaces the image on a successful decode — resetting the selection
    /// to the whole image, invalidating the render cache and re-rendering
    /// both previews — and on a failure changes nothing and hands back the
    /// decoder's message for the log.
    pub fn load_image(&mut self, decoded: Result<Image, String>) -> (actions: Vec<LogicAction>)
        requires
            old(self).wf(),
            decoded matches Ok(img) ==> img.wf(),
        ensures
            *final(self) == (match decoded {
                Ok(img) => old(self).loaded(img).after_render_all(),
                Err(_) => *old(self),
            }),
            final(self).wf(),
            (match decoded {
                Ok(img) => old(self).loaded(img).render_all_match(actions@),
                Err(e) => actions@.len() == 1 && actions@[0] == LogicAction::Log(e),
            }),
    {
        match decoded {
            Ok(img) => {
                let w = img.width();
                let h = img.height();
                self.image = img;
                self.start = Point { x: 0, y: 0 };
                self.end = Point { x: w as isize, y: h as isize };
                self.last_source_size = None;
                self.last_rendered_lines = None;
                self.render_all()
            },
            Err(msg) => {
                let mut actions: Vec<LogicAction> = Vec::new();
                actions.push(LogicAction::Log(msg));
                actions
            },
        }
    }

    /// Converts the pressed position to source coordinates, moves the
    /// selection corner the button owns, and re-renders both previews.
    pub fn mouse_down(&mut self, button: u32, x: isize, y: isize) -> (actions: Vec<LogicAction>)
        requires
            old(self).wf(),
        ensures
            *final(self) == old(self).moused(button, x, y).after_render_all(),
            final(self).wf(),
            old(self).moused(button, x, y).render_all_match(actions@),
    {
        let f = resize_factor(self.image.size(), self.select_size);
        let px = display_to_source(x, f);
        let py = display_to_source(y, f);
        if button == 1 {
            self.start = Point { x: px, y: py };
        } else if button == 3 {
            self.end = Point { x: px, y: py };
        }
        self.render_all()
    }

    /// Stores a changed viewport size and re-renders the affected preview;
    /// an unchanged size re-renders the selection preview only through the
    /// cache (overlay only) and leaves the composite preview alone.
    pub fn image_resized(&mut self, id: ImageId, size: Size) -> (actions: Vec<LogicAction>)
        requires
            old(self).wf(),
            LogicState::size_ok(size),
        ensures
            *final(self) == (match id {
                ImageId::Select => old(self).resized(id, size).after_select_render(),
                ImageId::Result => old(self).resized(id, size).after_result_render(),
            }),
            final(self).wf(),
            (match id {
                ImageId::Select => old(self).resized(id, size).select_actions_match(actions@),
                ImageId::Result => old(self).resized(id, size).result_actions_match(actions@),
            }),
    {
        match id {
            ImageId::Select => {
                if self.select_size != size {
                    self.select_size = size;
                }
                self.render_select_image()
            },
            ImageId::Result => {
                if self.result_size != size {
                    self.result_size = size;
                    self.result_modified = true;
                }
                self.render_result_image()
            },
        }
    }

    /// Forwards the current patch and the destination path to the
    /// compositor as a save request. The request bypasses the single-flight
    /// gate: saving is explicit intent and is never dropped for a busy
    /// compositor.
    pub fn save_image(&mut self, path: String) -> (actions: Vec<LogicAction>)
        requires
            old(self).wf(),
        ensures
            *final(self) == *old(self),
            actions@.len() == 1,
            actions@[0] matches LogicAction::Compositor(CompositeMessage::SaveMosaic(patch, p))
                && patch.wf() && patch@ == patch_view(
                old(self).image@,
                old(self).start,
                old(self).end,
            ) && p == path,
    {
        let patch = self.get_selected_patch();
        let mut actions: Vec<LogicAction> = Vec::new();
        actions.push(LogicAction::Compositor(CompositeMessage::SaveMosaic(patch, path)));
        actions
    }

    /// Re-renders the selection preview and attempts the composite render.
    fn render_both(&mut self) -> (actions: Vec<LogicAction>)
        requires
            old(self).wf(),
        ensures
            *final(self) == old(self).after_both_renders(),
            final(self).wf(),
            old(self).both_renders_match(actions@),
    {
        let mut actions = self.render_select_image();
        let ghost first = actions@;
        let mut more = self.render_result_image();
        let ghost second = more@;
        actions.append(&mut more);
        proof {
            assert(first.len() == old(self).select_actions_len());
            assert(actions@.take(old(self).select_actions_len()) =~= first);
            assert(actions@.skip(old(self).select_actions_len()) =~= second);
        }
        actions
    }

    /// Marks both previews out of date and re-renders them.
    pub fn render_all(&mut self) -> (actions: Vec<LogicAction>)
        requires
            old(self).wf(),
        ensures
            *final(self) == old(self).after_render_all(),
            final(self).wf(),
            old(self).render_all_match(actions@),
    {
        self.result_modified = true;
        self.render_both()
    }
}

impl LogicState {
    /// The state after one message is processed.
    pub open spec fn step_state(self, message: LogicMessage) -> LogicState {
        match message {
            LogicMessage::LoadImage(decoded) => match decoded {
                Ok(img) => self.loaded(img).after_render_all(),
                Err(_) => self,
            },
            LogicMessage::SaveImage(_) => self,
            LogicMessage::ImageResized(id, size) => match id {
                ImageId::Select => self.resized(id, size).after_select_render(),
                ImageId::Result => self.resized(id, size).after_result_render(),
            },
            LogicMessage::MouseDown(button, x, y) => self.moused(button, x, y).after_render_all(),
            LogicMessage::CompositorFinished => LogicState {
                compositor_free: true,
                ..self
            }.after_both_renders(),
            LogicMessage::ReturnBuffer(_) => self,
        }
    }

    /// The actions one message gives rise to.
    pub open spec fn step_actions_match(
        self,
        message: LogicMessage,
        actions: Seq<LogicAction>,
    ) -> bool {
        match message {
            LogicMessage::LoadImage(decoded) => match decoded {
                Ok(img) => self.loaded(img).render_all_match(actions),
                Err(e) => actions.len() == 1 && actions[0] == LogicAction::Log(e),
            },
            LogicMessage::SaveImage(path) => {
                &&& actions.len() == 1
                &&& actions[0] matches LogicAction::Compositor(
                    CompositeMessage::SaveMosaic(patch, p),
                ) && patch.wf() && patch@ == patch_view(self.image@, self.start, self.end) && p
                    == path
            },
            LogicMessage::ImageResized(id, size) => match id {
                ImageId::Select => self.resized(id, size).select_actions_match(actions),
                ImageId::Result => self.resized(id, size).result_actions_match(actions),
            },
            LogicMessage::MouseDown(button, x, y) => self.moused(
                button,
                x,
                y,
            ).render_all_match(actions),
            LogicMessage::CompositorFinished => LogicState {
                compositor_free: true,
                ..self
            }.both_renders_match(actions),
            LogicMessage::ReturnBuffer(_) => actions.len() == 0,
        }
    }
}

impl MessageReceiver<LogicMessage> for LogicState {
    type Action = LogicAction;

    open spec fn msg_ok(self, message: LogicMessage) -> bool {
        &&& self.wf()
        &&& match message {
            LogicMessage::LoadImage(decoded) => decoded matches Ok(img) ==> img.wf(),
            LogicMessage::ImageResized(_, size) => LogicState::size_ok(size),
            _ => true,
        }
    }

    open spec fn post(
        self,
        message: LogicMessage,
        post: LogicState,
        actions: Seq<LogicAction>,
    ) -> bool {
        &&& post == self.step_state(message)
        &&& post.wf()
        &&& self.step_actions_match(message, actions)
    }

    /// Processes one message, in arrival order, and returns every action it
    /// gives rise to.
    fn receive(&mut self, message: LogicMessage) -> (actions: Vec<LogicAction>) {
        match message {
            LogicMessage::LoadImage(decoded) => self.load_image(decoded),
            LogicMessage::SaveImage(path) => self.save_image(path),
            LogicMessage::ImageResized(id, size) => self.image_resized(id, size),
            LogicMessage::MouseDown(button, x, y) => self.mouse_down(button, x, y),
            LogicMessage::CompositorFinished => {
                self.compositor_free = true;
                self.render_both()
            },
            LogicMessage::ReturnBuffer(_) => Vec::new(),
        }
    }
}

/// Whether some action in `actions` is a live-preview mosaic request.
pub open spec fn sends_composite(actions: Seq<LogicAction>) -> bool {
    exists|i: int|
        0 <= i < actions.len() && (#[trigger] actions[i]) matches LogicAction::Compositor(
            CompositeMessage::CompositeMosaic(_, _),
        )
}

/// Whether some action in `actions` is a full re-render of the selection
/// preview.
pub open spec fn sends_full_render(actions: Seq<LogicAction>) -> bool {
    exists|i: int|
        0 <= i < actions.len() && (#[trigger] actions[i]) matches LogicAction::Gui(
            GuiMessage::RenderSource(_),
        )
}

/// The single-flight guarantee. While the compositor is busy, no message
/// other than its own completion handshake makes the actor send a mosaic
/// request; and whenever one is sent, the compositor is marked busy behind
/// it, so a second cannot follow before the handshake.
pub proof fn lemma_single_flight(
    pre: LogicState,
    message: LogicMessage,
    post: LogicState,
    actions: Seq<LogicAction>,
)
    requires
        pre.post(message, post, actions),
        !pre.compositor_free,
        !(message is CompositorFinished),
    ensures
        !sends_composite(actions),
        !post.compositor_free,
{
}

/// No message of a selection-preview render is a compositor request.
proof fn lemma_select_actions_gui(st: LogicState, acts: Seq<LogicAction>)
    requires
        st.select_actions_match(acts),
    ensures
        forall|i: int| 0 <= i < acts.len() ==> (#[trigger] acts[i]) is Gui,
{
    if st.last_source_size == Some(st.select_size) {
        if st.last_rendered_lines is Some {
            assert(acts =~= seq![
                LogicAction::Gui(GuiMessage::RenderLines(st.last_rendered_lines->0)),
                LogicAction::Gui(GuiMessage::RenderLines(st.spec_lines())),
            ]);
        } else {
            assert(acts =~= seq![LogicAction::Gui(GuiMessage::RenderLines(st.spec_lines()))]);
        }
    }
}

/// When re-rendering both previews emits a mosaic request, the request was
/// admitted by an open single-flight gate, which it closes.
proof fn lemma_both_renders_composite(st: LogicState, actions: Seq<LogicAction>, i: int)
    requires
        st.both_renders_match(actions),
        0 <= i < actions.len(),
        actions[i] matches LogicAction::Compositor(CompositeMessage::CompositeMosaic(_, _)),
    ensures
        st.compositor_free,
        !st.after_both_renders().compositor_free,
{
    let n = st.select_actions_len();
    lemma_select_actions_gui(st, actions.take(n));
    if i < n {
        assert(actions[i] == actions.take(n)[i]);
        assert(false);
    }
    let mid = st.after_select_render();
    if !(mid.result_modified && mid.compositor_free) {
        assert(actions.len() == n);
        assert(false);
    }
}

/// A mosaic request is issued only when the single-flight gate is open —
/// the compositor is free, or this very message is its completion
/// handshake — and issuing the request marks the compositor busy again.
pub proof fn lemma_composite_marks_busy(
    pre: LogicState,
    message: LogicMessage,
    post: LogicState,
    actions: Seq<LogicAction>,
)
    requires
        pre.post(message, post, actions),
        sends_composite(actions),
    ensures
        pre.compositor_free || message is CompositorFinished,
        !post.compositor_free,
{
    let i = choose|i: int|
        0 <= i < actions.len() && (#[trigger] actions[i]) matches LogicAction::Compositor(
            CompositeMessage::CompositeMosaic(_, _),
        );
    match message {
        LogicMessage::LoadImage(decoded) => match decoded {
            Ok(img) => {
                lemma_both_renders_composite(pre.loaded(img).with_pending(), actions, i);
            },
            Err(_) => {
                assert(false);
            },
        },
        LogicMessage::SaveImage(_) => {
            assert(false);
        },
        LogicMessage::ImageResized(id, size) => {
            let st = pre.resized(id, size);
            match id {
                ImageId::Select => {
                    lemma_select_actions_gui(st, actions);
                    assert(false);
                },
                ImageId::Result => {
                    assert(st.result_modified && st.compositor_free);
                },
            }
        },
        LogicMessage::MouseDown(button, x, y) => {
            lemma_both_renders_composite(pre.moused(button, x, y).with_pending(), actions, i);
        },
        LogicMessage::CompositorFinished => {
            lemma_both_renders_composite(
                LogicState { compositor_free: true, ..pre },
                actions,
                i,
            );
        },
        LogicMessage::ReturnBuffer(_) => {
            assert(false);
        },
    }
}

/// The completion handshake sends exactly the latest pending request, if
/// any: one mosaic request built from the patch and viewport size current at
/// the handshake — never a backlog — and none at all when nothing changed
/// since the last request.
pub proof fn lemma_handshake_retries(
    pre: LogicState,
    post: LogicState,
    actions: Seq<LogicAction>,
)
    requires
        pre.post(LogicMessage::CompositorFinished, post, actions),
    ensures
        sends_composite(actions) <==> pre.result_modified,
        pre.result_modified ==> (actions.last() matches LogicAction::Compositor(
            CompositeMessage::CompositeMosaic(patch, size),
        ) && patch@ == patch_view(pre.image@, pre.start, pre.end) && size == pre.result_size)
            && !post.compositor_free,
        !pre.result_modified ==> post.compositor_free,
        forall|i: int|
            0 <= i < actions.len() - 1 ==> !((#[trigger] actions[i])
                matches LogicAction::Compositor(CompositeMessage::CompositeMosaic(_, _))),
{
    let st = LogicState { compositor_free: true, ..pre };
    let mid = st.after_select_render();
    let n = st.select_actions_len();
    assert forall|i: int|
        0 <= i < n implies !((#[trigger] actions[i]) matches LogicAction::Compositor(
        CompositeMessage::CompositeMosaic(_, _),
    )) by {
        assert(actions[i] == actions.take(n)[i]);
        if st.last_source_size == Some(st.select_size) {
            if st.last_rendered_lines is Some {
                assert(actions.take(n) =~= seq![
                    LogicAction::Gui(GuiMessage::RenderLines(st.last_rendered_lines->0)),
                    LogicAction::Gui(GuiMessage::RenderLines(st.spec_lines())),
                ]);
            } else {
                assert(actions.take(n) =~= seq![
                    LogicAction::Gui(GuiMessage::RenderLines(st.spec_lines())),
                ]);
            }
        }
    }
    if pre.result_modified {
        assert(actions.last() == actions.skip(n)[0]);
        assert(sends_composite(actions)) by {
            assert((actions[actions.len() - 1]) matches LogicAction::Compositor(
                CompositeMessage::CompositeMosaic(_, _),
            ));
        }
    }
}

/// The render cache. A resize of the selection viewport to the size already
/// cached — in particular, the second of two equal resize events — sends
/// only overlay updates, never a full re-render; a resize to a new size
/// sends exactly one full re-render and records the new size, so the next
/// equal resize hits the cache.
pub proof fn lemma_render_cache(
    pre: LogicState,
    s: Size,
    post: LogicState,
    actions: Seq<LogicAction>,
)
    requires
        pre.post(LogicMessage::ImageResized(ImageId::Select, s), post, actions),
    ensures
        pre.last_source_size == Some(s) ==> !sends_full_render(actions),
        pre.last_source_size != Some(s) ==> sends_full_render(actions) && actions.len() == 2
            && !(actions[1] matches LogicAction::Gui(GuiMessage::RenderSource(_))),
        post.last_source_size == Some(s),
        post.select_size == s,
{
    let st = pre.resized(ImageId::Select, s);
    if pre.last_source_size == Some(s) {
        assert forall|i: int| 0 <= i < actions.len() implies !((#[trigger] actions[i])
            matches LogicAction::Gui(GuiMessage::RenderSource(_))) by {
            if st.last_rendered_lines is Some {
                assert(actions =~= seq![
                    LogicAction::Gui(GuiMessage::RenderLines(st.last_rendered_lines->0)),
                    LogicAction::Gui(GuiMessage::RenderLines(st.spec_lines())),
                ]);
            } else {
                assert(actions =~= seq![
                    LogicAction::Gui(GuiMessage::RenderLines(st.spec_lines())),
                ]);
            }
        }
    } else {
        assert(actions[0] matches LogicAction::Gui(GuiMessage::RenderSource(_)));
        assert(sends_full_render(actions));
    }
}

} // verus!
