//! Core of a four-way mirror ("mosaic") image composer.
//!
//! The library owns everything that can be stated and proved: the RGBA image
//! buffer and its pixel transforms (mirror, mosaic, crop, nearest-neighbour
//! resize), the rational scale factor used to fit one rectangle inside
//! another and to translate between display and source coordinates, and the
//! two message-driven actors (selection logic and compositor) as pure
//! transition functions from state and message to new state and emitted
//! actions. Decoding and encoding image files, channels, threads and the
//! window toolkit live outside, in the surrounding application.

mod bytes;
mod composite;
mod draw;
mod image;
mod message;
mod scale;
mod state;
mod util;

pub use crate::bytes::{bytes_to_pixels, bytes_to_rgba, lemma_bytes_round_trip, pixels_to_bytes, rgba_to_bytes};
pub use crate::composite::{
    create_mosaic, lemma_mosaic_mirrors, lemma_mosaic_seams, mosaic_view, CompositorState,
};
pub use crate::draw::{
    draw_full_horizontal_line, draw_full_vertical_line, hline_view, negative, spec_negative,
    vline_view,
};
pub use crate::image::{
    lemma_mirror_pix, lemma_row_major_index, mirror_h_view, mirror_v_view, Image, ImageView,
    Pixel, Size,
};
pub use crate::message::{
    CompositeMessage, CompositorAction, GuiMessage, ImageId, LogicAction, LogicMessage,
    MessageReceiver, SelectionLines,
};
pub use crate::scale::{
    clamp_isize, display_to_source, frac_le, lemma_resize_bounds, nearest_view, resize,
    resize_factor, resize_view, source_to_display, spec_display_to_source, spec_factor,
    spec_scale_dim, spec_source_to_display, trunc_div, unit_view, Factor,
};
pub use crate::state::{
    extract_patch, lemma_composite_marks_busy, lemma_handshake_retries, lemma_normalized_swap,
    lemma_render_cache, lemma_single_flight, normalized_rect, patch_view, sends_composite, sends_full_render,
    LogicState, NormRect, Point,
};
pub use crate::util::{convert_err, log_err};
