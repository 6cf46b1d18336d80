//! The messages that drive the two actors, and the actions the actors hand
//! back to their surroundings in reply.
//!
//! An actor here is a value with a `receive` method: it consumes one message
//! at a time and returns the actions to perform — buffers to render, a
//! request to forward, a warning to log, a file to write. Performing them
//! (channels, screens, files) is the caller's business.

use vstd::prelude::*;

use crate::image::{Image, Size};

verus! {

/// Which preview a resize event addresses.
#[derive(Clone, Copy, Debug, PartialEq, Eq, Structural)]
pub enum ImageId {
    Select,
    Result,
}

/// The selection overlay's edges, in display coordinates.
#[derive(Clone, Copy, Debug, PartialEq, Eq, Structural)]
pub struct SelectionLines {
    pub x1: isize,
    pub x2: isize,
    pub y1: isize,
    pub y2: isize,
}

/// A message to the selection actor.
pub enum LogicMessage {
    /// The outcome of decoding a newly chosen image file.
    LoadImage(Result<Image, String>),
    /// Save the mosaic of the current selection to this path.
    SaveImage(String),
    /// A preview's display area changed size.
    ImageResized(ImageId, Size),
    /// A pointer press or drag: button number and display coordinates.
    MouseDown(u32, isize, isize),
    /// The compositor's completion handshake.
    CompositorFinished,
    /// A buffer handed back by the presentation side; nothing to do.
    ReturnBuffer(Image),
}

/// A message to the compositor actor.
pub enum CompositeMessage {
    /// Build the mosaic of this patch, fitted into this target size.
    CompositeMosaic(Image, Size),
    /// Build the mosaic of this patch at full resolution, for this file path.
    SaveMosaic(Image, String),
}

/// A renderable result for the presentation side.
pub enum GuiMessage {
    /// The resized source preview.
    RenderSource(Image),
    /// The composited mosaic preview.
    RenderTarget(Image),
    /// The selection overlay to draw over the source preview.
    RenderLines(SelectionLines),
}

/// Everything the selection actor can ask its caller to do.
pub enum LogicAction {
    /// Hand this to the presentation side.
    Gui(GuiMessage),
    /// Forward this to the compositor actor.
    Compositor(CompositeMessage),
    /// Record this warning in the log.
    Log(String),
}

/// Everything the compositor actor can ask its caller to do.
pub enum CompositorAction {
    /// Hand this to the presentation side.
    Gui(GuiMessage),
    /// Deliver the completion handshake to the selection actor.
    Finished,
    /// Encode and write these pixels, laid out as flat RGBA bytes of an
    /// image of this size, to this path.
    WriteFile(Size, Vec<u8>, String),
}

/// An actor: consumes one message at a time, returns the actions to perform.
pub trait MessageReceiver<M>: Sized {
    type Action;

    /// The states and messages the actor accepts.
    spec fn msg_ok(self, message: M) -> bool;

    /// What holds of the new state and the emitted actions after one
    /// message.
    spec fn post(self, message: M, post: Self, actions: Seq<Self::Action>) -> bool;

    fn receive(&mut self, message: M) -> (actions: Vec<Self::Action>)
        requires
            old(self).msg_ok(message),
        ensures
            old(self).post(message, *final(self), actions@),
    ;
}

} // verus!
