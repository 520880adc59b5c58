//! What the transcript workspace reads of a committed history cell.
//!
//! A history cell in the terminal UI is a trait object that knows how to draw itself. The
//! workspace logic only asks a few questions of it: is it a user prompt (a turn start), is it the
//! session header, does it continue the previous stream (no blank separator row), is its height
//! stable enough to cache, and which local image files it references. Heights are measured by the
//! renderer and handed to the functions that need them.

use vstd::prelude::*;

verus! {

/// The three kinds of committed cell that the workspace distinguishes.
#[derive(Clone, Copy, Debug, PartialEq, Eq, Structural)]
pub enum CellKind {
    /// A user prompt; it starts a turn.
    User,
    /// The session header shown at the top of a transcript.
    SessionInfo,
    /// Any other cell (agent reply, tool output, ...).
    Other,
}

/// The plain values of one committed transcript cell.
#[derive(Clone, Debug)]
pub struct TranscriptCell {
    pub kind: CellKind,
    /// The cell continues the previous stream and gets no separator row above it.
    pub stream_continuation: bool,
    /// The cell's height depends only on the width, so it may be cached.
    pub stable_height: bool,
    /// Local image files attached to a user prompt.
    pub local_image_paths: Vec<String>,
}

impl TranscriptCell {
    /// A user prompt with the given attached local images.
    pub fn user(local_image_paths: Vec<String>) -> (c: TranscriptCell)
        ensures
            c.kind == CellKind::User,
            !c.stream_continuation,
            c.stable_height,
            c.local_image_paths@ == local_image_paths@,
    {
        TranscriptCell { kind: CellKind::User, stream_continuation: false, stable_height: true, local_image_paths }
    }

    /// A plain (non-user) cell.
    pub fn plain() -> (c: TranscriptCell)
        ensures
            c.kind == CellKind::Other,
            !c.stream_continuation,
            c.stable_height,
            c.local_image_paths@.len() == 0,
    {
        TranscriptCell { kind: CellKind::Other, stream_continuation: false, stable_height: true, local_image_paths: Vec::new() }
    }

    /// The session header cell.
    pub fn session_info() -> (c: TranscriptCell)
        ensures
            c.kind == CellKind::SessionInfo,
            !c.stream_continuation,
            c.stable_height,
            c.local_image_paths@.len() == 0,
    {
        TranscriptCell {
            kind: CellKind::SessionInfo,
            stream_continuation: false,
            stable_height: true,
            local_image_paths: Vec::new(),
        }
    }

    pub fn is_user(&self) -> (r: bool)
        ensures
            r == is_user_cell(*self),
    {
        match self.kind {
            CellKind::User => true,
            _ => false,
        }
    }

    pub fn is_session_info(&self) -> (r: bool)
        ensures
            r == (self.kind == CellKind::SessionInfo),
    {
        match self.kind {
            CellKind::SessionInfo => true,
            _ => false,
        }
    }
}

pub open spec fn is_user_cell(c: TranscriptCell) -> bool {
    c.kind == CellKind::User
}

} // verus!
