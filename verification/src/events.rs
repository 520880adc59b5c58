//! Terminal events as the overlays read them, and what an overlay asks its host to do next.

use crate::keys::{KeyEvent, MouseEventKind};
use vstd::prelude::*;

verus! {

/// An event delivered by the terminal loop.
#[derive(Clone, Copy, Debug, PartialEq, Eq, Structural)]
pub enum TuiEvent {
    Key(KeyEvent),
    /// Bracketed paste; the text travels beside the event.
    Paste,
    Mouse(MouseEventKind),
    Draw,
    Resume,
    Resize,
    FocusGained,
    FocusLost,
}

/// Whether the event asks for a new frame to be drawn now.
pub open spec fn is_redraw_event(event: TuiEvent) -> bool {
    event == TuiEvent::Draw || event == TuiEvent::Resume || event == TuiEvent::Resize || event
        == TuiEvent::FocusGained
}

/// What the host does after an overlay handled an event.
#[derive(Clone, Copy, Debug, PartialEq, Eq, Structural)]
pub enum OverlayAction {
    Nothing,
    /// The view moved: schedule a frame after the usual frame interval.
    ScheduleFrame,
    /// Draw the overlay into the full viewport now.
    Draw,
}

/// Whether `event` asks for a new frame to be drawn now.
pub fn is_redraw(event: TuiEvent) -> (r: bool)
    ensures
        r == is_redraw_event(event),
{
    match event {
        TuiEvent::Draw | TuiEvent::Resume | TuiEvent::Resize | TuiEvent::FocusGained => true,
        _ => false,
    }
}

} // verus!
