//! Input routing while the interactive transcript workspace is open.
//!
//! The workspace shares the terminal with the existing composer: turn keys, history navigation
//! and the mouse wheel act on the transcript, everything else reaches the composer. Upward
//! history navigation near the top also asks the app to load older history.

use crate::events::{is_redraw, is_redraw_event, TuiEvent};
use crate::geometry::Rect;
use crate::keys::{is_pressed_spec, KeyEvent, MouseEventKind};
use crate::overlay::{is_workspace_navigation_key, synced_to_viewport, workspace_key_handled, EventOutcome, TranscriptOverlay};
use crate::overlay_types::TranscriptHistoryState;
use crate::text::{chars_of, push_char};
use vstd::prelude::*;

verus! {

/// What the app does with an event after the workspace looked at it.
#[derive(Clone, Copy, Debug, PartialEq, Eq, Structural)]
pub enum WorkspaceRoute {
    /// The transcript consumed the event; the app closes the workspace when `close`.
    Handled { close: bool, schedule_frame: bool },
    /// The key goes to the composer.
    ComposerKey(KeyEvent),
    /// The pasted text goes to the composer, with its line endings normalized.
    ComposerPaste,
    /// A redraw: the chat widget does its pre-draw work, then the event goes to the overlay.
    Redraw,
    /// The event goes to the overlay unchanged.
    Forward,
}

/// Whether an upward navigation key near the top asks for older history.
pub open spec fn key_loads_older(o: TranscriptOverlay, key: KeyEvent) -> bool {
    o.is_workspace_spec() && is_workspace_navigation_key(key) && (is_pressed_spec(o.view.keymap.jump_top@, key) || (
    o.view.scroll_offset <= match o.view.last_content_height {
        Some(h) => h,
        None => 0,
    } && (is_pressed_spec(o.view.keymap.scroll_up@, key) || is_pressed_spec(o.view.keymap.page_up@, key)
        || is_pressed_spec(o.view.keymap.half_page_up@, key))))
}

/// The history state the workspace shows when the app's request for older history, made for
/// this event, is under way.
pub open spec fn history_request_spec(o: TranscriptOverlay, event: TuiEvent) -> Option<TranscriptHistoryState> {
    match event {
        TuiEvent::Key(key) => if key_loads_older(o, key) {
            Some(
                if is_pressed_spec(o.view.keymap.jump_top@, key) {
                    TranscriptHistoryState::LoadingBeginning
                } else {
                    TranscriptHistoryState::LoadingOlder
                },
            )
        } else {
            None
        },
        TuiEvent::Mouse(kind) => if o.is_workspace_spec() && kind == MouseEventKind::ScrollUp && o.view.scroll_offset
            <= match o.view.last_content_height {
            Some(h) => h,
            None => 0,
        } {
            Some(TranscriptHistoryState::LoadingOlder)
        } else {
            None
        },
        _ => None,
    }
}

impl TranscriptOverlay {
    /// Whether the event asks for older history, and the state to show while it loads: loading
    /// from the beginning for a jump to the top, else loading older history.
    pub fn workspace_history_request(&self, event: TuiEvent) -> (r: Option<TranscriptHistoryState>)
        ensures
            r == history_request_spec(*self, event),
    {
        match event {
            TuiEvent::Key(key) => {
                if self.workspace_should_load_older(key) {
                    if self.should_load_from_start(key) {
                        Some(TranscriptHistoryState::LoadingBeginning)
                    } else {
                        Some(TranscriptHistoryState::LoadingOlder)
                    }
                } else {
                    None
                }
            },
            TuiEvent::Mouse(kind) => {
                if self.workspace_wheel_should_load_older(kind) {
                    Some(TranscriptHistoryState::LoadingOlder)
                } else {
                    None
                }
            },
            _ => None,
        }
    }

    /// Routes an event while the workspace is open. Keys and the wheel go to the transcript
    /// first (`transcript_area` is the transcript's area for the composer's current height);
    /// a key the transcript does not consume goes to the composer.
    pub fn route_workspace_event(&mut self, event: TuiEvent, transcript_area: Rect, heights: &Vec<u16>) -> (r:
        WorkspaceRoute)
        requires
            old(self).wf(),
            heights@.len() == old(self).cells@.len() || old(self).workspace_layout_cached_spec(
                if transcript_area.width >= 1 { transcript_area.width } else { 1 },
            ),
        ensures
            final(self).wf(),
            match event {
                TuiEvent::Key(key) => exists|outcome: EventOutcome|
                    #[trigger] workspace_key_handled(*old(self), key, transcript_area, heights@, *final(self), outcome)
                        && r == if outcome.handled {
                        WorkspaceRoute::Handled { close: final(self).is_done, schedule_frame: outcome.schedule_frame }
                    } else {
                        WorkspaceRoute::ComposerKey(key)
                    },
                TuiEvent::Mouse(kind) => r == (WorkspaceRoute::Handled {
                    close: false,
                    schedule_frame: old(self).is_workspace_spec() && kind != MouseEventKind::Other,
                }) && (old(self).is_workspace_spec() && kind != MouseEventKind::Other ==> synced_to_viewport(
                    TranscriptOverlay {
                        view: crate::pager::PagerView {
                            scroll_offset: if kind == MouseEventKind::ScrollUp {
                                crate::pager::sat_sub(old(self).view.scroll_offset as int, 3)
                            } else {
                                crate::pager::sat_add(old(self).view.scroll_offset as int, 3)
                            },
                            ..old(self).view
                        },
                        ..*old(self)
                    },
                    transcript_area,
                    heights@,
                    *final(self),
                )) && (!(old(self).is_workspace_spec() && kind != MouseEventKind::Other) ==> *final(self)
                    == *old(self)),
                TuiEvent::Paste => r == WorkspaceRoute::ComposerPaste && *final(self) == *old(self),
                _ => *final(self) == *old(self) && r == if is_redraw_event(event) {
                    WorkspaceRoute::Redraw
                } else {
                    WorkspaceRoute::Forward
                },
            },
    {
        match event {
            TuiEvent::Key(key) => {
                let outcome: EventOutcome = self.handle_workspace_key(key, transcript_area, heights);
                if outcome.handled {
                    WorkspaceRoute::Handled { close: self.is_done, schedule_frame: outcome.schedule_frame }
                } else {
                    WorkspaceRoute::ComposerKey(key)
                }
            },
            TuiEvent::Mouse(kind) => {
                let moved = self.handle_workspace_mouse(kind, transcript_area, heights);
                WorkspaceRoute::Handled { close: false, schedule_frame: moved }
            },
            TuiEvent::Paste => WorkspaceRoute::ComposerPaste,
            _ => if is_redraw(event) {
                WorkspaceRoute::Redraw
            } else {
                WorkspaceRoute::Forward
            },
        }
    }
}

/// The text with each CR LF pair, and then each remaining CR, turned into LF.
pub open spec fn normalized_newlines(s: Seq<char>) -> Seq<char>
    decreases s.len(),
{
    if s.len() == 0 {
        Seq::empty()
    } else if s[0] == '\r' && s.len() > 1 && s[1] == '\n' {
        seq!['\n'] + normalized_newlines(s.skip(2))
    } else if s[0] == '\r' {
        seq!['\n'] + normalized_newlines(s.skip(1))
    } else {
        seq![s[0]] + normalized_newlines(s.skip(1))
    }
}

/// Pasted text as the composer takes it: CR LF and lone CR become LF.
pub fn normalize_paste(text: &str) -> (r: String)
    ensures
        r@ == normalized_newlines(text@),
{
    let chars = chars_of(text);
    let ghost s = text@;
    let n = chars.len();
    let mut out = String::new();
    let mut i: usize = 0;
    assert(s.skip(0) =~= s);
    assert(out@ + normalized_newlines(s.skip(0)) =~= normalized_newlines(s));
    while i < n
        invariant
            0 <= i <= n,
            n == s.len(),
            chars@ == s,
            normalized_newlines(s) == out@ + normalized_newlines(s.skip(i as int)),
        decreases n - i,
    {
        let ghost rest = s.skip(i as int);
        assert(rest.len() > 0 && rest[0] == chars@[i as int]);
        if chars[i] == '\r' && i + 1 < n && chars[i + 1] == '\n' {
            assert(rest[1] == '\n');
            assert(rest.skip(2) =~= s.skip(i + 2));
            push_char(&mut out, '\n');
            i += 2;
        } else {
            assert(rest.skip(1) =~= s.skip(i + 1));
            if chars[i] == '\r' {
                push_char(&mut out, '\n');
            } else {
                push_char(&mut out, chars[i]);
            }
            i += 1;
        }
        assert(normalized_newlines(s) =~= out@ + normalized_newlines(s.skip(i as int)));
    }
    assert(s.skip(n as int) =~= Seq::<char>::empty());
    assert(normalized_newlines(s) =~= out@);
    out
}

/// Typing never goes to the transcript: a character key without Control or Alt (other than a
/// binding of the close-transcript action) leaves the workspace unchanged and unhandled, so it
/// reaches the composer.
pub proof fn law_plain_typing_reaches_composer(
    o: TranscriptOverlay,
    key: KeyEvent,
    transcript_area: Rect,
    heights: Seq<u16>,
    result: TranscriptOverlay,
    outcome: EventOutcome,
)
    requires
        key.code is Char,
        key.modifiers.bits == crate::keys::MODIFIER_NONE || key.modifiers.bits == crate::keys::MODIFIER_SHIFT,
        !is_pressed_spec(o.view.keymap.close_transcript@, key),
        workspace_key_handled(o, key, transcript_area, heights, result, outcome),
    ensures
        !outcome.handled,
        result == o,
{
}

} // verus!
