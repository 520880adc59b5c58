//! Small value types of the transcript overlay.

use vstd::prelude::*;

verus! {

/// Whether the transcript overlay is the read-only viewer or the interactive workspace.
#[derive(Clone, Copy, Debug, PartialEq, Eq, Structural)]
pub enum TranscriptMode {
    Viewer,
    Workspace,
}

/// The header title of each mode.
pub open spec fn title_spec(mode: TranscriptMode) -> &'static str {
    match mode {
        TranscriptMode::Viewer => "T R A N S C R I P T",
        TranscriptMode::Workspace => "TRANSCRIPT · Option+Up/Down target · Option+Left fold · Option+Right expand · wheel/PgUp/PgDn scroll · Ctrl+T close",
    }
}

impl TranscriptMode {
    pub fn is_workspace(self) -> (r: bool)
        ensures
            r == (self == TranscriptMode::Workspace),
    {
        match self {
            TranscriptMode::Viewer => false,
            TranscriptMode::Workspace => true,
        }
    }

    /// The header title of the mode.
    pub fn title(self) -> (r: &'static str)
        ensures
            r == title_spec(self),
    {
        match self {
            TranscriptMode::Viewer => "T R A N S C R I P T",
            TranscriptMode::Workspace => "TRANSCRIPT · Option+Up/Down target · Option+Left fold · Option+Right expand · wheel/PgUp/PgDn scroll · Ctrl+T close",
        }
    }
}

/// Whether the fold target follows the visible transcript or was chosen with the turn keys.
#[derive(Clone, Copy, Debug, PartialEq, Eq, Structural)]
pub enum WorkspaceTargetMode {
    FollowViewport,
    Manual,
}

/// How much of the history is loaded.
#[derive(Clone, Copy, Debug, PartialEq, Eq, Structural)]
pub enum TranscriptHistoryState {
    Idle,
    LoadingOlder,
    LoadingBeginning,
    Partial,
    Failed,
    Complete,
}

pub open spec fn has_unloaded_history_spec(s: TranscriptHistoryState) -> bool {
    s == TranscriptHistoryState::LoadingOlder || s == TranscriptHistoryState::LoadingBeginning || s
        == TranscriptHistoryState::Partial || s == TranscriptHistoryState::Failed
}

pub open spec fn placeholder_spec(s: TranscriptHistoryState) -> Option<&'static str> {
    match s {
        TranscriptHistoryState::LoadingOlder | TranscriptHistoryState::LoadingBeginning => Some(
            "Loading earlier messages...",
        ),
        TranscriptHistoryState::Partial => Some("Earlier messages are available — scroll up to load them"),
        TranscriptHistoryState::Failed => Some("Earlier messages unavailable — scroll up to retry"),
        TranscriptHistoryState::Idle | TranscriptHistoryState::Complete => None,
    }
}

impl TranscriptHistoryState {
    pub fn default_state() -> (r: Self)
        ensures
            r == TranscriptHistoryState::Idle,
    {
        TranscriptHistoryState::Idle
    }

    /// Earlier history exists that is not loaded yet.
    pub fn has_unloaded_history(self) -> (r: bool)
        ensures
            r == has_unloaded_history_spec(self),
    {
        match self {
            TranscriptHistoryState::LoadingOlder | TranscriptHistoryState::LoadingBeginning
            | TranscriptHistoryState::Partial | TranscriptHistoryState::Failed => true,
            TranscriptHistoryState::Idle | TranscriptHistoryState::Complete => false,
        }
    }

    /// The line that replaces the session header while earlier history is not loaded.
    pub fn session_header_placeholder(self) -> (r: Option<&'static str>)
        ensures
            r == placeholder_spec(self),
    {
        match self {
            TranscriptHistoryState::LoadingOlder | TranscriptHistoryState::LoadingBeginning => Some(
                "Loading earlier messages...",
            ),
            TranscriptHistoryState::Partial => Some(
                "Earlier messages are available — scroll up to load them",
            ),
            TranscriptHistoryState::Failed => Some("Earlier messages unavailable — scroll up to retry"),
            TranscriptHistoryState::Idle | TranscriptHistoryState::Complete => None,
        }
    }

    /// The status label drawn at the top right of the transcript, if any.
    pub open spec fn status_label_spec(self) -> Option<&'static str> {
        match self {
            TranscriptHistoryState::Idle => None,
            TranscriptHistoryState::LoadingOlder | TranscriptHistoryState::LoadingBeginning => Some(
                " loading older history... ",
            ),
            TranscriptHistoryState::Partial => Some(" partial history | PgUp for earlier "),
            TranscriptHistoryState::Failed => Some(" history unavailable | PgUp to retry "),
            TranscriptHistoryState::Complete => Some(" start of history "),
        }
    }

    /// The status label drawn at the top right of the transcript, if any.
    pub fn status_label(self) -> (r: Option<&'static str>)
        ensures
            r == self.status_label_spec(),
    {
        match self {
            TranscriptHistoryState::Idle => None,
            TranscriptHistoryState::LoadingOlder | TranscriptHistoryState::LoadingBeginning => Some(
                " loading older history... ",
            ),
            TranscriptHistoryState::Partial => Some(" partial history | PgUp for earlier "),
            TranscriptHistoryState::Failed => Some(" history unavailable | PgUp to retry "),
            TranscriptHistoryState::Complete => Some(" start of history "),
        }
    }
}

/// One renderable of a pager view, by what it shows.
#[derive(Clone, Copy, Debug, PartialEq, Eq, Structural)]
pub enum RenderItem {
    /// Committed cell `index`; `inset` adds a blank row above it, `reserved_rows` are blank rows
    /// below it for terminal images, and `cached` marks a height that may be cached per width.
    Cell { index: usize, highlighted: bool, workspace: bool, inset: bool, reserved_rows: u16, cached: bool },
    /// The one-line placeholder that replaces the session header.
    Placeholder { state: TranscriptHistoryState },
    /// The one-line summary of a collapsed turn.
    HiddenSummary { hidden_cells: usize },
    /// The in-flight live tail with `insets` blank rows above it.
    LiveTail { insets: u16 },
    /// Renderable `index` of a static overlay.
    Block { index: usize },
}

} // verus!
