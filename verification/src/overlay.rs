//! The transcript overlay: committed cells, an optional live tail, and the workspace's turn
//! folding, projected onto a pager view.
//!
//! The overlay renders committed transcript cells plus an optional render-only live tail derived
//! from the in-flight active cell. The tail is recomputed only when its cache key changes.

use crate::cell::{CellKind, TranscriptCell};
use crate::geometry::Rect;
use crate::keys::{is_pressed, is_pressed_spec, KeyCode, KeyEvent, MouseEventKind, PagerKeymap, MODIFIER_ALT};
use crate::layout_index::{WorkspaceCellLayout, WorkspaceLayoutIndex, WorkspaceTurnLayout};
use crate::overlay_types::{
    has_unloaded_history_spec, title_spec, RenderItem, TranscriptHistoryState, TranscriptMode, WorkspaceTargetMode,
};
use crate::pager::PagerView;
use crate::projection::{items_prefix, items_spec, render_cell, render_cells};
use crate::turns::{reset_spec, TranscriptTurnState, TurnStateModel};
use vstd::prelude::*;

verus! {

/// Cache key of the live tail; changing any field implies a different rendered tail.
#[derive(Clone, Copy, Debug, PartialEq, Eq, Structural)]
pub struct LiveTailKey {
    /// Terminal width, which affects wrapping.
    pub width: u16,
    /// Revision that changes on in-place active cell transcript updates.
    pub revision: u64,
    /// Whether the tail continues the previous stream (no separator row).
    pub is_stream_continuation: bool,
    /// Optional animation tick of spinners and progress indicators.
    pub animation_tick: Option<u64>,
}

/// What the chat widget reports about its in-flight active cell.
#[derive(Clone, Copy, Debug, PartialEq, Eq, Structural)]
pub struct ActiveCellTranscriptKey {
    pub revision: u64,
    pub is_stream_continuation: bool,
    pub animation_tick: Option<u64>,
}

/// Rows the mouse wheel scrolls the workspace.
pub const WORKSPACE_WHEEL_SCROLL_ROWS: usize = 3;

/// The full-history transcript overlay and the interactive transcript workspace.
#[derive(Debug)]
pub struct TranscriptOverlay {
    /// Pager state and the renderables currently displayed.
    pub view: PagerView,
    /// Committed transcript cells (without the live tail).
    pub cells: Vec<TranscriptCell>,
    pub highlight_cell: Option<usize>,
    /// Cache key of the live tail appended after the committed cells.
    pub live_tail_key: Option<LiveTailKey>,
    pub live_tail_present: bool,
    pub history_state: TranscriptHistoryState,
    pub is_done: bool,
    pub mode: TranscriptMode,
    pub workspace_turns: TranscriptTurnState,
    pub workspace_target_mode: WorkspaceTargetMode,
    pub local_image_previews_enabled: bool,
    /// The fold target that the workspace marks while drawing.
    pub workspace_target: Option<usize>,
    /// Width-keyed physical layout used to find the turn at a row.
    pub workspace_layout_index: Option<WorkspaceLayoutIndex>,
}

/// The turn tracker's state with no turns.
pub open spec fn empty_turns() -> TurnStateModel {
    TurnStateModel { starts: Seq::empty(), selected: None, collapsed: Set::empty() }
}

/// With nothing collapsed, each committed cell has exactly one renderable.
pub proof fn lemma_items_one_per_cell(
    cells: Seq<TranscriptCell>,
    k: int,
    highlight_cell: Option<usize>,
    history_state: TranscriptHistoryState,
    turns: TurnStateModel,
    previews_enabled: bool,
    workspace: bool,
)
    requires
        0 <= k <= cells.len(),
        turns.collapsed == Set::<usize>::empty(),
    ensures
        items_prefix(cells, k, highlight_cell, history_state, turns, previews_enabled, workspace).len() == k,
    decreases k,
{
    if k > 0 {
        lemma_items_one_per_cell(cells, k - 1, highlight_cell, history_state, turns, previews_enabled, workspace);
        assert(!crate::turns::is_hidden_spec(turns, (k - 1) as usize));
    }
}

impl TranscriptOverlay {
    /// The overlay's structural invariant.
    pub open spec fn wf(&self) -> bool {
        &&& self.workspace_turns.wf()
        &&& self.mode == TranscriptMode::Viewer ==> self.workspace_turns@.collapsed == Set::<usize>::empty()
            && self.workspace_turns@.selected is None
        &&& self.mode == TranscriptMode::Viewer ==> self.view.renderables@.len() >= self.cells@.len() + (
        if self.live_tail_present {
            1int
        } else {
            0int
        })
        &&& self.live_tail_present ==> self.view.renderables@.len() > 0
            && self.view.renderables@.last() is LiveTail
        &&& match self.workspace_layout_index {
            Some(index) => index.wf(),
            None => true,
        }
    }

    pub open spec fn is_workspace_spec(&self) -> bool {
        self.mode == TranscriptMode::Workspace
    }

    /// The renderables of the committed cells under the current state.
    pub open spec fn committed_items(&self) -> Seq<RenderItem> {
        items_spec(
            self.cells@,
            self.highlight_cell,
            self.history_state,
            self.workspace_turns@,
            self.local_image_previews_enabled,
            self.is_workspace_spec(),
        )
    }

    /// An overlay in `mode` for a fixed set of committed cells, scrolled to the bottom.
    pub fn with_mode(transcript_cells: Vec<TranscriptCell>, keymap: PagerKeymap, mode: TranscriptMode) -> (r: Self)
        ensures
            r.wf(),
            r.cells@ == transcript_cells@,
            r.mode == mode,
            r.workspace_turns@ == (if mode == TranscriptMode::Workspace {
                reset_spec(transcript_cells@)
            } else {
                empty_turns()
            }),
            r.workspace_target == r.workspace_turns@.selected,
            r.view.renderables@ == r.committed_items(),
            r.view.scroll_offset == usize::MAX,
            r.view.keymap == keymap,
            r.view.title@ == title_spec(mode)@,
            r.view.workspace_header == (mode == TranscriptMode::Workspace),
            r.view.last_content_height is None,
            r.view.last_rendered_height is None,
            r.view.scroll_percentage_visible,
            r.view.pending_scroll_chunk is None,
            r.highlight_cell is None,
            r.live_tail_key is None,
            !r.live_tail_present,
            r.history_state == TranscriptHistoryState::Idle,
            !r.is_done,
            r.workspace_target_mode == WorkspaceTargetMode::FollowViewport,
            !r.local_image_previews_enabled,
            r.workspace_layout_index is None,
    {
        let workspace = mode.is_workspace();
        let workspace_turns = if workspace {
            TranscriptTurnState::new(&transcript_cells)
        } else {
            TranscriptTurnState::empty()
        };
        let workspace_target = workspace_turns.selected_turn_start();
        let renderables = render_cells(
            &transcript_cells,
            None,
            TranscriptHistoryState::Idle,
            &workspace_turns,
            false,
            workspace,
        );
        proof {
            if !workspace {
                lemma_items_one_per_cell(
                    transcript_cells@,
                    transcript_cells@.len() as int,
                    None,
                    TranscriptHistoryState::Idle,
                    workspace_turns@,
                    false,
                    false,
                );
            }
        }
        let mut view = PagerView::new(renderables, mode.title().to_string(), usize::MAX, keymap);
        view.workspace_header = workspace;
        TranscriptOverlay {
            view,
            cells: transcript_cells,
            highlight_cell: None,
            live_tail_key: None,
            live_tail_present: false,
            history_state: TranscriptHistoryState::Idle,
            is_done: false,
            mode,
            workspace_turns,
            workspace_target_mode: WorkspaceTargetMode::FollowViewport,
            local_image_previews_enabled: false,
            workspace_target,
            workspace_layout_index: None,
        }
    }
}

/// `items` followed by the live tail, if any.
pub open spec fn with_tail(items: Seq<RenderItem>, tail: Option<RenderItem>) -> Seq<RenderItem> {
    match tail {
        Some(t) => items.push(t),
        None => items,
    }
}

/// Whether some cell is the session header.
pub open spec fn has_session_info(cells: Seq<TranscriptCell>) -> bool {
    exists|i: int| 0 <= i < cells.len() && #[trigger] cells[i].kind == CellKind::SessionInfo
}

/// The live tail with `has_prior_cells` deciding its separator row.
pub open spec fn live_tail_item(has_prior_cells: bool, is_stream_continuation: bool) -> RenderItem {
    RenderItem::LiveTail { insets: if has_prior_cells && !is_stream_continuation { 1 } else { 0 } }
}

/// The live tail that the overlay currently shows, as taking it returns it.
pub open spec fn taken_tail(o: TranscriptOverlay) -> Option<RenderItem> {
    if o.live_tail_present && o.view.renderables@.len() > 0 {
        Some(o.view.renderables@.last())
    } else {
        None
    }
}

/// The renderables left after taking the live tail.
pub open spec fn without_tail(o: TranscriptOverlay) -> Seq<RenderItem> {
    if o.live_tail_present && o.view.renderables@.len() > 0 {
        o.view.renderables@.drop_last()
    } else {
        o.view.renderables@
    }
}

/// The state after the live tail was taken and the renderables rebuilt over `o`'s cells.
pub open spec fn rebuilt(o: TranscriptOverlay, tail: Option<RenderItem>, result: TranscriptOverlay) -> bool {
    &&& result.view.renderables@ == with_tail(o.committed_items(), tail)
    &&& result == (TranscriptOverlay {
        view: PagerView { renderables: result.view.renderables, ..o.view },
        live_tail_present: tail is Some,
        workspace_target: if o.is_workspace_spec() {
            o.workspace_turns@.selected
        } else {
            o.workspace_target
        },
        workspace_layout_index: if o.is_workspace_spec() {
            None
        } else {
            o.workspace_layout_index
        },
        ..o
    })
}

/// Whether `cells` holds the session header.
pub fn cells_have_session_info(cells: &Vec<TranscriptCell>) -> (r: bool)
    ensures
        r == has_session_info(cells@),
{
    let n = cells.len();
    let mut i: usize = 0;
    while i < n
        invariant
            0 <= i <= n,
            n == cells.len(),
            forall|k: int| 0 <= k < i ==> cells@[k].kind != CellKind::SessionInfo,
        decreases n - i,
    {
        if cells[i].is_session_info() {
            return true;
        }
        i += 1;
    }
    false
}

impl TranscriptOverlay {
    /// A viewer overlay for a fixed set of committed cells.
    pub fn new(transcript_cells: Vec<TranscriptCell>, keymap: PagerKeymap) -> (r: Self)
        ensures
            r.wf(),
            r.cells@ == transcript_cells@,
            r.mode == TranscriptMode::Viewer,
            r.view.keymap == keymap,
            r.view.renderables@ == r.committed_items(),
            r.view.scroll_offset == usize::MAX,
            !r.live_tail_present,
            r.highlight_cell is None,
            r.history_state == TranscriptHistoryState::Idle,
            !r.is_done,
            r.workspace_turns@ == empty_turns(),
    {
        Self::with_mode(transcript_cells, keymap, TranscriptMode::Viewer)
    }

    /// An interactive workspace overlay for a fixed set of committed cells.
    pub fn new_workspace(transcript_cells: Vec<TranscriptCell>, keymap: PagerKeymap) -> (r: Self)
        ensures
            r.wf(),
            r.cells@ == transcript_cells@,
            r.mode == TranscriptMode::Workspace,
            r.view.keymap == keymap,
            r.workspace_turns@ == reset_spec(transcript_cells@),
            r.workspace_target == r.workspace_turns@.selected,
            r.view.renderables@ == r.committed_items(),
            r.view.scroll_offset == usize::MAX,
            !r.live_tail_present,
            r.highlight_cell is None,
            r.history_state == TranscriptHistoryState::Idle,
            !r.is_done,
            r.workspace_target_mode == WorkspaceTargetMode::FollowViewport,
            r.workspace_layout_index is None,
    {
        Self::with_mode(transcript_cells, keymap, TranscriptMode::Workspace)
    }

    pub fn is_workspace(&self) -> (r: bool)
        ensures
            r == self.is_workspace_spec(),
    {
        self.mode.is_workspace()
    }

    pub fn is_done(&self) -> (r: bool)
        ensures
            r == self.is_done,
    {
        self.is_done
    }

    /// Whether the pager view is pinned to the bottom.
    pub fn is_scrolled_to_bottom(&self) -> (r: bool)
        ensures
            r == self.view.is_scrolled_to_bottom_spec(),
    {
        self.view.is_scrolled_to_bottom()
    }

    /// Removes and returns the live-tail renderable, if present: it is always the last renderable.
    pub fn take_live_tail_renderable(&mut self) -> (r: Option<RenderItem>)
        ensures
            r == taken_tail(*old(self)),
            final(self).view.renderables@ == without_tail(*old(self)),
            *final(self) == (TranscriptOverlay {
                view: PagerView { renderables: final(self).view.renderables, ..old(self).view },
                live_tail_present: false,
                ..*old(self)
            }),
    {
        if !self.live_tail_present {
            return None;
        }
        self.live_tail_present = false;
        self.view.renderables.pop()
    }

    /// The live-tail renderable; it gets a separator row when it follows committed cells and does
    /// not continue their stream.
    pub fn live_tail_renderable(has_prior_cells: bool, is_stream_continuation: bool) -> (r: RenderItem)
        ensures
            r == live_tail_item(has_prior_cells, is_stream_continuation),
    {
        RenderItem::LiveTail { insets: if has_prior_cells && !is_stream_continuation { 1 } else { 0 } }
    }

    /// Discards the cached workspace layout.
    pub fn invalidate_workspace_layout(&mut self)
        ensures
            *final(self) == (TranscriptOverlay {
                workspace_layout_index: if old(self).is_workspace_spec() {
                    None
                } else {
                    old(self).workspace_layout_index
                },
                ..*old(self)
            }),
    {
        if self.is_workspace() {
            self.workspace_layout_index = None;
        }
    }

    /// Rebuilds the renderables from the committed cells and re-attaches `tail_renderable`.
    /// The live tail must have been taken first.
    pub fn rebuild_renderables(&mut self, tail_renderable: Option<RenderItem>)
        requires
            old(self).workspace_turns.wf(),
            !old(self).live_tail_present,
            tail_renderable matches Some(t) ==> t is LiveTail,
        ensures
            rebuilt(*old(self), tail_renderable, *final(self)),
    {
        self.invalidate_workspace_layout();
        if self.is_workspace() {
            self.workspace_target = self.workspace_turns.selected_turn_start();
        }
        let mut renderables = render_cells(
            &self.cells,
            self.highlight_cell,
            self.history_state,
            &self.workspace_turns,
            self.local_image_previews_enabled,
            self.is_workspace(),
        );
        if let Some(tail) = tail_renderable {
            renderables.push(tail);
            self.live_tail_present = true;
        }
        self.view.renderables = renderables;
    }

    /// Takes the live tail and rebuilds the renderables around it.
    fn retake_and_rebuild(&mut self)
        requires
            old(self).wf(),
        ensures
            final(self).wf(),
            rebuilt(*old(self), taken_tail(*old(self)), *final(self)),
    {
        let live_tail = self.take_live_tail_renderable();
        self.rebuild_renderables(live_tail);
        proof {
            if !self.is_workspace_spec() {
                lemma_items_one_per_cell(
                    self.cells@,
                    self.cells@.len() as int,
                    self.highlight_cell,
                    self.history_state,
                    self.workspace_turns@,
                    self.local_image_previews_enabled,
                    false,
                );
            }
        }
    }

    /// Turns local image previews on or off and rebuilds the renderables when that changes.
    pub fn set_local_image_previews_enabled(&mut self, enabled: bool)
        requires
            old(self).wf(),
        ensures
            final(self).wf(),
            old(self).local_image_previews_enabled == enabled ==> *final(self) == *old(self),
            old(self).local_image_previews_enabled != enabled ==> rebuilt(
                TranscriptOverlay { local_image_previews_enabled: enabled, ..*old(self) },
                taken_tail(*old(self)),
                *final(self),
            ),
    {
        if self.local_image_previews_enabled == enabled {
            return;
        }
        self.local_image_previews_enabled = enabled;
        self.retake_and_rebuild();
    }

    /// Rebuilds the workspace projection after external cell state changed, keeping the scroll
    /// offset and the selected turn.
    pub fn invalidate_workspace_catalog_view(&mut self)
        requires
            old(self).wf(),
        ensures
            final(self).wf(),
            !old(self).is_workspace_spec() ==> *final(self) == *old(self),
            old(self).is_workspace_spec() ==> rebuilt(*old(self), taken_tail(*old(self)), *final(self)),
    {
        if !self.is_workspace() {
            return;
        }
        self.retake_and_rebuild();
    }

    /// Records how much history is loaded and returns the previous state.
    pub fn set_history_state(&mut self, state: TranscriptHistoryState) -> (r: TranscriptHistoryState)
        requires
            old(self).wf(),
        ensures
            final(self).wf(),
            r == old(self).history_state,
            r == state ==> *final(self) == *old(self),
            r != state ==> ({
                let updated = TranscriptOverlay {
                    history_state: state,
                    view: PagerView {
                        scroll_percentage_visible: !has_unloaded_history_spec(state),
                        scroll_offset: if r == TranscriptHistoryState::LoadingBeginning && state
                            == TranscriptHistoryState::Complete {
                            0
                        } else {
                            old(self).view.scroll_offset
                        },
                        ..old(self).view
                    },
                    ..*old(self)
                };
                if has_session_info(old(self).cells@) {
                    rebuilt(updated, taken_tail(updated), *final(self))
                } else {
                    *final(self) == updated
                }
            }),
    {
        let previous = self.history_state;
        if previous == state {
            return previous;
        }
        if previous == TranscriptHistoryState::LoadingBeginning && state == TranscriptHistoryState::Complete {
            self.view.scroll_offset = 0;
        }
        self.history_state = state;
        self.view.scroll_percentage_visible = !state.has_unloaded_history();
        if cells_have_session_info(&self.cells) {
            self.retake_and_rebuild();
        }
        previous
    }
}

/// The viewer's renderables after the highlight moved from `previous` to `cell`: each of the two
/// cells that exists is rendered again.
pub open spec fn viewer_highlight_items(o: TranscriptOverlay, previous: Option<usize>, cell: Option<usize>) -> Seq<
    RenderItem,
> {
    let redraw = |items: Seq<RenderItem>, index: Option<usize>|
        match index {
            Some(i) => if i < o.cells@.len() {
                items.update(
                    i as int,
                    crate::projection::cell_item_spec(
                        o.cells@[i as int],
                        i,
                        cell,
                        o.history_state,
                        0,
                        false,
                    ),
                )
            } else {
                items
            },
            None => items,
        };
    redraw(redraw(o.view.renderables@, previous), cell)
}

/// An index after `added` cells were inserted at `insert_at`.
pub open spec fn shift_option(index: Option<usize>, insert_at: usize, added: usize) -> Option<usize> {
    match index {
        Some(i) => Some(crate::turns::shift_index(i, insert_at, added)),
        None => None,
    }
}

/// The highlighted cell after cells `start..end` were replaced by one: a highlight inside the
/// range moves to the replacement, one after it moves left by the removed cells minus one.
pub open spec fn consolidated_highlight(highlight: Option<usize>, start: usize, end: usize) -> Option<usize> {
    match highlight {
        None => None,
        Some(h) => if h < start {
            Some(h)
        } else if h < end {
            Some(start)
        } else {
            Some((h - (end - start - 1)) as usize)
        },
    }
}

impl TranscriptOverlay {
    /// Moves the viewer highlight to `cell` and requests that it be scrolled into view.
    pub fn set_highlight_cell(&mut self, cell: Option<usize>)
        requires
            old(self).wf(),
        ensures
            final(self).wf(),
            final(self).highlight_cell == cell,
            final(self).view.pending_scroll_chunk == (match cell {
                Some(idx) => Some(idx),
                None => old(self).view.pending_scroll_chunk,
            }),
            old(self).highlight_cell == cell ==> *final(self) == (TranscriptOverlay {
                highlight_cell: cell,
                view: PagerView { pending_scroll_chunk: final(self).view.pending_scroll_chunk, ..old(self).view },
                ..*old(self)
            }),
            old(self).highlight_cell != cell && old(self).is_workspace_spec() ==> rebuilt(
                TranscriptOverlay {
                    highlight_cell: cell,
                    view: PagerView { pending_scroll_chunk: final(self).view.pending_scroll_chunk, ..old(self).view },
                    ..*old(self)
                },
                taken_tail(*old(self)),
                *final(self),
            ),
            old(self).highlight_cell != cell && !old(self).is_workspace_spec() ==> {
                &&& final(self).view.renderables@ == viewer_highlight_items(*old(self), old(self).highlight_cell, cell)
                &&& *final(self) == (TranscriptOverlay {
                    highlight_cell: cell,
                    view: PagerView {
                        renderables: final(self).view.renderables,
                        pending_scroll_chunk: final(self).view.pending_scroll_chunk,
                        ..old(self).view
                    },
                    ..*old(self)
                })
            },
    {
        let previous = self.highlight_cell;
        self.highlight_cell = cell;
        if let Some(idx) = cell {
            self.view.scroll_chunk_into_view(idx);
        }
        if previous != cell {
            if self.is_workspace() {
                self.retake_and_rebuild();
            } else {
                if let Some(index) = previous {
                    if index < self.cells.len() {
                        let item = render_cell(&self.cells[index], index, cell, self.history_state, 0, false);
                        self.view.renderables.set(index, item);
                    }
                }
                if let Some(index) = cell {
                    if index < self.cells.len() {
                        let item = render_cell(&self.cells[index], index, cell, self.history_state, 0, false);
                        self.view.renderables.set(index, item);
                    }
                }
            }
        }
    }
}

/// The live tail with one more separator row above it.
pub open spec fn inset_tail(t: RenderItem) -> RenderItem {
    match t {
        RenderItem::LiveTail { insets } => RenderItem::LiveTail {
            insets: crate::geometry::sat_add_u16(insets, 1),
        },
        other => other,
    }
}

/// Index of the last session header, if any.
pub open spec fn last_session_info(cells: Seq<TranscriptCell>) -> Option<int>
    decreases cells.len(),
{
    if cells.len() == 0 {
        None
    } else if cells.last().kind == CellKind::SessionInfo {
        Some(cells.len() - 1)
    } else {
        last_session_info(cells.drop_last())
    }
}

/// Where prepended history goes: right after the last session header, else at the start.
pub open spec fn insert_index_spec(cells: Seq<TranscriptCell>) -> usize {
    match last_session_info(cells) {
        Some(i) => (i + 1) as usize,
        None => 0,
    }
}

pub proof fn lemma_last_session_info_bound(cells: Seq<TranscriptCell>)
    ensures
        match last_session_info(cells) {
            Some(i) => 0 <= i < cells.len() && cells[i].kind == CellKind::SessionInfo,
            None => true,
        },
    decreases cells.len(),
{
    if cells.len() > 0 && cells.last().kind != CellKind::SessionInfo {
        lemma_last_session_info_bound(cells.drop_last());
    }
}

impl TranscriptOverlay {
    /// Appends a committed cell, keeping the live tail after it; a view pinned to the bottom stays
    /// pinned. In the workspace, a new user turn appended at the bottom while the target follows
    /// the viewport becomes the fold target.
    pub fn insert_cell(&mut self, cell: TranscriptCell)
        requires
            old(self).wf(),
        ensures
            final(self).wf(),
            final(self).cells@ == old(self).cells@.push(cell),
            ({
                let follow = old(self).view.is_scrolled_to_bottom_spec();
                let tail = taken_tail(*old(self));
                let offset = if follow {
                    usize::MAX
                } else {
                    old(self).view.scroll_offset
                };
                if old(self).is_workspace_spec() {
                    let refreshed = crate::turns::refresh_spec(old(self).workspace_turns@, old(self).cells@.push(cell));
                    let turns = if follow && cell.kind == CellKind::User
                        && old(self).workspace_target_mode == WorkspaceTargetMode::FollowViewport {
                        crate::turns::select_latest_spec(refreshed).0
                    } else {
                        refreshed
                    };
                    &&& final(self).workspace_turns@ == turns
                    &&& rebuilt(
                        TranscriptOverlay {
                            cells: final(self).cells,
                            workspace_turns: final(self).workspace_turns,
                            live_tail_present: false,
                            view: PagerView { scroll_offset: offset, ..old(self).view },
                            ..*old(self)
                        },
                        tail,
                        *final(self),
                    )
                } else {
                    let item = crate::projection::cell_item_spec(
                        cell,
                        old(self).cells@.len() as usize,
                        old(self).highlight_cell,
                        old(self).history_state,
                        0,
                        false,
                    );
                    let new_tail = match tail {
                        Some(t) => if old(self).cells@.len() == 0 && (old(self).live_tail_key matches Some(k)
                            && !k.is_stream_continuation) {
                            Some(inset_tail(t))
                        } else {
                            Some(t)
                        },
                        None => None,
                    };
                    &&& final(self).view.renderables@ == with_tail(without_tail(*old(self)).push(item), new_tail)
                    &&& *final(self) == (TranscriptOverlay {
                        cells: final(self).cells,
                        live_tail_present: tail is Some,
                        view: PagerView {
                            renderables: final(self).view.renderables,
                            scroll_offset: offset,
                            ..old(self).view
                        },
                        ..*old(self)
                    })
                }
            }),
    {
        let follow_bottom = self.view.is_scrolled_to_bottom();
        let appended_user_turn = cell.is_user();
        let tail_renderable = self.take_live_tail_renderable();
        if !self.is_workspace() {
            let had_prior_cells = self.cells.len() > 0;
            let cell_renderable = render_cell(&cell, self.cells.len(), self.highlight_cell, self.history_state, 0, false);
            self.cells.push(cell);
            self.view.renderables.push(cell_renderable);
            if let Some(tail) = tail_renderable {
                let wrap = !had_prior_cells && match self.live_tail_key {
                    Some(key) => !key.is_stream_continuation,
                    None => false,
                };
                let tail = if wrap {
                    match tail {
                        RenderItem::LiveTail { insets } => RenderItem::LiveTail { insets: insets.saturating_add(1) },
                        other => other,
                    }
                } else {
                    tail
                };
                self.view.renderables.push(tail);
                self.live_tail_present = true;
            }
            if follow_bottom {
                self.view.scroll_offset = usize::MAX;
            }
            return;
        }
        self.cells.push(cell);
        self.workspace_turns.refresh_after_append(&self.cells);
        if follow_bottom && appended_user_turn && self.workspace_target_mode == WorkspaceTargetMode::FollowViewport {
            if self.workspace_turns.select_latest_turn() {
                self.workspace_target = self.workspace_turns.selected_turn_start();
            }
        }
        if follow_bottom {
            self.view.scroll_offset = usize::MAX;
        }
        self.rebuild_renderables(tail_renderable);
    }

    /// Where prepended history goes: right after the last session header, else at the start.
    pub fn prepend_insert_index(&self) -> (r: usize)
        ensures
            r == insert_index_spec(self.cells@),
            r <= self.cells@.len(),
    {
        proof {
            lemma_last_session_info_bound(self.cells@);
        }
        let n = self.cells.len();
        let mut i: usize = n;
        assert(self.cells@.take(n as int) =~= self.cells@);
        while i > 0
            invariant
                0 <= i <= n,
                n == self.cells.len(),
                last_session_info(self.cells@) == last_session_info(self.cells@.take(i as int)),
            decreases i,
        {
            assert(self.cells@.take(i as int).drop_last() =~= self.cells@.take(i - 1));
            assert(self.cells@.take(i as int).last() == self.cells@[i - 1]);
            if self.cells[i - 1].is_session_info() {
                return i;
            }
            i -= 1;
        }
        0
    }
}

/// The height of a renderable given the committed cells' heights and the live tail's height.
pub open spec fn item_height_spec(item: RenderItem, cell_heights: Seq<u16>, tail_height: u16) -> usize {
    match item {
        RenderItem::Cell { index, inset, reserved_rows, .. } => if index < cell_heights.len() {
            crate::geometry::sat_add_u16(
                crate::geometry::sat_add_u16(
                    cell_heights[index as int],
                    if inset {
                        1
                    } else {
                        0
                    },
                ),
                reserved_rows,
            ) as usize
        } else {
            0
        },
        RenderItem::Placeholder { .. } => 1,
        RenderItem::HiddenSummary { .. } => 1,
        RenderItem::LiveTail { insets } => crate::geometry::sat_add_u16(tail_height, insets) as usize,
        RenderItem::Block { index } => if index < cell_heights.len() {
            cell_heights[index as int] as usize
        } else {
            0
        },
    }
}

/// The heights of `items`.
pub open spec fn item_heights_spec(items: Seq<RenderItem>, cell_heights: Seq<u16>, tail_height: u16) -> Seq<usize> {
    items.map_values(|item: RenderItem| item_height_spec(item, cell_heights, tail_height))
}

/// The height of one renderable: a cell's measured height plus its separator row and reserved
/// image rows; one row for a placeholder or a fold summary; the tail's height plus its separator
/// rows.
pub fn item_height(item: RenderItem, cell_heights: &Vec<u16>, tail_height: u16) -> (r: usize)
    ensures
        r == item_height_spec(item, cell_heights@, tail_height),
{
    match item {
        RenderItem::Cell { index, inset, reserved_rows, .. } => {
            if index < cell_heights.len() {
                let h = cell_heights[index].saturating_add(if inset { 1 } else { 0 });
                h.saturating_add(reserved_rows) as usize
            } else {
                0
            }
        },
        RenderItem::Placeholder { .. } => 1,
        RenderItem::HiddenSummary { .. } => 1,
        RenderItem::LiveTail { insets } => tail_height.saturating_add(insets) as usize,
        RenderItem::Block { index } => {
            if index < cell_heights.len() {
                cell_heights[index] as usize
            } else {
                0
            }
        },
    }
}

/// The heights of `items`, one per renderable.
pub fn renderable_heights(items: &Vec<RenderItem>, cell_heights: &Vec<u16>, tail_height: u16) -> (r: Vec<usize>)
    ensures
        r@ == item_heights_spec(items@, cell_heights@, tail_height),
{
    let mut r: Vec<usize> = Vec::new();
    let n = items.len();
    let mut i: usize = 0;
    while i < n
        invariant
            0 <= i <= n,
            n == items.len(),
            r@ == item_heights_spec(items@.take(i as int), cell_heights@, tail_height),
        decreases n - i,
    {
        r.push(item_height(items[i], cell_heights, tail_height));
        assert(items@.take(i + 1) =~= items@.take(i as int).push(items@[i as int]));
        i += 1;
    }
    assert(items@.take(n as int) =~= items@);
    r
}

/// The cells after `added` were inserted at `insert_at`.
pub open spec fn spliced_cells(cells: Seq<TranscriptCell>, insert_at: int, added: Seq<TranscriptCell>) -> Seq<TranscriptCell> {
    cells.subrange(0, insert_at) + added + cells.subrange(insert_at, cells.len() as int)
}

/// The cells after `start..end` was replaced by `consolidated`.
pub open spec fn consolidated_cells(cells: Seq<TranscriptCell>, start: int, end: int, consolidated: TranscriptCell) -> Seq<
    TranscriptCell,
> {
    cells.subrange(0, start).push(consolidated) + cells.subrange(end, cells.len() as int)
}

/// The committed cells have at most two renderables each (a cell and a fold summary).
pub proof fn lemma_items_len_bound(
    cells: Seq<TranscriptCell>,
    k: int,
    highlight_cell: Option<usize>,
    history_state: TranscriptHistoryState,
    turns: TurnStateModel,
    previews_enabled: bool,
    workspace: bool,
)
    requires
        0 <= k,
    ensures
        items_prefix(cells, k, highlight_cell, history_state, turns, previews_enabled, workspace).len() <= 2 * k,
    decreases k,
{
    if k > 0 {
        lemma_items_len_bound(cells, k - 1, highlight_cell, history_state, turns, previews_enabled, workspace);
    }
}

/// The renderables after `added` is prepended to `o`'s history.
pub open spec fn prepended_items(o: TranscriptOverlay, added: Seq<TranscriptCell>) -> Seq<RenderItem> {
    let insert_at = insert_index_spec(o.cells@);
    let n = added.len() as usize;
    let cells = spliced_cells(o.cells@, insert_at as int, added);
    let turns = if o.is_workspace_spec() {
        crate::turns::refresh_spec(crate::turns::shift_spec(o.workspace_turns@, insert_at, n), cells)
    } else {
        o.workspace_turns@
    };
    with_tail(
        items_spec(
            cells,
            shift_option(o.highlight_cell, insert_at, n),
            o.history_state,
            turns,
            o.local_image_previews_enabled,
            o.is_workspace_spec(),
        ),
        taken_tail(o),
    )
}

impl TranscriptOverlay {
    /// The heights of the current renderables.
    pub fn renderable_heights(&self, cell_heights: &Vec<u16>, tail_height: u16) -> (r: Vec<usize>)
        ensures
            r@ == item_heights_spec(self.view.renderables@, cell_heights@, tail_height),
    {
        renderable_heights(&self.view.renderables, cell_heights, tail_height)
    }

    /// Prepends history without moving the visible content and returns where it was inserted.
    ///
    /// `heights_before` and `heights_after` are the committed cells' heights at the drawing width
    /// before and after the insertion; `tail_height` is the live tail's.
    pub fn prepend(
        &mut self,
        cells: Vec<TranscriptCell>,
        heights_before: &Vec<u16>,
        heights_after: &Vec<u16>,
        tail_height: u16,
    ) -> (r: usize)
        requires
            old(self).wf(),
            old(self).cells@.len() + cells@.len() <= usize::MAX,
            crate::pager::sum_heights(item_heights_spec(old(self).view.renderables@, heights_before@, tail_height))
                <= usize::MAX,
            cells@.len() > 0 ==> crate::pager::sum_heights(
                item_heights_spec(prepended_items(*old(self), cells@), heights_after@, tail_height),
            ) <= usize::MAX,
        ensures
            final(self).wf(),
            cells@.len() == 0 ==> r == 0 && *final(self) == *old(self),
            cells@.len() > 0 ==> ({
                let insert_at = insert_index_spec(old(self).cells@);
                let added = cells@.len() as usize;
                let follow = old(self).view.is_scrolled_to_bottom_spec();
                let previous_height = crate::pager::sum_heights(
                    item_heights_spec(old(self).view.renderables@, heights_before@, tail_height),
                );
                let content_height = crate::pager::sum_heights(
                    item_heights_spec(final(self).view.renderables@, heights_after@, tail_height),
                );
                &&& r == insert_at
                &&& final(self).cells@ == spliced_cells(old(self).cells@, insert_at as int, cells@)
                &&& final(self).workspace_turns@ == (if old(self).is_workspace_spec() {
                    crate::turns::refresh_spec(
                        crate::turns::shift_spec(old(self).workspace_turns@, insert_at, added),
                        final(self).cells@,
                    )
                } else {
                    old(self).workspace_turns@
                })
                &&& rebuilt(
                    TranscriptOverlay {
                        cells: final(self).cells,
                        workspace_turns: final(self).workspace_turns,
                        highlight_cell: shift_option(old(self).highlight_cell, insert_at, added),
                        live_tail_present: false,
                        view: PagerView {
                            pending_scroll_chunk: shift_option(old(self).view.pending_scroll_chunk, insert_at, added),
                            scroll_offset: final(self).view.scroll_offset,
                            last_rendered_height: Some(content_height as usize),
                            ..old(self).view
                        },
                        ..*old(self)
                    },
                    taken_tail(*old(self)),
                    *final(self),
                )
                &&& final(self).view.scroll_offset == (if follow {
                    usize::MAX
                } else {
                    crate::pager::sat_add(
                        old(self).view.scroll_offset as int,
                        crate::pager::sat_sub(content_height as int, previous_height as int) as int,
                    )
                })
            }),
    {
        if cells.len() == 0 {
            return 0;
        }
        let follow_bottom = self.view.is_scrolled_to_bottom();
        let before = self.renderable_heights(heights_before, tail_height);
        let ghost added = cells@;
        let ghost start = *self;
        let previous_height = self.view.content_height(&before);
        let live_tail = self.take_live_tail_renderable();
        let added_cells = cells.len();
        let insert_at = self.prepend_insert_index();
        let mut cells = cells;
        let mut old_cells: Vec<TranscriptCell> = Vec::new();
        std::mem::swap(&mut old_cells, &mut self.cells);
        let mut rest = old_cells.split_off(insert_at);
        old_cells.append(&mut cells);
        old_cells.append(&mut rest);
        self.cells = old_cells;
        if self.is_workspace() {
            self.workspace_turns.shift_indices_from(insert_at, added_cells);
            self.workspace_turns.refresh_after_append(&self.cells);
        }
        if let Some(index) = self.highlight_cell {
            self.highlight_cell = Some(crate::turns::shift_one(index, insert_at, added_cells));
        }
        if let Some(index) = self.view.pending_scroll_chunk {
            self.view.pending_scroll_chunk = Some(crate::turns::shift_one(index, insert_at, added_cells));
        }
        self.rebuild_renderables(live_tail);
        proof {
            if !self.is_workspace_spec() {
                lemma_items_one_per_cell(
                    self.cells@,
                    self.cells@.len() as int,
                    self.highlight_cell,
                    self.history_state,
                    self.workspace_turns@,
                    self.local_image_previews_enabled,
                    false,
                );
            }
            lemma_items_len_bound(
                self.cells@,
                self.cells@.len() as int,
                self.highlight_cell,
                self.history_state,
                self.workspace_turns@,
                self.local_image_previews_enabled,
                self.is_workspace_spec(),
            );
        }
        let after = self.renderable_heights(heights_after, tail_height);
        proof {
            assert(self.view.renderables@ == prepended_items(start, added));
        }
        let content_height = self.view.content_height(&after);
        self.view.scroll_offset = if follow_bottom {
            usize::MAX
        } else {
            self.view.scroll_offset.saturating_add(content_height.saturating_sub(previous_height))
        };
        self.view.last_rendered_height = Some(content_height);
        insert_at
    }
}

/// Replaces `cells[start..end]` with `consolidated`.
pub fn replace_range(cells: &mut Vec<TranscriptCell>, start: usize, end: usize, consolidated: TranscriptCell)
    requires
        start <= end <= old(cells)@.len(),
    ensures
        final(cells)@ == consolidated_cells(old(cells)@, start as int, end as int, consolidated),
{
    let mut rest = cells.split_off(end);
    cells.truncate(start);
    cells.push(consolidated);
    cells.append(&mut rest);
}

/// The highlighted cell after cells `start..end` were replaced by one.
pub fn remap_consolidated_highlight(highlight: Option<usize>, start: usize, end: usize) -> (r: Option<usize>)
    requires
        start < end,
    ensures
        r == consolidated_highlight(highlight, start, end),
{
    match highlight {
        None => None,
        Some(h) => {
            if h < start {
                Some(h)
            } else if h < end {
                Some(start)
            } else {
                let removed = end - start;
                Some(h.saturating_sub(removed.saturating_sub(1)))
            }
        },
    }
}

/// Consolidating cells keeps the highlight on its message: a highlighted cell outside the
/// consolidated range is still highlighted at its new position (unchanged before the range,
/// moved left by all but one of the removed cells after it), a highlight inside the range moves
/// to the replacement, and no highlight stays none.
pub proof fn law_highlight_follows_its_cell(
    cells: Seq<TranscriptCell>,
    start: usize,
    end: usize,
    consolidated: TranscriptCell,
    highlight: Option<usize>,
)
    requires
        start < end <= cells.len(),
        highlight matches Some(h) ==> h < cells.len(),
    ensures
        ({
            let after = consolidated_cells(cells, start as int, end as int, consolidated);
            let remapped = consolidated_highlight(highlight, start, end);
            &&& highlight is None ==> remapped is None
            &&& highlight matches Some(h) ==> (remapped matches Some(n) && n < after.len() && (h < start ==> n == h)
                && (h < start || h >= end ==> after[n as int] == cells[h as int]) && (start <= h < end ==> after[n as int]
                == consolidated))
        }),
{
    let after = consolidated_cells(cells, start as int, end as int, consolidated);
    match highlight {
        Some(h) => {
            let n = consolidated_highlight(highlight, start, end).unwrap();
            if h >= end {
                assert(after[n as int] == cells[h as int]);
            }
        },
        None => {},
    }
}

impl TranscriptOverlay {
    /// Replaces the committed cells (for example after a rollback) and keeps the live tail.
    pub fn replace_cells(&mut self, cells: Vec<TranscriptCell>)
        requires
            old(self).wf(),
        ensures
            final(self).wf(),
            final(self).cells@ == cells@,
            final(self).workspace_turns@ == (if old(self).is_workspace_spec() {
                reset_spec(cells@)
            } else {
                old(self).workspace_turns@
            }),
            rebuilt(
                TranscriptOverlay {
                    cells: final(self).cells,
                    workspace_turns: final(self).workspace_turns,
                    workspace_target_mode: if old(self).is_workspace_spec() {
                        WorkspaceTargetMode::FollowViewport
                    } else {
                        old(self).workspace_target_mode
                    },
                    highlight_cell: match old(self).highlight_cell {
                        Some(h) => if h >= cells@.len() {
                            None
                        } else {
                            Some(h)
                        },
                        None => None,
                    },
                    live_tail_present: false,
                    view: PagerView {
                        scroll_offset: if old(self).view.is_scrolled_to_bottom_spec() {
                            usize::MAX
                        } else {
                            old(self).view.scroll_offset
                        },
                        ..old(self).view
                    },
                    ..*old(self)
                },
                taken_tail(*old(self)),
                *final(self),
            ),
    {
        let follow_bottom = self.view.is_scrolled_to_bottom();
        let live_tail = self.take_live_tail_renderable();
        self.cells = cells;
        if self.is_workspace() {
            self.workspace_turns.reset(&self.cells);
            self.workspace_target_mode = WorkspaceTargetMode::FollowViewport;
        }
        if let Some(h) = self.highlight_cell {
            if h >= self.cells.len() {
                self.highlight_cell = None;
            }
        }
        if follow_bottom {
            self.view.scroll_offset = usize::MAX;
        }
        self.rebuild_renderables(live_tail);
        proof {
            if !self.is_workspace_spec() {
                lemma_items_one_per_cell(
                    self.cells@,
                    self.cells@.len() as int,
                    self.highlight_cell,
                    self.history_state,
                    self.workspace_turns@,
                    self.local_image_previews_enabled,
                    false,
                );
            }
        }
    }

    #[verifier::rlimit(50)]
    /// Replaces a range of committed cells with one consolidated cell. The range is clamped to
    /// the overlay's cells; a highlight inside it moves to the replacement and one after it moves
    /// left.
    pub fn consolidate_cells(&mut self, range: std::ops::Range<usize>, consolidated: TranscriptCell)
        requires
            old(self).wf(),
        ensures
            final(self).wf(),
            ({
                let len = old(self).cells@.len();
                let end: usize = if range.end <= len {
                    range.end
                } else {
                    len as usize
                };
                let start: usize = if range.start <= end {
                    range.start
                } else {
                    end
                };
                let follow = old(self).view.is_scrolled_to_bottom_spec();
                let offset = if follow {
                    usize::MAX
                } else {
                    old(self).view.scroll_offset
                };
                if start < end {
                    let new_cells = consolidated_cells(old(self).cells@, start as int, end as int, consolidated);
                    let highlight = match consolidated_highlight(old(self).highlight_cell, start, end) {
                        Some(h) => if h >= new_cells.len() {
                            None
                        } else {
                            Some(h)
                        },
                        None => None,
                    };
                    &&& final(self).cells@ == new_cells
                    &&& final(self).workspace_turns@ == (if old(self).is_workspace_spec() {
                        reset_spec(new_cells)
                    } else {
                        old(self).workspace_turns@
                    })
                    &&& rebuilt(
                        TranscriptOverlay {
                            cells: final(self).cells,
                            workspace_turns: final(self).workspace_turns,
                            workspace_target_mode: if old(self).is_workspace_spec() {
                                WorkspaceTargetMode::FollowViewport
                            } else {
                                old(self).workspace_target_mode
                            },
                            highlight_cell: highlight,
                            live_tail_present: false,
                            view: PagerView { scroll_offset: offset, ..old(self).view },
                            ..*old(self)
                        },
                        taken_tail(*old(self)),
                        *final(self),
                    )
                } else {
                    *final(self) == (TranscriptOverlay {
                        view: PagerView { scroll_offset: offset, ..old(self).view },
                        ..*old(self)
                    })
                }
            }),
    {
        let follow_bottom = self.view.is_scrolled_to_bottom();
        let len = self.cells.len();
        let clamped_end = if range.end <= len {
            range.end
        } else {
            len
        };
        let clamped_start = if range.start <= clamped_end {
            range.start
        } else {
            clamped_end
        };
        if clamped_start < clamped_end {
            let live_tail = self.take_live_tail_renderable();
            self.highlight_cell = remap_consolidated_highlight(self.highlight_cell, clamped_start, clamped_end);
            replace_range(&mut self.cells, clamped_start, clamped_end, consolidated);
            if self.is_workspace() {
                self.workspace_turns.reset(&self.cells);
                self.workspace_target_mode = WorkspaceTargetMode::FollowViewport;
            }
            if let Some(h) = self.highlight_cell {
                if h >= self.cells.len() {
                    self.highlight_cell = None;
                }
            }
            if follow_bottom {
                self.view.scroll_offset = usize::MAX;
            }
            self.rebuild_renderables(live_tail);
            proof {
                if !self.is_workspace_spec() {
                    lemma_items_one_per_cell(
                        self.cells@,
                        self.cells@.len() as int,
                        self.highlight_cell,
                        self.history_state,
                        self.workspace_turns@,
                        self.local_image_previews_enabled,
                        false,
                    );
                }
            }
        } else if follow_bottom {
            self.view.scroll_offset = usize::MAX;
        }
    }

    /// Brings the live tail in line with the active cell. The tail is recomputed, through
    /// `compute_lines` (which returns how many lines it has), only when the cache key changes;
    /// an empty tail is dropped. A view pinned to the bottom stays pinned.
    pub fn sync_live_tail<F: FnOnce(u16) -> usize>(
        &mut self,
        width: u16,
        active_key: Option<ActiveCellTranscriptKey>,
        compute_lines: F,
    )
        requires
            old(self).wf(),
            call_requires(compute_lines, (width,)),
        ensures
            final(self).wf(),
            ({
                let next_key = match active_key {
                    Some(k) => Some(
                        LiveTailKey {
                            width,
                            revision: k.revision,
                            is_stream_continuation: k.is_stream_continuation,
                            animation_tick: k.animation_tick,
                        },
                    ),
                    None => None,
                };
                if old(self).live_tail_key == next_key {
                    *final(self) == *old(self)
                } else {
                    let follow = old(self).view.is_scrolled_to_bottom_spec();
                    &&& *final(self) == (TranscriptOverlay {
                        view: PagerView {
                            renderables: final(self).view.renderables,
                            scroll_offset: if follow {
                                usize::MAX
                            } else {
                                old(self).view.scroll_offset
                            },
                            ..old(self).view
                        },
                        live_tail_key: next_key,
                        live_tail_present: final(self).live_tail_present,
                        workspace_layout_index: if old(self).is_workspace_spec() {
                            None
                        } else {
                            old(self).workspace_layout_index
                        },
                        ..*old(self)
                    })
                    &&& match next_key {
                        None => final(self).view.renderables@ == without_tail(*old(self))
                            && !final(self).live_tail_present,
                        Some(key) => exists|n: usize|
                            call_ensures(compute_lines, (width,), n) && if n > 0 {
                                final(self).view.renderables@ == without_tail(*old(self)).push(
                                    live_tail_item(old(self).cells@.len() > 0, key.is_stream_continuation),
                                ) && final(self).live_tail_present
                            } else {
                                final(self).view.renderables@ == without_tail(*old(self))
                                    && !final(self).live_tail_present
                            },
                    }
                }
            }),
    {
        let next_key = match active_key {
            Some(k) => Some(
                LiveTailKey {
                    width,
                    revision: k.revision,
                    is_stream_continuation: k.is_stream_continuation,
                    animation_tick: k.animation_tick,
                },
            ),
            None => None,
        };
        if self.live_tail_key == next_key {
            return;
        }
        let follow_bottom = self.view.is_scrolled_to_bottom();
        self.take_live_tail_renderable();
        self.live_tail_key = next_key;
        self.invalidate_workspace_layout();
        if let Some(key) = next_key {
            let lines = compute_lines(width);
            if lines > 0 {
                let has_prior_cells = self.cells.len() > 0;
                self.view.renderables.push(Self::live_tail_renderable(has_prior_cells, key.is_stream_continuation));
                self.live_tail_present = true;
            }
        }
        if follow_bottom {
            self.view.scroll_offset = usize::MAX;
        }
    }
}

/// The layout scan's state after the first `k` cells: laid-out cells, closed turns, the open
/// turn (start and top) and the next free row.
pub struct LayoutScan {
    pub cells: Seq<WorkspaceCellLayout>,
    pub turns: Seq<WorkspaceTurnLayout>,
    pub active: Option<(usize, usize)>,
    pub top: usize,
}

/// Rows of cell `index` without its image rows: one for a history placeholder; otherwise its
/// measured height plus the separator row above it.
pub open spec fn base_height_spec(o: TranscriptOverlay, index: int, heights: Seq<u16>) -> usize {
    if o.cells@[index].kind == CellKind::SessionInfo && crate::overlay_types::placeholder_spec(o.history_state) is Some {
        1
    } else {
        (heights[index] + if !o.cells@[index].stream_continuation && index > 0 {
            1int
        } else {
            0int
        }) as usize
    }
}

/// The layout scan over the first `k` cells.
pub open spec fn layout_scan(o: TranscriptOverlay, heights: Seq<u16>, k: int) -> LayoutScan
    decreases k,
{
    if k <= 0 {
        LayoutScan { cells: Seq::empty(), turns: Seq::empty(), active: None, top: 0 }
    } else {
        let acc = layout_scan(o, heights, k - 1);
        let j = k - 1;
        let turns = o.workspace_turns@;
        if crate::turns::is_hidden_spec(turns, j as usize) {
            acc
        } else {
            let is_user = o.cells@[j].kind == CellKind::User;
            let closed = if is_user {
                match acc.active {
                    Some(a) => acc.turns.push(WorkspaceTurnLayout { turn_start: a.0, top: a.1, bottom: acc.top }),
                    None => acc.turns,
                }
            } else {
                acc.turns
            };
            let active = if is_user {
                Some((j as usize, acc.top))
            } else {
                acc.active
            };
            let base = base_height_spec(o, j, heights);
            let rows = crate::projection::preview_rows_spec(o.cells@[j], j as usize, turns, o.local_image_previews_enabled);
            let top1 = crate::pager::sat_add(acc.top as int, base + rows);
            let top2 = if turns.collapsed.contains(j as usize) {
                crate::pager::sat_add(top1 as int, 1)
            } else {
                top1
            };
            LayoutScan {
                cells: acc.cells.push(
                    WorkspaceCellLayout { cell_index: j as usize, top: acc.top, base_height: base, preview_rows: rows },
                ),
                turns: closed,
                active,
                top: top2,
            }
        }
    }
}

/// The row right below a laid-out cell: its top plus its base height and image rows, plus the
/// fold-summary row of a collapsed turn.
pub open spec fn cell_end(c: WorkspaceCellLayout, collapsed: bool) -> usize {
    let t1 = crate::pager::sat_add(c.top as int, c.base_height + c.preview_rows);
    if collapsed {
        crate::pager::sat_add(t1 as int, 1)
    } else {
        t1
    }
}

/// The workspace layout stacks the visible cells without gaps: the laid-out cells are exactly the
/// visible cells, in increasing index order; the first starts at row 0, each next one starts
/// where the previous one ends, and the total height is where the last one ends.
pub proof fn law_layout_tops_add_up(o: TranscriptOverlay, heights: Seq<u16>, k: int)
    requires
        0 <= k <= o.cells@.len(),
    ensures
        ({
            let s = layout_scan(o, heights, k);
            let turns = o.workspace_turns@;
            &&& s.cells.len() > 0 ==> s.cells[0].top == 0
            &&& forall|i: int|
                0 <= i < s.cells.len() - 1 ==> #[trigger] s.cells[i + 1].top == cell_end(
                    s.cells[i],
                    turns.collapsed.contains(s.cells[i].cell_index),
                )
            &&& s.top == if s.cells.len() == 0 {
                0
            } else {
                cell_end(s.cells.last(), turns.collapsed.contains(s.cells.last().cell_index))
            }
            &&& forall|i: int, j: int|
                0 <= i < j < s.cells.len() ==> #[trigger] s.cells[i].cell_index < #[trigger] s.cells[j].cell_index
            &&& forall|i: int|
                0 <= i < s.cells.len() ==> #[trigger] s.cells[i].cell_index < k && !crate::turns::is_hidden_spec(
                    turns,
                    s.cells[i].cell_index,
                )
            &&& forall|c: usize|
                c < k && !crate::turns::is_hidden_spec(turns, c) ==> exists|i: int|
                    0 <= i < s.cells.len() && #[trigger] s.cells[i].cell_index == c
        }),
    decreases k,
{
    if k > 0 {
        assert(o.cells@.len() == o.cells.len());
        law_layout_tops_add_up(o, heights, k - 1);
        let acc = layout_scan(o, heights, k - 1);
        let s = layout_scan(o, heights, k);
        let turns = o.workspace_turns@;
        let j = k - 1;
        if !crate::turns::is_hidden_spec(turns, j as usize) {
            assert(s.cells == acc.cells.push(s.cells.last()));
            assert(s.cells.last().cell_index == j);
            assert forall|c: usize| c < k && !crate::turns::is_hidden_spec(turns, c) implies exists|i: int|
                0 <= i < s.cells.len() && #[trigger] s.cells[i].cell_index == c by {
                if c < j {
                    let i = choose|i: int| 0 <= i < acc.cells.len() && #[trigger] acc.cells[i].cell_index == c;
                    assert(s.cells[i] == acc.cells[i]);
                } else {
                    assert(s.cells[s.cells.len() - 1].cell_index == c);
                }
            }
            assert forall|i: int| 0 <= i < s.cells.len() - 1 implies #[trigger] s.cells[i + 1].top == cell_end(
                s.cells[i],
                turns.collapsed.contains(s.cells[i].cell_index),
            ) by {
                assert(s.cells[i] == acc.cells[i]);
                if i + 1 < acc.cells.len() {
                    assert(s.cells[i + 1] == acc.cells[i + 1]);
                }
            }
            assert forall|a: int, b: int| 0 <= a < b < s.cells.len() implies #[trigger] s.cells[a].cell_index
                < #[trigger] s.cells[b].cell_index by {
                assert(s.cells[a] == acc.cells[a]);
                assert(acc.cells[a].cell_index < k - 1);
                if b < acc.cells.len() {
                    assert(s.cells[b] == acc.cells[b]);
                } else {
                    assert(b == s.cells.len() - 1);
                    assert(s.cells[b].cell_index == j);
                }
            }
            if acc.cells.len() > 0 {
                assert(s.cells[0] == acc.cells[0]);
            }
        }
    }
}

/// `index` is the workspace layout of `o`'s visible cells at `width` with the given heights.
pub open spec fn is_layout_of(index: WorkspaceLayoutIndex, o: TranscriptOverlay, heights: Seq<u16>, width: u16) -> bool {
    let scan = layout_scan(o, heights, o.cells@.len() as int);
    &&& index.width == width
    &&& index.cells@ == scan.cells
    &&& index.turns@ == match scan.active {
        Some(a) => scan.turns.push(WorkspaceTurnLayout { turn_start: a.0, top: a.1, bottom: scan.top }),
        None => scan.turns,
    }
    &&& index.total_height == scan.top
}

/// The rows of the turn with the given start, where the rows fit.
pub open spec fn scan_wf(scan: LayoutScan) -> bool {
    &&& crate::layout_index::turn_tops_sorted(scan.turns)
    &&& forall|i: int| 0 <= i < scan.turns.len() ==> #[trigger] scan.turns[i].top <= scan.top
    &&& match scan.active {
        Some(a) => a.1 <= scan.top && forall|i: int| 0 <= i < scan.turns.len() ==> #[trigger] scan.turns[i].top <= a.1,
        None => true,
    }
}

pub proof fn lemma_layout_scan_wf(o: TranscriptOverlay, heights: Seq<u16>, k: int)
    ensures
        scan_wf(layout_scan(o, heights, k)),
    decreases k,
{
    if k > 0 {
        lemma_layout_scan_wf(o, heights, k - 1);
    }
}

impl TranscriptOverlay {
    /// Rows of cell `index` without its image rows.
    pub fn workspace_cell_base_height(&self, index: usize, heights: &Vec<u16>) -> (r: usize)
        requires
            index < self.cells@.len(),
            index < heights@.len(),
        ensures
            r == base_height_spec(*self, index as int, heights@),
    {
        let cell = &self.cells[index];
        let placeholder = cell.is_session_info() && self.history_state.session_header_placeholder().is_some();
        if placeholder {
            return 1;
        }
        let height = heights[index] as usize;
        let inset: usize = if !cell.stream_continuation && index > 0 {
            1
        } else {
            0
        };
        height + inset
    }

    /// Builds the layout of the visible cells at `width` from the cells' measured workspace
    /// heights.
    pub fn build_workspace_layout_index(&self, width: u16, heights: &Vec<u16>) -> (r: WorkspaceLayoutIndex)
        requires
            self.wf(),
            heights@.len() == self.cells@.len(),
        ensures
            r.wf(),
            is_layout_of(r, *self, heights@, width),
    {
        let mut top: usize = 0;
        let mut cells: Vec<WorkspaceCellLayout> = Vec::new();
        let mut turns: Vec<WorkspaceTurnLayout> = Vec::new();
        let mut active_turn: Option<(usize, usize)> = None;
        let n = self.cells.len();
        let mut index: usize = 0;
        while index < n
            invariant
                0 <= index <= n,
                n == self.cells@.len(),
                heights@.len() == n,
                self.wf(),
                ({
                    let scan = layout_scan(*self, heights@, index as int);
                    &&& cells@ == scan.cells
                    &&& turns@ == scan.turns
                    &&& active_turn == scan.active
                    &&& top == scan.top
                }),
            decreases n - index,
        {
            proof {
                lemma_layout_scan_wf(*self, heights@, index as int);
            }
            if !self.workspace_turns.is_cell_hidden(index) {
                if self.cells[index].is_user() {
                    if let Some((turn_start, turn_top)) = active_turn {
                        turns.push(WorkspaceTurnLayout { turn_start, top: turn_top, bottom: top });
                    }
                    active_turn = Some((index, top));
                }
                let base_height = self.workspace_cell_base_height(index, heights);
                let preview_rows = crate::projection::image_preview_rows(
                    &self.cells[index],
                    index,
                    &self.workspace_turns,
                    self.local_image_previews_enabled,
                );
                cells.push(WorkspaceCellLayout { cell_index: index, top, base_height, preview_rows });
                top = top.saturating_add(base_height + preview_rows as usize);
                if self.workspace_turns.is_collapsed(index) {
                    top = top.saturating_add(1);
                }
            }
            index += 1;
        }
        if let Some((turn_start, turn_top)) = active_turn {
            turns.push(WorkspaceTurnLayout { turn_start, top: turn_top, bottom: top });
        }
        proof {
            lemma_layout_scan_wf(*self, heights@, n as int);
        }
        WorkspaceLayoutIndex { width, cells, turns, total_height: top }
    }

    /// Whether the workspace layout for `width` is cached (no measurement needed).
    pub fn workspace_layout_cached(&self, width: u16) -> (r: bool)
        ensures
            r == (self.workspace_layout_index matches Some(index) && index.width == width),
    {
        match &self.workspace_layout_index {
            Some(index) => index.width == width,
            None => false,
        }
    }
}

/// The layout the workspace uses at `width`: the cached one if it was built for that width,
/// else a fresh one over the measured heights.
pub open spec fn layout_ensured(o: TranscriptOverlay, width: u16, heights: Seq<u16>, result: TranscriptOverlay) -> bool {
    if !o.is_workspace_spec() {
        result == o
    } else {
        let w: u16 = if width >= 1 {
            width
        } else {
            1
        };
        if o.workspace_layout_index matches Some(index) && index.width == w {
            result == o
        } else {
            &&& result.workspace_layout_index matches Some(index) && is_layout_of(index, o, heights, w)
            &&& result == (TranscriptOverlay {
                workspace_layout_index: result.workspace_layout_index,
                view: PagerView { last_rendered_height: None, ..o.view },
                ..o
            })
        }
    }
}

/// The viewport row just above the workspace's bottom bar.
pub open spec fn viewport_bottom_row(o: TranscriptOverlay, content: Rect, total_height: usize) -> usize {
    let max_scroll = crate::pager::sat_sub(total_height as int, content.height as int);
    let offset = if o.view.scroll_offset <= max_scroll {
        o.view.scroll_offset
    } else {
        max_scroll
    };
    crate::pager::sat_sub(crate::pager::sat_add(offset as int, content.height as int) as int, 1)
}

/// The fold target after scrolling: the turn at the viewport's last row becomes the selection
/// when it is a turn start different from the current one.
pub open spec fn synced_to_viewport(o: TranscriptOverlay, area: Rect, heights: Seq<u16>, result: TranscriptOverlay) -> bool {
    if !o.is_workspace_spec() {
        result == o
    } else {
        let followed = TranscriptOverlay { workspace_target_mode: WorkspaceTargetMode::FollowViewport, ..o };
        let content = crate::pager::content_area_spec(area);
        if content.width == 0 || content.height == 0 {
            result == followed
        } else {
            exists|ensured: TranscriptOverlay|
                #[trigger] layout_ensured(followed, content.width, heights, ensured) && ({
                    let index = ensured.workspace_layout_index.unwrap();
                    let total = match ensured.view.last_rendered_height {
                        Some(h) => h,
                        None => index.total_height,
                    };
                    let row = viewport_bottom_row(ensured, content, total);
                    match crate::layout_index::turn_at_or_before_spec(index.turns@, row) {
                        None => result == ensured,
                        Some(t) => {
                            let (turns, changed) = crate::turns::select_turn_start_spec(ensured.workspace_turns@, t);
                            &&& result.workspace_turns@ == turns
                            &&& result == (TranscriptOverlay {
                                workspace_turns: result.workspace_turns,
                                workspace_target: if changed {
                                    turns.selected
                                } else {
                                    ensured.workspace_target
                                },
                                ..ensured
                            })
                        },
                    }
                })
        }
    }
}

/// What handling an input event did.
#[derive(Clone, Copy, Debug, PartialEq, Eq, Structural)]
pub struct EventOutcome {
    /// The event was consumed and must not reach the composer.
    pub handled: bool,
    /// A new frame should be drawn.
    pub schedule_frame: bool,
}

impl TranscriptOverlay {
    /// Builds the workspace layout for `width` unless it is cached.
    pub fn ensure_workspace_layout_index(&mut self, width: u16, heights: &Vec<u16>)
        requires
            old(self).wf(),
            old(self).workspace_layout_cached_spec(if width >= 1 { width } else { 1 })
                || heights@.len() == old(self).cells@.len(),
        ensures
            final(self).wf(),
            layout_ensured(*old(self), width, heights@, *final(self)),
    {
        if !self.is_workspace() {
            return;
        }
        let width = if width >= 1 {
            width
        } else {
            1
        };
        if self.workspace_layout_cached(width) {
            return;
        }
        let index = self.build_workspace_layout_index(width, heights);
        self.workspace_layout_index = Some(index);
        self.view.last_rendered_height = None;
    }

    pub open spec fn workspace_layout_cached_spec(&self, width: u16) -> bool {
        self.workspace_layout_index matches Some(index) && index.width == width
    }

    /// Keeps the fold target on the turn just above the workspace's bottom bar after the user
    /// scrolls.
    pub fn sync_workspace_turn_to_viewport(&mut self, area: Rect, heights: &Vec<u16>)
        requires
            old(self).wf(),
            heights@.len() == old(self).cells@.len() || old(self).workspace_layout_cached_spec(
                if area.width >= 1 { area.width } else { 1 },
            ),
        ensures
            final(self).wf(),
            synced_to_viewport(*old(self), area, heights@, *final(self)),
    {
        if !self.is_workspace() {
            return;
        }
        self.workspace_target_mode = WorkspaceTargetMode::FollowViewport;
        let content = self.view.content_area(area);
        if content.width == 0 || content.height == 0 {
            return;
        }
        let ghost followed = *self;
        self.ensure_workspace_layout_index(content.width, heights);
        let ghost ensured = *self;
        let target = match &self.workspace_layout_index {
            None => None,
            Some(index) => {
                let total_height = match self.view.last_rendered_height {
                    Some(h) => h,
                    None => index.total_height,
                };
                let max_scroll = total_height.saturating_sub(content.height as usize);
                let offset = if self.view.scroll_offset <= max_scroll {
                    self.view.scroll_offset
                } else {
                    max_scroll
                };
                let viewport_bottom = offset.saturating_add(content.height as usize).saturating_sub(1);
                index.turn_at_or_before(viewport_bottom)
            },
        };
        if let Some(target_turn) = target {
            if self.workspace_turns.select_turn_start(target_turn) {
                self.workspace_target = self.workspace_turns.selected_turn_start();
            }
        }
        proof {
            assert(layout_ensured(followed, content.width, heights@, ensured));
        }
    }
}

/// The renderable index of cell `cell_index`, or nothing when the cell is hidden or absent.
pub open spec fn renderable_index_spec(o: TranscriptOverlay, cell_index: usize) -> Option<usize> {
    if cell_index < o.cells@.len() && !crate::turns::is_hidden_spec(o.workspace_turns@, cell_index) {
        Some(
            crate::pager::sat_add(
                items_prefix(
                    o.cells@,
                    cell_index as int,
                    o.highlight_cell,
                    o.history_state,
                    o.workspace_turns@,
                    o.local_image_previews_enabled,
                    o.is_workspace_spec(),
                ).len() as int,
                0,
            ),
        )
    } else {
        None
    }
}

/// The renderables are rebuilt and the selected turn's renderable is scrolled into view.
pub open spec fn turn_rebuilt(o: TranscriptOverlay, result: TranscriptOverlay) -> bool {
    exists|mid: TranscriptOverlay|
        #[trigger] rebuilt(o, taken_tail(o), mid) && match o.workspace_turns@.selected {
            Some(sel) => match renderable_index_spec(o, sel) {
                Some(ri) => result == (TranscriptOverlay {
                    view: PagerView { pending_scroll_chunk: Some(ri), ..mid.view },
                    ..mid
                }),
                None => result == mid,
            },
            None => result == mid,
        }
}

/// Whether `key_event` is a workspace turn shortcut: Alt with an arrow key.
pub open spec fn is_turn_shortcut(key_event: KeyEvent) -> bool {
    key_event.modifiers.bits == MODIFIER_ALT && (key_event.code == KeyCode::Up || key_event.code == KeyCode::Down
        || key_event.code == KeyCode::Left || key_event.code == KeyCode::Right)
}

/// Whether `key_event` scrolls the workspace's history: PageUp or PageDown.
pub open spec fn is_workspace_navigation_key(key_event: KeyEvent) -> bool {
    key_event.code == KeyCode::PageUp || key_event.code == KeyCode::PageDown
}

/// What handling a workspace key does: Ctrl+T closes, Alt+arrows select, fold and expand a
/// turn, PageUp/PageDown scroll the history, and other keys are left to the composer.
pub open spec fn workspace_key_handled(
    o: TranscriptOverlay,
    key_event: KeyEvent,
    transcript_area: Rect,
    heights: Seq<u16>,
    result: TranscriptOverlay,
    r: EventOutcome,
) -> bool {
    &&& (!o.is_workspace_spec() ==> r == (EventOutcome { handled: false, schedule_frame: false })
                    && result == o)
    &&& (o.is_workspace_spec() && is_pressed_spec(o.view.keymap.close_transcript@, key_event) ==> r
                    == (EventOutcome { handled: true, schedule_frame: false }) && result == (TranscriptOverlay {
                    is_done: true,
                    ..o
                }))
    &&& (o.is_workspace_spec() && !is_pressed_spec(o.view.keymap.close_transcript@, key_event)
                    && is_turn_shortcut(key_event) ==> ({
                    let (turns, changed) = if key_event.code == KeyCode::Up {
                        crate::turns::select_previous_spec(o.workspace_turns@)
                    } else if key_event.code == KeyCode::Down {
                        crate::turns::select_next_spec(o.workspace_turns@)
                    } else if key_event.code == KeyCode::Left {
                        crate::turns::collapse_spec(o.workspace_turns@, o.cells@.len())
                    } else {
                        crate::turns::expand_spec(o.workspace_turns@)
                    };
                    &&& r == (EventOutcome { handled: true, schedule_frame: changed })
                    &&& !changed ==> result == o
                    &&& changed ==> exists|updated: TranscriptOverlay|
                        updated.workspace_turns@ == turns && updated == (TranscriptOverlay {
                            workspace_turns: updated.workspace_turns,
                            workspace_target_mode: if key_event.code == KeyCode::Up || key_event.code == KeyCode::Down {
                                WorkspaceTargetMode::Manual
                            } else {
                                o.workspace_target_mode
                            },
                            ..o
                        }) && #[trigger] turn_rebuilt(updated, result)
                }))
    &&& (o.is_workspace_spec() && !is_pressed_spec(o.view.keymap.close_transcript@, key_event)
                    && !is_turn_shortcut(key_event) && is_workspace_navigation_key(key_event) ==> ({
                    let nav = crate::pager::navigate_spec(
                        o.view.keymap,
                        key_event,
                        o.view.scroll_offset,
                        crate::pager::content_area_spec(transcript_area).height as usize,
                        crate::pager::half_page_spec(transcript_area),
                    );
                    let scrolled = TranscriptOverlay {
                        view: PagerView {
                            scroll_offset: match nav {
                                Some(off) => off,
                                None => o.view.scroll_offset,
                            },
                            ..o.view
                        },
                        ..o
                    };
                    &&& r == (EventOutcome { handled: true, schedule_frame: nav is Some })
                    &&& synced_to_viewport(scrolled, transcript_area, heights, result)
                }))
    &&& (o.is_workspace_spec() && !is_pressed_spec(o.view.keymap.close_transcript@, key_event)
                    && !is_turn_shortcut(key_event) && !is_workspace_navigation_key(key_event) ==> r == (EventOutcome {
                    handled: false,
                    schedule_frame: false,
                }) && result == o)
}

impl TranscriptOverlay {
    /// The renderable index of a committed cell, or nothing when it is hidden or absent.
    pub fn renderable_index_for_cell(&self, cell_index: usize) -> (r: Option<usize>)
        requires
            self.wf(),
        ensures
            r == renderable_index_spec(*self, cell_index),
    {
        let mut renderable_index: usize = 0;
        let n = self.cells.len();
        let mut index: usize = 0;
        while index < n
            invariant
                0 <= index <= n,
                n == self.cells@.len(),
                self.wf(),
                index <= cell_index || cell_index >= n || crate::turns::is_hidden_spec(self.workspace_turns@, cell_index),
                renderable_index == crate::pager::sat_add(
                    items_prefix(
                        self.cells@,
                        index as int,
                        self.highlight_cell,
                        self.history_state,
                        self.workspace_turns@,
                        self.local_image_previews_enabled,
                        self.is_workspace_spec(),
                    ).len() as int,
                    0,
                ),
            decreases n - index,
        {
            proof {
                lemma_items_len_bound(
                    self.cells@,
                    index as int,
                    self.highlight_cell,
                    self.history_state,
                    self.workspace_turns@,
                    self.local_image_previews_enabled,
                    self.is_workspace_spec(),
                );
            }
            if !self.workspace_turns.is_cell_hidden(index) {
                if index == cell_index {
                    return Some(renderable_index);
                }
                renderable_index = renderable_index.saturating_add(1);
                if self.workspace_turns.is_collapsed(index) {
                    renderable_index = renderable_index.saturating_add(1);
                }
            }
            index += 1;
        }
        None
    }

    /// Rebuilds after a turn was selected, folded or expanded, and scrolls the selected turn
    /// into view on the next render.
    pub fn rebuild_workspace_turn_renderables(&mut self)
        requires
            old(self).wf(),
        ensures
            final(self).wf(),
            turn_rebuilt(*old(self), *final(self)),
    {
        let ghost o = *self;
        self.retake_and_rebuild();
        let ghost mid = *self;
        if let Some(selected_turn) = self.workspace_turns.selected_turn_start() {
            if let Some(renderable_index) = self.renderable_index_for_cell(selected_turn) {
                self.view.scroll_chunk_into_view(renderable_index);
            }
        }
        proof {
            assert(rebuilt(o, taken_tail(o), mid));
        }
    }

    /// Whether a key is a workspace history navigation key.
    pub fn workspace_navigation_key(&self, key_event: KeyEvent) -> (r: bool)
        ensures
            r == is_workspace_navigation_key(key_event),
    {
        match key_event.code {
            KeyCode::PageUp | KeyCode::PageDown => true,
            _ => false,
        }
    }

    /// Whether the key jumps to the start of the history (and the whole history must load).
    pub fn should_load_from_start(&self, key_event: KeyEvent) -> (r: bool)
        ensures
            r == is_pressed_spec(self.view.keymap.jump_top@, key_event),
    {
        is_pressed(&self.view.keymap.jump_top, key_event)
    }

    /// Whether an upward navigation comes close enough to the top to request older history.
    pub fn should_load_older(&self, key_event: KeyEvent) -> (r: bool)
        ensures
            r == (is_pressed_spec(self.view.keymap.jump_top@, key_event) || (self.view.scroll_offset <= match self.view.last_content_height {
                Some(h) => h,
                None => 0,
            } && (is_pressed_spec(self.view.keymap.scroll_up@, key_event) || is_pressed_spec(self.view.keymap.page_up@, key_event)
                || is_pressed_spec(self.view.keymap.half_page_up@, key_event)))),
    {
        if self.should_load_from_start(key_event) {
            return true;
        }
        let near_top = self.view.scroll_offset <= match self.view.last_content_height {
            Some(h) => h,
            None => 0,
        };
        near_top && (is_pressed(&self.view.keymap.scroll_up, key_event) || is_pressed(&self.view.keymap.page_up, key_event)
            || is_pressed(&self.view.keymap.half_page_up, key_event))
    }

    /// Whether a workspace key should request older history: only history navigation keys.
    pub fn workspace_should_load_older(&self, key_event: KeyEvent) -> (r: bool)
        ensures
            r == (self.is_workspace_spec() && is_workspace_navigation_key(key_event) && (is_pressed_spec(
                self.view.keymap.jump_top@,
                key_event,
            ) || (self.view.scroll_offset <= match self.view.last_content_height {
                Some(h) => h,
                None => 0,
            } && (is_pressed_spec(self.view.keymap.scroll_up@, key_event) || is_pressed_spec(self.view.keymap.page_up@, key_event)
                || is_pressed_spec(self.view.keymap.half_page_up@, key_event))))),
    {
        self.is_workspace() && self.workspace_navigation_key(key_event) && self.should_load_older(key_event)
    }

    /// Whether a wheel event should request older history: scrolling up near the top.
    pub fn workspace_wheel_should_load_older(&self, kind: MouseEventKind) -> (r: bool)
        ensures
            r == (self.is_workspace_spec() && kind == MouseEventKind::ScrollUp && self.view.scroll_offset <= match self.view.last_content_height {
                Some(h) => h,
                None => 0,
            }),
    {
        self.is_workspace() && match kind {
            MouseEventKind::ScrollUp => true,
            _ => false,
        } && self.view.scroll_offset <= match self.view.last_content_height {
            Some(h) => h,
            None => 0,
        }
    }

    /// Handles a workspace key: Ctrl+T closes, Alt+Up/Down select a turn, Alt+Left/Right fold
    /// and expand it, PageUp/PageDown scroll the history. Other keys are left to the composer.
    ///
    /// `heights` are the cells' measured workspace heights at `transcript_area`'s width; they are
    /// read only when the layout for that width is not cached.
    pub fn handle_workspace_key(&mut self, key_event: KeyEvent, transcript_area: Rect, heights: &Vec<u16>) -> (r:
        EventOutcome)
        requires
            old(self).wf(),
            heights@.len() == old(self).cells@.len() || old(self).workspace_layout_cached_spec(
                if transcript_area.width >= 1 { transcript_area.width } else { 1 },
            ),
        ensures
            final(self).wf(),
            workspace_key_handled(*old(self), key_event, transcript_area, heights@, *final(self), r),
    {
        if !self.is_workspace() {
            return EventOutcome { handled: false, schedule_frame: false };
        }
        if is_pressed(&self.view.keymap.close_transcript, key_event) {
            self.is_done = true;
            return EventOutcome { handled: true, schedule_frame: false };
        }
        let turn_shortcut = key_event.modifiers.bits == MODIFIER_ALT && match key_event.code {
            KeyCode::Up | KeyCode::Down | KeyCode::Left | KeyCode::Right => true,
            _ => false,
        };
        if turn_shortcut {
            let changed = match key_event.code {
                KeyCode::Up => self.workspace_turns.select_previous(),
                KeyCode::Down => self.workspace_turns.select_next(),
                KeyCode::Left => self.workspace_turns.collapse_selected(&self.cells),
                _ => self.workspace_turns.expand_selected(),
            };
            if changed {
                match key_event.code {
                    KeyCode::Up | KeyCode::Down => {
                        self.workspace_target_mode = WorkspaceTargetMode::Manual;
                    },
                    _ => {},
                }
                let ghost updated = *self;
                self.rebuild_workspace_turn_renderables();
                proof {
                    assert(turn_rebuilt(updated, *self));
                }
            }
            return EventOutcome { handled: true, schedule_frame: changed };
        }
        if self.workspace_navigation_key(key_event) {
            let moved = self.view.handle_key_event_in_area(key_event, transcript_area);
            self.sync_workspace_turn_to_viewport(transcript_area, heights);
            return EventOutcome { handled: true, schedule_frame: moved };
        }
        EventOutcome { handled: false, schedule_frame: false }
    }

    /// Scrolls the workspace history by a wheel event and retargets the fold; the event never
    /// reaches the composer. Returns whether the event was a wheel scroll (then a frame is due).
    pub fn handle_workspace_mouse(&mut self, kind: MouseEventKind, transcript_area: Rect, heights: &Vec<u16>) -> (r: bool)
        requires
            old(self).wf(),
            heights@.len() == old(self).cells@.len() || old(self).workspace_layout_cached_spec(
                if transcript_area.width >= 1 { transcript_area.width } else { 1 },
            ),
        ensures
            final(self).wf(),
            r == (old(self).is_workspace_spec() && kind != MouseEventKind::Other),
            !r ==> *final(self) == *old(self),
            r ==> synced_to_viewport(
                TranscriptOverlay {
                    view: PagerView {
                        scroll_offset: if kind == MouseEventKind::ScrollUp {
                            crate::pager::sat_sub(old(self).view.scroll_offset as int, WORKSPACE_WHEEL_SCROLL_ROWS as int)
                        } else {
                            crate::pager::sat_add(old(self).view.scroll_offset as int, WORKSPACE_WHEEL_SCROLL_ROWS as int)
                        },
                        ..old(self).view
                    },
                    ..*old(self)
                },
                transcript_area,
                heights@,
                *final(self),
            ),
    {
        if !self.is_workspace() {
            return false;
        }
        match kind {
            MouseEventKind::ScrollUp => {
                self.view.scroll_offset = self.view.scroll_offset.saturating_sub(WORKSPACE_WHEEL_SCROLL_ROWS);
            },
            MouseEventKind::ScrollDown => {
                self.view.scroll_offset = self.view.scroll_offset.saturating_add(WORKSPACE_WHEEL_SCROLL_ROWS);
            },
            MouseEventKind::Other => return false,
        }
        self.sync_workspace_turn_to_viewport(transcript_area, heights);
        true
    }
}

} // verus!
