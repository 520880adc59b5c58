//! Which renderables the transcript shows for its committed cells.
//!
//! Every visible cell becomes one renderable (or the one-line history placeholder for the session
//! header); a collapsed turn's prompt is followed by a one-line summary of its hidden cells.

use crate::cell::{CellKind, TranscriptCell};
use crate::overlay_types::{placeholder_spec, RenderItem, TranscriptHistoryState};
use crate::turns::{hidden_count_spec, is_hidden_spec, TranscriptTurnState, TurnStateModel};
use vstd::prelude::*;

verus! {

/// Rows reserved below a user prompt for each attached local image.
pub const LOCAL_IMAGE_PREVIEW_ROWS: u16 = 8;

/// Maximum width of a local image preview, in columns.
pub const LOCAL_IMAGE_PREVIEW_COLUMNS: u16 = 32;

/// Rows reserved below cell `index` for its local image previews.
pub open spec fn preview_rows_spec(cell: TranscriptCell, index: usize, turns: TurnStateModel, enabled: bool) -> u16 {
    if !enabled || turns.collapsed.contains(index) {
        0
    } else if cell.kind == CellKind::User {
        let count: int = if cell.local_image_paths@.len() > u16::MAX {
            u16::MAX as int
        } else {
            cell.local_image_paths@.len() as int
        };
        if 8 * count > u16::MAX {
            u16::MAX
        } else {
            (8 * count) as u16
        }
    } else {
        0
    }
}

/// The renderable of committed cell `index`.
pub open spec fn cell_item_spec(
    cell: TranscriptCell,
    index: usize,
    highlighted_cell: Option<usize>,
    history_state: TranscriptHistoryState,
    image_preview_rows: u16,
    workspace: bool,
) -> RenderItem {
    if cell.kind == CellKind::SessionInfo && placeholder_spec(history_state) is Some {
        RenderItem::Placeholder { state: history_state }
    } else {
        RenderItem::Cell {
            index,
            highlighted: !workspace && highlighted_cell == Some(index),
            workspace,
            inset: !cell.stream_continuation && index > 0,
            reserved_rows: image_preview_rows,
            cached: cell.stable_height,
        }
    }
}

/// The highlighted cell: the selected turn in the workspace, else the viewer's highlight.
pub open spec fn highlighted_cell_spec(turns: TurnStateModel, highlight_cell: Option<usize>) -> Option<usize> {
    match turns.selected {
        Some(s) => Some(s),
        None => highlight_cell,
    }
}

/// The renderables of the first `k` committed cells.
pub open spec fn items_prefix(
    cells: Seq<TranscriptCell>,
    k: int,
    highlight_cell: Option<usize>,
    history_state: TranscriptHistoryState,
    turns: TurnStateModel,
    previews_enabled: bool,
    workspace: bool,
) -> Seq<RenderItem>
    decreases k,
{
    if k <= 0 {
        Seq::empty()
    } else {
        let j = k - 1;
        let prev = items_prefix(cells, j, highlight_cell, history_state, turns, previews_enabled, workspace);
        if is_hidden_spec(turns, j as usize) {
            prev
        } else {
            let with_cell = prev.push(
                cell_item_spec(
                    cells[j],
                    j as usize,
                    highlighted_cell_spec(turns, highlight_cell),
                    history_state,
                    preview_rows_spec(cells[j], j as usize, turns, previews_enabled),
                    workspace,
                ),
            );
            if turns.collapsed.contains(j as usize) {
                with_cell.push(
                    RenderItem::HiddenSummary {
                        hidden_cells: hidden_count_spec(turns.starts, j as usize, cells.len()) as usize,
                    },
                )
            } else {
                with_cell
            }
        }
    }
}

/// The renderables of all committed cells.
pub open spec fn items_spec(
    cells: Seq<TranscriptCell>,
    highlight_cell: Option<usize>,
    history_state: TranscriptHistoryState,
    turns: TurnStateModel,
    previews_enabled: bool,
    workspace: bool,
) -> Seq<RenderItem> {
    items_prefix(cells, cells.len() as int, highlight_cell, history_state, turns, previews_enabled, workspace)
}

/// Rows reserved below cell `index` for its local image previews.
pub fn image_preview_rows(cell: &TranscriptCell, index: usize, workspace_turns: &TranscriptTurnState, enabled: bool) -> (r:
    u16)
    requires
        workspace_turns.wf(),
    ensures
        r == preview_rows_spec(*cell, index, workspace_turns@, enabled),
{
    if !enabled || workspace_turns.is_collapsed(index) {
        return 0;
    }
    match cell.kind {
        CellKind::User => {
            let n = cell.local_image_paths.len();
            let count: u16 = if n > 65535 {
                65535
            } else {
                n as u16
            };
            match LOCAL_IMAGE_PREVIEW_ROWS.checked_mul(count) {
                Some(rows) => rows,
                None => u16::MAX,
            }
        },
        _ => 0,
    }
}

/// The renderable of committed cell `index`.
pub fn render_cell(
    cell: &TranscriptCell,
    index: usize,
    highlight_cell: Option<usize>,
    history_state: TranscriptHistoryState,
    image_preview_rows: u16,
    workspace: bool,
) -> (r: RenderItem)
    ensures
        r == cell_item_spec(*cell, index, highlight_cell, history_state, image_preview_rows, workspace),
{
    let placeholder = match cell.kind {
        CellKind::SessionInfo => history_state.session_header_placeholder().is_some(),
        _ => false,
    };
    if placeholder {
        return RenderItem::Placeholder { state: history_state };
    }
    RenderItem::Cell {
        index,
        highlighted: !workspace && highlight_cell == Some(index),
        workspace,
        inset: !cell.stream_continuation && index > 0,
        reserved_rows: image_preview_rows,
        cached: cell.stable_height,
    }
}

/// The renderables of all committed cells.
pub fn render_cells(
    cells: &Vec<TranscriptCell>,
    highlight_cell: Option<usize>,
    history_state: TranscriptHistoryState,
    workspace_turns: &TranscriptTurnState,
    local_image_previews_enabled: bool,
    workspace: bool,
) -> (r: Vec<RenderItem>)
    requires
        workspace_turns.wf(),
    ensures
        r@ == items_spec(cells@, highlight_cell, history_state, workspace_turns@, local_image_previews_enabled, workspace),
{
    let highlighted_cell = match workspace_turns.selected_turn_start() {
        Some(s) => Some(s),
        None => highlight_cell,
    };
    let mut renderables: Vec<RenderItem> = Vec::new();
    let n = cells.len();
    let mut index: usize = 0;
    while index < n
        invariant
            0 <= index <= n,
            n == cells.len(),
            workspace_turns.wf(),
            highlighted_cell == highlighted_cell_spec(workspace_turns@, highlight_cell),
            renderables@ == items_prefix(
                cells@,
                index as int,
                highlight_cell,
                history_state,
                workspace_turns@,
                local_image_previews_enabled,
                workspace,
            ),
        decreases n - index,
    {
        if !workspace_turns.is_cell_hidden(index) {
            let rows = image_preview_rows(&cells[index], index, workspace_turns, local_image_previews_enabled);
            renderables.push(render_cell(&cells[index], index, highlighted_cell, history_state, rows, workspace));
            if workspace_turns.is_collapsed(index) {
                let hidden_cells = workspace_turns.hidden_cell_count_after(index, cells);
                renderables.push(RenderItem::HiddenSummary { hidden_cells });
            }
        }
        index += 1;
    }
    renderables
}

} // verus!
