//! Width-keyed physical layout of the workspace transcript, used to find the turn at a row.

use vstd::prelude::*;

verus! {

/// Cached physical layout for one visible committed cell.
///
/// `top` is relative to the transcript content area (below the workspace header).
#[derive(Clone, Copy, Debug, PartialEq, Eq, Structural)]
pub struct WorkspaceCellLayout {
    pub cell_index: usize,
    pub top: usize,
    pub base_height: usize,
    pub preview_rows: u16,
}

/// The rows a visible turn occupies.
#[derive(Clone, Copy, Debug, PartialEq, Eq, Structural)]
pub struct WorkspaceTurnLayout {
    pub turn_start: usize,
    pub top: usize,
    pub bottom: usize,
}

/// Width-keyed index used by workspace scrolling and terminal image placement.
#[derive(Clone, Debug)]
pub struct WorkspaceLayoutIndex {
    pub width: u16,
    pub cells: Vec<WorkspaceCellLayout>,
    pub turns: Vec<WorkspaceTurnLayout>,
    pub total_height: usize,
}

/// The turns' tops never decrease.
pub open spec fn turn_tops_sorted(turns: Seq<WorkspaceTurnLayout>) -> bool {
    forall|i: int, j: int| 0 <= i <= j < turns.len() ==> turns[i].top <= turns[j].top
}

/// Turn `i` begins at or before `row` and the next one (if any) begins after it.
pub open spec fn is_last_at_or_before(turns: Seq<WorkspaceTurnLayout>, row: usize, i: int) -> bool {
    0 <= i < turns.len() && turns[i].top <= row && (i + 1 == turns.len() || turns[i + 1].top > row)
}

/// The turn start of the last turn whose top is at or before `row`.
pub open spec fn turn_at_or_before_spec(turns: Seq<WorkspaceTurnLayout>, row: usize) -> Option<usize> {
    if exists|i: int| 0 <= i < turns.len() && #[trigger] turns[i].top <= row {
        let i = choose|i: int| #[trigger] is_last_at_or_before(turns, row, i);
        Some(turns[i].turn_start)
    } else {
        None
    }
}

impl WorkspaceLayoutIndex {
    pub open spec fn wf(&self) -> bool {
        turn_tops_sorted(self.turns@)
    }

    /// Selects the last turn whose visible range begins at or before the viewport row.
    pub fn turn_at_or_before(&self, row: usize) -> (r: Option<usize>)
        requires
            self.wf(),
        ensures
            r == turn_at_or_before_spec(self.turns@, row),
    {
        let turns = &self.turns;
        let mut low: usize = 0;
        let mut high: usize = turns.len();
        while low < high
            invariant
                0 <= low <= high <= turns.len(),
                turn_tops_sorted(turns@),
                forall|i: int| 0 <= i < low ==> turns@[i].top <= row,
                forall|i: int| high <= i < turns.len() ==> turns@[i].top > row,
            decreases high - low,
        {
            let mid = low + (high - low) / 2;
            if turns[mid].top <= row {
                low = mid + 1;
            } else {
                high = mid;
            }
        }
        if low == 0 {
            proof {
                assert forall|i: int| 0 <= i < turns@.len() implies !(turns@[i].top <= row) by {
                    assert(turns@[0].top <= turns@[i].top);
                }
            }
            None
        } else {
            let index = low - 1;
            proof {
                let i = index as int;
                assert(is_last_at_or_before(turns@, row, i));
                let j = choose|j: int| #[trigger] is_last_at_or_before(turns@, row, j);
                if j < i {
                    assert(turns@[j + 1].top <= turns@[i].top);
                } else if j > i {
                    assert(turns@[i + 1].top <= turns@[j].top);
                }
            }
            Some(turns[index].turn_start)
        }
    }
}

} // verus!
