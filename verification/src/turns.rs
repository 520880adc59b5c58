//! Whole user turns of the transcript workspace: selection and folding.
//!
//! A turn starts at a user cell and includes all following cells up to the next user cell.
//! Collapsing a turn keeps its prompt visible and hides only its subsequent cells.

use crate::cell::{is_user_cell, TranscriptCell};
use crate::sorted_set::{last_of, sorted_contains, sorted_insert, sorted_remove, strictly_sorted};
use vstd::prelude::*;

verus! {

/// Indices of the user cells of `cells`, in order.
pub open spec fn turn_starts_of(cells: Seq<TranscriptCell>) -> Seq<usize>
    decreases cells.len(),
{
    if cells.len() == 0 {
        Seq::empty()
    } else {
        let prefix = turn_starts_of(cells.drop_last());
        if is_user_cell(cells.last()) {
            prefix.push((cells.len() - 1) as usize)
        } else {
            prefix
        }
    }
}

/// The turn starts are strictly increasing, are user cells, and include every user cell.
pub proof fn lemma_turn_starts_of(cells: Seq<TranscriptCell>)
    requires
        cells.len() <= usize::MAX,
    ensures
        strictly_sorted(turn_starts_of(cells)),
        forall|i: int|
            0 <= i < turn_starts_of(cells).len() ==> turn_starts_of(cells)[i] < cells.len()
                && #[trigger] is_user_cell(cells[turn_starts_of(cells)[i] as int]),
        forall|k: int|
            0 <= k < cells.len() ==> (#[trigger] is_user_cell(cells[k]) <==> turn_starts_of(
                cells,
            ).contains(k as usize)),
    decreases cells.len(),
{
    if cells.len() > 0 {
        let prefix_cells = cells.drop_last();
        lemma_turn_starts_of(prefix_cells);
        let p = turn_starts_of(prefix_cells);
        let n = (cells.len() - 1) as usize;
        assert forall|i: int| 0 <= i < p.len() implies p[i] < n && is_user_cell(cells[p[i] as int]) by {
            assert(is_user_cell(prefix_cells[p[i] as int]));
            assert(prefix_cells[p[i] as int] == cells[p[i] as int]);
        }
        assert forall|k: int| 0 <= k < cells.len() implies (is_user_cell(cells[k])
            <==> turn_starts_of(cells).contains(k as usize)) by {
            if k < n {
                assert(prefix_cells[k] == cells[k]);
                if is_user_cell(cells.last()) {
                    let ts = p.push(n);
                    if p.contains(k as usize) {
                        let j = choose|j: int| 0 <= j < p.len() && p[j] == k as usize;
                        assert(ts[j] == k as usize);
                    }
                    if ts.contains(k as usize) {
                        let j = choose|j: int| 0 <= j < ts.len() && ts[j] == k as usize;
                        assert(j < p.len());
                        assert(p[j] == k as usize);
                    }
                }
            } else {
                assert(k == n);
                if is_user_cell(cells.last()) {
                    assert(p.push(n)[p.len() as int] == n);
                } else {
                    if p.contains(n) {
                        let j = choose|j: int| 0 <= j < p.len() && p[j] == n;
                    }
                }
            }
        }
    }
}

/// The turn starts of `cells`, in order.
pub fn turn_starts(cells: &Vec<TranscriptCell>) -> (r: Vec<usize>)
    ensures
        r@ == turn_starts_of(cells@),
{
    let mut r: Vec<usize> = Vec::new();
    let n = cells.len();
    let mut i: usize = 0;
    while i < n
        invariant
            0 <= i <= n,
            n == cells.len(),
            r@ == turn_starts_of(cells@.take(i as int)),
        decreases n - i,
    {
        assert(cells@.take(i + 1).drop_last() =~= cells@.take(i as int));
        if cells[i].is_user() {
            r.push(i);
        }
        i += 1;
    }
    assert(cells@.take(n as int) =~= cells@);
    r
}

/// The first element of `s`, in order, that is greater than `t`.
pub open spec fn first_start_after(s: Seq<usize>, t: usize) -> Option<usize>
    decreases s.len(),
{
    if s.len() == 0 {
        None
    } else if s[0] > t {
        Some(s[0])
    } else {
        first_start_after(s.drop_first(), t)
    }
}

/// The end (exclusive) of the turn that starts at `t`: the next turn start or the cell count.
pub open spec fn turn_end(s: Seq<usize>, t: usize, cell_count: nat) -> nat {
    match first_start_after(s, t) {
        Some(n) => n as nat,
        None => cell_count,
    }
}

/// How many cells a collapse of the turn starting at `t` hides.
pub open spec fn hidden_count_spec(s: Seq<usize>, t: usize, cell_count: nat) -> nat {
    if turn_end(s, t, cell_count) > t + 1 {
        (turn_end(s, t, cell_count) - t - 1) as nat
    } else {
        0
    }
}

/// In a strictly increasing sequence, the first element greater than `t` is the least one.
pub proof fn lemma_first_start_after_sorted(s: Seq<usize>, t: usize)
    requires
        strictly_sorted(s),
    ensures
        match first_start_after(s, t) {
            None => forall|i: int| 0 <= i < s.len() ==> s[i] <= t,
            Some(n) => s.contains(n) && n > t && forall|i: int|
                0 <= i < s.len() && s[i] > t ==> n <= s[i],
        },
    decreases s.len(),
{
    if s.len() > 0 {
        if s[0] > t {
            assert(s[0] == s[0]);
            assert(s.contains(s[0]));
        } else {
            let d = s.drop_first();
            assert forall|i: int, j: int| 0 <= i < j < d.len() implies d[i] < d[j] by {
                assert(d[i] == s[i + 1]);
                assert(d[j] == s[j + 1]);
            }
            lemma_first_start_after_sorted(d, t);
            match first_start_after(d, t) {
                None => {
                    assert forall|i: int| 0 <= i < s.len() implies s[i] <= t by {
                        if i > 0 {
                            assert(s[i] == d[i - 1]);
                        }
                    }
                },
                Some(n) => {
                    let k = choose|k: int| 0 <= k < d.len() && d[k] == n;
                    assert(s[k + 1] == n);
                    assert forall|i: int| 0 <= i < s.len() && s[i] > t implies n <= s[i] by {
                        if i > 0 {
                            assert(s[i] == d[i - 1]);
                        }
                    }
                },
            }
        }
    }
}

/// The observable state of the turn tracker.
pub struct TurnStateModel {
    pub starts: Seq<usize>,
    pub selected: Option<usize>,
    pub collapsed: Set<usize>,
}

/// Tracks whole user turns for the transcript workspace without copying cells.
#[derive(Debug)]
pub struct TranscriptTurnState {
    pub turn_starts: Vec<usize>,
    pub selected_turn: Option<usize>,
    /// Strictly increasing start indices of the collapsed turns.
    pub collapsed_turn_starts: Vec<usize>,
}

impl View for TranscriptTurnState {
    type V = TurnStateModel;

    open spec fn view(&self) -> TurnStateModel {
        TurnStateModel {
            starts: self.turn_starts@,
            selected: self.selected_turn,
            collapsed: self.collapsed_turn_starts@.to_set(),
        }
    }
}

/// `t` is the greatest collapsed turn start at or before cell `c`.
pub open spec fn is_fold_anchor(collapsed: Set<usize>, c: usize, t: usize) -> bool {
    &&& collapsed.contains(t)
    &&& t <= c
    &&& forall|x: usize| #[trigger] collapsed.contains(x) && x <= c ==> x <= t
}

/// Cell `c` is hidden: the greatest collapsed turn start `t` at or before it lies strictly before
/// it, and no turn starts in between.
pub open spec fn is_hidden_spec(m: TurnStateModel, c: usize) -> bool {
    exists|t: usize|
        #[trigger] is_fold_anchor(m.collapsed, c, t) && t < c && match first_start_after(
            m.starts,
            t,
        ) {
            None => true,
            Some(n) => c < n,
        }
}

/// Position of `x` in a sequence that contains it.
pub open spec fn position_of(s: Seq<usize>, x: usize) -> int {
    choose|i: int| 0 <= i < s.len() && s[i] == x
}

pub open spec fn select_turn_start_spec(m: TurnStateModel, t: usize) -> (TurnStateModel, bool) {
    if m.selected == Some(t) || !m.starts.contains(t) {
        (m, false)
    } else {
        (TurnStateModel { selected: Some(t), ..m }, true)
    }
}

pub open spec fn select_previous_spec(m: TurnStateModel) -> (TurnStateModel, bool) {
    match m.selected {
        None => (m, false),
        Some(sel) => if m.starts.contains(sel) && position_of(m.starts, sel) > 0 {
            (TurnStateModel { selected: Some(m.starts[position_of(m.starts, sel) - 1]), ..m }, true)
        } else {
            (m, false)
        },
    }
}

pub open spec fn select_next_spec(m: TurnStateModel) -> (TurnStateModel, bool) {
    match m.selected {
        None => (m, false),
        Some(sel) => if m.starts.contains(sel) && position_of(m.starts, sel) + 1 < m.starts.len() {
            (TurnStateModel { selected: Some(m.starts[position_of(m.starts, sel) + 1]), ..m }, true)
        } else {
            (m, false)
        },
    }
}

pub open spec fn select_latest_spec(m: TurnStateModel) -> (TurnStateModel, bool) {
    match last_of(m.starts) {
        None => (m, false),
        Some(latest) => select_turn_start_spec(m, latest),
    }
}

pub open spec fn collapse_spec(m: TurnStateModel, cell_count: nat) -> (TurnStateModel, bool) {
    match m.selected {
        None => (m, false),
        Some(sel) => if hidden_count_spec(m.starts, sel, cell_count) == 0 {
            (m, false)
        } else {
            (TurnStateModel { collapsed: m.collapsed.insert(sel), ..m }, !m.collapsed.contains(sel))
        },
    }
}

pub open spec fn expand_spec(m: TurnStateModel) -> (TurnStateModel, bool) {
    match m.selected {
        None => (m, false),
        Some(sel) => (
            TurnStateModel { collapsed: m.collapsed.remove(sel), ..m },
            m.collapsed.contains(sel),
        ),
    }
}

pub open spec fn reset_spec(cells: Seq<TranscriptCell>) -> TurnStateModel {
    TurnStateModel {
        starts: turn_starts_of(cells),
        selected: last_of(turn_starts_of(cells)),
        collapsed: Set::empty(),
    }
}

pub open spec fn refresh_spec(m: TurnStateModel, cells: Seq<TranscriptCell>) -> TurnStateModel {
    let starts = turn_starts_of(cells);
    TurnStateModel {
        starts,
        collapsed: m.collapsed.filter(|x: usize| starts.contains(x)),
        selected: match m.selected {
            Some(sel) => if starts.contains(sel) {
                Some(sel)
            } else {
                last_of(starts)
            },
            None => last_of(starts),
        },
    }
}

/// Index `i` after `added` cells were inserted at `insert_at` (saturating).
pub open spec fn shift_index(i: usize, insert_at: usize, added: usize) -> usize {
    if i >= insert_at {
        if i + added > usize::MAX {
            usize::MAX
        } else {
            (i + added) as usize
        }
    } else {
        i
    }
}

pub open spec fn shift_spec(m: TurnStateModel, insert_at: usize, added: usize) -> TurnStateModel {
    TurnStateModel {
        starts: m.starts,
        selected: match m.selected {
            Some(s) => Some(shift_index(s, insert_at, added)),
            None => None,
        },
        collapsed: m.collapsed.map(|x: usize| shift_index(x, insert_at, added)),
    }
}

impl TranscriptTurnState {
    /// Both index vectors are strictly increasing.
    pub open spec fn wf(&self) -> bool {
        strictly_sorted(self.turn_starts@) && strictly_sorted(self.collapsed_turn_starts@)
    }

    /// A tracker with no turns, no selection and nothing collapsed.
    pub fn empty() -> (r: Self)
        ensures
            r.wf(),
            r@.starts == Seq::<usize>::empty(),
            r@.selected is None,
            r@.collapsed == Set::<usize>::empty(),
    {
        let r = TranscriptTurnState {
            turn_starts: Vec::new(),
            selected_turn: None,
            collapsed_turn_starts: Vec::new(),
        };
        assert(r.collapsed_turn_starts@.to_set() =~= Set::<usize>::empty());
        assert(r.turn_starts@ =~= Seq::<usize>::empty());
        r
    }

    pub fn new(cells: &Vec<TranscriptCell>) -> (r: Self)
        ensures
            r.wf(),
            r@ == reset_spec(cells@),
    {
        let mut state = Self::empty();
        state.reset(cells);
        state
    }

    pub fn selected_turn_start(&self) -> (r: Option<usize>)
        ensures
            r == self@.selected,
    {
        self.selected_turn
    }

    pub fn select_turn_start(&mut self, turn_start: usize) -> (r: bool)
        requires
            old(self).wf(),
        ensures
            final(self).wf(),
            (final(self)@, r) == select_turn_start_spec(old(self)@, turn_start),
            !r ==> *final(self) == *old(self),
    {
        if self.selected_turn == Some(turn_start) || !sorted_contains(&self.turn_starts, turn_start) {
            return false;
        }
        self.selected_turn = Some(turn_start);
        true
    }

    /// Position of the first start equal to `selected`.
    fn position_of_start(&self, selected: usize) -> (r: Option<usize>)
        requires
            self.wf(),
        ensures
            match r {
                None => !self@.starts.contains(selected),
                Some(p) => self@.starts.contains(selected) && p == position_of(self@.starts, selected)
                    && p < self@.starts.len(),
            },
    {
        let n = self.turn_starts.len();
        let mut i: usize = 0;
        while i < n
            invariant
                0 <= i <= n,
                n == self.turn_starts.len(),
                self.wf(),
                forall|k: int| 0 <= k < i ==> self.turn_starts@[k] != selected,
            decreases n - i,
        {
            if self.turn_starts[i] == selected {
                proof {
                    assert(self@.starts[i as int] == selected);
                    assert(exists|j: int| 0 <= j < self@.starts.len() && self@.starts[j] == selected);
                    let p = position_of(self@.starts, selected);
                    assert(0 <= p < self@.starts.len() && self@.starts[p] == selected);
                    if p != i {
                        if p < i {
                        } else {
                            assert(self@.starts[i as int] < self@.starts[p]);
                        }
                    }
                }
                return Some(i);
            }
            i += 1;
        }
        None
    }

    pub fn select_previous(&mut self) -> (r: bool)
        requires
            old(self).wf(),
        ensures
            final(self).wf(),
            (final(self)@, r) == select_previous_spec(old(self)@),
            !r ==> *final(self) == *old(self),
    {
        let selected = match self.selected_turn {
            None => return false,
            Some(s) => s,
        };
        let position = match self.position_of_start(selected) {
            None => return false,
            Some(p) => p,
        };
        if position == 0 {
            return false;
        }
        self.selected_turn = Some(self.turn_starts[position - 1]);
        true
    }

    pub fn select_next(&mut self) -> (r: bool)
        requires
            old(self).wf(),
        ensures
            final(self).wf(),
            (final(self)@, r) == select_next_spec(old(self)@),
            !r ==> *final(self) == *old(self),
    {
        let selected = match self.selected_turn {
            None => return false,
            Some(s) => s,
        };
        let position = match self.position_of_start(selected) {
            None => return false,
            Some(p) => p,
        };
        let n = self.turn_starts.len();
        if position + 1 >= n {
            return false;
        }
        self.selected_turn = Some(self.turn_starts[position + 1]);
        true
    }

    pub fn select_latest_turn(&mut self) -> (r: bool)
        requires
            old(self).wf(),
        ensures
            final(self).wf(),
            (final(self)@, r) == select_latest_spec(old(self)@),
            !r ==> *final(self) == *old(self),
    {
        let n = self.turn_starts.len();
        if n == 0 {
            return false;
        }
        let latest = self.turn_starts[n - 1];
        self.select_turn_start(latest)
    }

    /// The first turn start after `turn_start`, in order.
    fn next_turn_start(&self, turn_start: usize) -> (r: Option<usize>)
        ensures
            r == first_start_after(self@.starts, turn_start),
    {
        let n = self.turn_starts.len();
        let mut i: usize = 0;
        assert(self@.starts.skip(0) =~= self@.starts);
        while i < n
            invariant
                0 <= i <= n,
                n == self.turn_starts.len(),
                first_start_after(self@.starts, turn_start) == first_start_after(
                    self@.starts.skip(i as int),
                    turn_start,
                ),
            decreases n - i,
        {
            let s = self.turn_starts[i];
            assert(self@.starts.skip(i as int)[0] == s);
            if s > turn_start {
                return Some(s);
            }
            assert(self@.starts.skip(i as int).drop_first() =~= self@.starts.skip(i + 1));
            i += 1;
        }
        None
    }

    pub fn hidden_cell_count_after(&self, turn_start: usize, cells: &Vec<TranscriptCell>) -> (r:
        usize)
        ensures
            r == hidden_count_spec(self@.starts, turn_start, cells@.len()),
    {
        let end = match self.next_turn_start(turn_start) {
            Some(n) => n,
            None => cells.len(),
        };
        end.saturating_sub(turn_start.saturating_add(1))
    }

    pub fn collapse_selected(&mut self, cells: &Vec<TranscriptCell>) -> (r: bool)
        requires
            old(self).wf(),
        ensures
            final(self).wf(),
            (final(self)@, r) == collapse_spec(old(self)@, cells@.len()),
            !r ==> *final(self) == *old(self),
    {
        let selected = match self.selected_turn {
            None => return false,
            Some(s) => s,
        };
        if self.hidden_cell_count_after(selected, cells) == 0 {
            return false;
        }
        let r = sorted_insert(&mut self.collapsed_turn_starts, selected);
        proof {
            assert(self@.collapsed =~= old(self)@.collapsed.insert(selected));
        }
        r
    }

    pub fn expand_selected(&mut self) -> (r: bool)
        requires
            old(self).wf(),
        ensures
            final(self).wf(),
            (final(self)@, r) == expand_spec(old(self)@),
            !r ==> *final(self) == *old(self),
    {
        match self.selected_turn {
            None => false,
            Some(selected) => sorted_remove(&mut self.collapsed_turn_starts, selected),
        }
    }

    pub fn is_collapsed(&self, turn_start: usize) -> (r: bool)
        requires
            self.wf(),
        ensures
            r == self@.collapsed.contains(turn_start),
    {
        sorted_contains(&self.collapsed_turn_starts, turn_start)
    }

    /// The greatest collapsed turn start at or before `cell_index`.
    fn fold_anchor(&self, cell_index: usize) -> (r: Option<usize>)
        requires
            self.wf(),
        ensures
            match r {
                None => forall|t: usize| !#[trigger] is_fold_anchor(self@.collapsed, cell_index, t),
                Some(t) => is_fold_anchor(self@.collapsed, cell_index, t),
            },
    {
        let v = &self.collapsed_turn_starts;
        let mut i: usize = v.len();
        while i > 0 && v[i - 1] > cell_index
            invariant
                0 <= i <= v.len(),
                strictly_sorted(v@),
                forall|k: int| i <= k < v.len() ==> v@[k] > cell_index,
            decreases i,
        {
            i -= 1;
        }
        if i == 0 {
            proof {
                assert forall|t: usize| !is_fold_anchor(self@.collapsed, cell_index, t) by {
                    if self@.collapsed.contains(t) && t <= cell_index {
                        let k = choose|k: int| 0 <= k < v@.len() && v@[k] == t;
                    }
                }
            }
            None
        } else {
            let t = v[i - 1];
            proof {
                assert(v@[i - 1] == t);
                assert forall|x: usize| #[trigger] self@.collapsed.contains(x) && x <= cell_index implies x
                    <= t by {
                    let k = choose|k: int| 0 <= k < v@.len() && v@[k] == x;
                    if k > i - 1 {
                        if k < i {
                        } else {
                        }
                    } else if k < i - 1 {
                        assert(v@[k] < v@[i - 1]);
                    }
                }
            }
            Some(t)
        }
    }

    pub fn is_cell_hidden(&self, cell_index: usize) -> (r: bool)
        requires
            self.wf(),
        ensures
            r == is_hidden_spec(self@, cell_index),
    {
        let anchor = self.fold_anchor(cell_index);
        match anchor {
            None => {
                proof {
                    assert(!is_hidden_spec(self@, cell_index));
                }
                false
            },
            Some(t) => {
                let r = t < cell_index && match self.next_turn_start(t) {
                    None => true,
                    Some(next) => cell_index < next,
                };
                proof {
                    if is_hidden_spec(self@, cell_index) {
                        let t2 = choose|t2: usize|
                            #[trigger] is_fold_anchor(self@.collapsed, cell_index, t2) && t2 < cell_index
                                && match first_start_after(self@.starts, t2) {
                                None => true,
                                Some(n) => cell_index < n,
                            };
                        assert(t2 <= t && t <= t2);
                    }
                }
                r
            },
        }
    }

    pub fn reset(&mut self, cells: &Vec<TranscriptCell>)
        ensures
            final(self).wf(),
            final(self)@ == reset_spec(cells@),
    {
        let cell_count = cells.len();
        proof {
            lemma_turn_starts_of(cells@);
        }
        self.turn_starts = turn_starts(cells);
        self.collapsed_turn_starts = Vec::new();
        let n = self.turn_starts.len();
        self.selected_turn = if n == 0 {
            None
        } else {
            Some(self.turn_starts[n - 1])
        };
        assert(self.collapsed_turn_starts@.to_set() =~= Set::<usize>::empty());
    }

    pub fn refresh_after_append(&mut self, cells: &Vec<TranscriptCell>)
        requires
            old(self).wf(),
        ensures
            final(self).wf(),
            final(self)@ == refresh_spec(old(self)@, cells@),
    {
        let cell_count = cells.len();
        proof {
            lemma_turn_starts_of(cells@);
        }
        self.turn_starts = turn_starts(cells);
        let ghost old_collapsed = self.collapsed_turn_starts@;
        let mut kept: Vec<usize> = Vec::new();
        let n = self.collapsed_turn_starts.len();
        let mut i: usize = 0;
        while i < n
            invariant
                0 <= i <= n,
                n == self.collapsed_turn_starts.len(),
                self.collapsed_turn_starts@ == old_collapsed,
                strictly_sorted(old_collapsed),
                strictly_sorted(self.turn_starts@),
                strictly_sorted(kept@),
                kept@.len() > 0 ==> exists|j: int| 0 <= j < i && old_collapsed[j] == kept@.last(),
                forall|x: usize| #[trigger] kept@.contains(x) <==> (old_collapsed.take(i as int).contains(x) && self.turn_starts@.contains(x)),
            decreases n - i,
        {
            let x = self.collapsed_turn_starts[i];
            let keep = sorted_contains(&self.turn_starts, x);
            let ghost before = kept@;
            if keep {
                proof {
                    if before.len() > 0 {
                        let j = choose|j: int| 0 <= j < i && old_collapsed[j] == before.last();
                        assert(old_collapsed[j] < old_collapsed[i as int]);
                    }
                }
                kept.push(x);
                proof {
                    assert forall|a: int, b: int| 0 <= a < b < kept@.len() implies kept@[a] < kept@[b] by {
                        if b == kept@.len() - 1 && a < b {
                            if a < before.len() - 1 {
                                assert(before[a] < before.last());
                            }
                        }
                    }
                    assert(kept@.last() == old_collapsed[i as int]);
                }
            }
            proof {
                assert(old_collapsed.take(i + 1) =~= old_collapsed.take(i as int).push(x));
                assert forall|y: usize| #[trigger] kept@.contains(y) <==> (old_collapsed.take(i + 1).contains(y) && self.turn_starts@.contains(y)) by {
                    if keep {
                        assert(kept@ == before.push(x));
                        if before.contains(y) {
                            let k = choose|k: int| 0 <= k < before.len() && before[k] == y;
                            assert(kept@[k] == y);
                        }
                        if kept@.contains(y) && y != x {
                            let k = choose|k: int| 0 <= k < kept@.len() && kept@[k] == y;
                            assert(k < before.len());
                            assert(before[k] == y);
                        }
                        assert(kept@[before.len() as int] == x);
                    }
                    if old_collapsed.take(i + 1).contains(y) && y != x {
                        let k = choose|k: int| 0 <= k < i + 1 && #[trigger] old_collapsed.take(i + 1)[k] == y;
                        assert(k < i);
                        assert(old_collapsed.take(i as int)[k] == y);
                    }
                    if old_collapsed.take(i as int).contains(y) {
                        let k = choose|k: int| 0 <= k < i && #[trigger] old_collapsed.take(i as int)[k] == y;
                        assert(old_collapsed.take(i + 1)[k] == y);
                    }
                    assert(old_collapsed.take(i + 1)[i as int] == x);
                }
            }
            i += 1;
        }
        proof {
            assert(old_collapsed.take(n as int) =~= old_collapsed);
            let starts = turn_starts_of(cells@);
            assert(kept@.to_set() =~= old_collapsed.to_set().filter(|x: usize| starts.contains(x)));
        }
        self.collapsed_turn_starts = kept;
        let selected_valid = match self.selected_turn {
            None => false,
            Some(selected) => sorted_contains(&self.turn_starts, selected),
        };
        if !selected_valid {
            let n = self.turn_starts.len();
            self.selected_turn = if n == 0 {
                None
            } else {
                Some(self.turn_starts[n - 1])
            };
        }
    }

    pub fn shift_indices_from(&mut self, insert_at: usize, added_cells: usize)
        requires
            old(self).wf(),
        ensures
            final(self).wf(),
            final(self)@ == shift_spec(old(self)@, insert_at, added_cells),
    {
        if let Some(selected) = self.selected_turn {
            self.selected_turn = Some(shift_one(selected, insert_at, added_cells));
        }
        let ghost old_collapsed = self.collapsed_turn_starts@;
        let mut shifted: Vec<usize> = Vec::new();
        let n = self.collapsed_turn_starts.len();
        let mut i: usize = 0;
        while i < n
            invariant
                0 <= i <= n,
                n == self.collapsed_turn_starts.len(),
                self.collapsed_turn_starts@ == old_collapsed,
                strictly_sorted(old_collapsed),
                strictly_sorted(self.turn_starts@),
                strictly_sorted(shifted@),
                shifted@.len() > 0 ==> i > 0 && shifted@.last() == shift_index(old_collapsed[i - 1], insert_at, added_cells),
                forall|y: usize| #[trigger] shifted@.contains(y) <==> exists|j: int| 0 <= j < i && shift_index(#[trigger] old_collapsed[j], insert_at, added_cells) == y,
            decreases n - i,
        {
            let x = shift_one(self.collapsed_turn_starts[i], insert_at, added_cells);
            let ghost before = shifted@;
            let len = shifted.len();
            proof {
                if len > 0 {
                    assert(old_collapsed[i - 1] < old_collapsed[i as int]);
                    assert(shifted@.last() <= x);
                }
            }
            if len == 0 || shifted[len - 1] != x {
                shifted.push(x);
                proof {
                    assert forall|a: int, b: int| 0 <= a < b < shifted@.len() implies shifted@[a] < shifted@[b] by {
                        if b == shifted@.len() - 1 && a < b {
                            assert(shifted@[b] == x);
                            if a < before.len() - 1 {
                                assert(before[a] < before.last());
                            }
                        }
                    }
                }
            }
            proof {
                assert forall|y: usize| #[trigger] shifted@.contains(y) <==> exists|j: int| 0 <= j < i + 1 && shift_index(#[trigger] old_collapsed[j], insert_at, added_cells) == y by {
                    if shifted@.contains(y) {
                        let k = choose|k: int| 0 <= k < shifted@.len() && shifted@[k] == y;
                        if k < before.len() {
                            assert(before.contains(y));
                            let j = choose|j: int| 0 <= j < i && shift_index(#[trigger] old_collapsed[j], insert_at, added_cells) == y;
                            assert(0 <= j < i + 1);
                        } else {
                            assert(shift_index(old_collapsed[i as int], insert_at, added_cells) == y);
                        }
                    }
                    if exists|j: int| 0 <= j < i + 1 && shift_index(#[trigger] old_collapsed[j], insert_at, added_cells) == y {
                        let j = choose|j: int| 0 <= j < i + 1 && shift_index(#[trigger] old_collapsed[j], insert_at, added_cells) == y;
                        if j < i {
                            assert(before.contains(y));
                            let k = choose|k: int| 0 <= k < before.len() && before[k] == y;
                            assert(shifted@[k] == y);
                        } else {
                            assert(shifted@.last() == x);
                            assert(shifted@[shifted@.len() - 1] == y);
                        }
                    }
                }
            }
            i += 1;
        }
        proof {
            let f = |x: usize| shift_index(x, insert_at, added_cells);
            assert forall|y: usize| shifted@.to_set().contains(y) == old_collapsed.to_set().map(f).contains(y) by {
                if shifted@.contains(y) {
                    let j = choose|j: int| 0 <= j < n && shift_index(#[trigger] old_collapsed[j], insert_at, added_cells) == y;
                    assert(old_collapsed.to_set().contains(old_collapsed[j]));
                    assert(f(old_collapsed[j]) == y);
                }
                if old_collapsed.to_set().map(f).contains(y) {
                    let x = choose|x: usize| old_collapsed.to_set().contains(x) && f(x) == y;
                    let j = choose|j: int| 0 <= j < old_collapsed.len() && old_collapsed[j] == x;
                    assert(shift_index(old_collapsed[j], insert_at, added_cells) == y);
                }
            }
            assert(shifted@.to_set() =~= old_collapsed.to_set().map(f));
        }
        self.collapsed_turn_starts = shifted;
    }
}

/// Index `index` after `added_cells` cells were inserted at `insert_at`.
pub fn shift_one(index: usize, insert_at: usize, added_cells: usize) -> (r: usize)
    ensures
        r == shift_index(index, insert_at, added_cells),
{
    if index >= insert_at {
        index.saturating_add(added_cells)
    } else {
        index
    }
}

/// Cell `c` lies strictly inside the turn that starts at `t` (after the prompt, before the next
/// turn).
pub open spec fn strictly_inside_turn(starts: Seq<usize>, t: usize, c: usize) -> bool {
    t < c && match first_start_after(starts, t) {
        None => true,
        Some(n) => c < n,
    }
}

/// Expanding the selected turn right after collapsing it restores the previous state.
pub proof fn law_expand_undoes_collapse(m: TurnStateModel, cell_count: nat)
    requires
        collapse_spec(m, cell_count).1,
    ensures
        expand_spec(collapse_spec(m, cell_count).0) == (m, true),
{
    let sel = m.selected.unwrap();
    assert(m.collapsed.insert(sel).remove(sel) =~= m.collapsed);
}

/// Collapsing a folded turn again right after expanding it restores the previous state, as long
/// as the turn still has cells to hide.
pub proof fn law_collapse_undoes_expand(m: TurnStateModel, cell_count: nat)
    requires
        m.selected is Some,
        m.collapsed.contains(m.selected.unwrap()),
        hidden_count_spec(m.starts, m.selected.unwrap(), cell_count) > 0,
    ensures
        collapse_spec(expand_spec(m).0, cell_count) == (m, true),
{
    let sel = m.selected.unwrap();
    assert(m.collapsed.remove(sel).insert(sel) =~= m.collapsed);
}

/// In a strictly increasing sequence, an element's position is its only position.
pub proof fn lemma_position_of_sorted(s: Seq<usize>, k: int)
    requires
        strictly_sorted(s),
        0 <= k < s.len(),
    ensures
        s.contains(s[k]),
        position_of(s, s[k]) == k,
{
    assert(s[k] == s[k]);
    let p = position_of(s, s[k]);
    if p < k {
        assert(s[p] < s[k]);
    } else if p > k {
        assert(s[k] < s[p]);
    }
}

/// Selecting the previous turn and then the next one returns to the turn selected before.
pub proof fn law_previous_then_next(m: TurnStateModel)
    requires
        strictly_sorted(m.starts),
        select_previous_spec(m).1,
    ensures
        select_next_spec(select_previous_spec(m).0) == (m, true),
{
    let sel = m.selected.unwrap();
    let p = position_of(m.starts, sel);
    lemma_position_of_sorted(m.starts, p);
    lemma_position_of_sorted(m.starts, p - 1);
}

/// Selecting the next turn and then the previous one returns to the turn selected before.
pub proof fn law_next_then_previous(m: TurnStateModel)
    requires
        strictly_sorted(m.starts),
        select_next_spec(m).1,
    ensures
        select_previous_spec(select_next_spec(m).0) == (m, true),
{
    let sel = m.selected.unwrap();
    let p = position_of(m.starts, sel);
    lemma_position_of_sorted(m.starts, p);
    lemma_position_of_sorted(m.starts, p + 1);
}

/// A user prompt is never hidden: collapsing keeps every turn's prompt visible.
pub proof fn law_turn_start_never_hidden(m: TurnStateModel, c: usize)
    requires
        strictly_sorted(m.starts),
        m.starts.contains(c),
    ensures
        !is_hidden_spec(m, c),
{
    if is_hidden_spec(m, c) {
        let t = choose|t: usize|
            #[trigger] is_fold_anchor(m.collapsed, c, t) && t < c && match first_start_after(
                m.starts,
                t,
            ) {
                None => true,
                Some(n) => c < n,
            };
        lemma_first_start_after_sorted(m.starts, t);
        let k = choose|k: int| 0 <= k < m.starts.len() && m.starts[k] == c;
        assert(m.starts[k] > t);
    }
}

/// When every collapsed turn start is a turn start, a cell is hidden exactly when it lies strictly
/// inside a collapsed turn.
pub proof fn law_hidden_iff_inside_collapsed_turn(m: TurnStateModel, c: usize)
    requires
        strictly_sorted(m.starts),
        forall|x: usize| #[trigger] m.collapsed.contains(x) ==> m.starts.contains(x),
    ensures
        is_hidden_spec(m, c) <==> exists|t: usize|
            #[trigger] m.collapsed.contains(t) && strictly_inside_turn(m.starts, t, c),
{
    if is_hidden_spec(m, c) {
        let t = choose|t: usize|
            #[trigger] is_fold_anchor(m.collapsed, c, t) && t < c && match first_start_after(
                m.starts,
                t,
            ) {
                None => true,
                Some(n) => c < n,
            };
        assert(m.collapsed.contains(t) && strictly_inside_turn(m.starts, t, c));
    }
    if exists|t: usize| #[trigger] m.collapsed.contains(t) && strictly_inside_turn(m.starts, t, c) {
        let t = choose|t: usize| #[trigger] m.collapsed.contains(t) && strictly_inside_turn(m.starts, t, c);
        lemma_first_start_after_sorted(m.starts, t);
        assert forall|x: usize| #[trigger] m.collapsed.contains(x) && x <= c implies x <= t by {
            if x > t {
                let k = choose|k: int| 0 <= k < m.starts.len() && m.starts[k] == x;
                assert(m.starts[k] > t);
            }
        }
        assert(is_fold_anchor(m.collapsed, c, t));
    }
}

/// After a reset or a refresh, the selection is a turn start (when there is one) and every
/// collapsed turn start is a turn start.
pub proof fn law_refresh_keeps_targets_valid(m: TurnStateModel, cells: Seq<TranscriptCell>)
    ensures
        ({
            let r = refresh_spec(m, cells);
            &&& forall|x: usize| #[trigger] r.collapsed.contains(x) ==> r.starts.contains(x)
            &&& r.starts.len() > 0 ==> r.selected is Some && r.starts.contains(r.selected.unwrap())
            &&& r.starts.len() == 0 ==> r.selected is None
        }),
        ({
            let r = reset_spec(cells);
            &&& forall|x: usize| #[trigger] r.collapsed.contains(x) ==> r.starts.contains(x)
            &&& r.starts.len() > 0 ==> r.selected is Some && r.starts.contains(r.selected.unwrap())
        }),
{
    let s = turn_starts_of(cells);
    if s.len() > 0 {
        assert(s[s.len() - 1] == s.last());
    }
}

/// The cells after inserting `added` cells at `insert_at`.
pub open spec fn spliced(old_cells: Seq<TranscriptCell>, insert_at: int, added: Seq<TranscriptCell>) -> Seq<
    TranscriptCell,
> {
    old_cells.take(insert_at) + added + old_cells.skip(insert_at)
}

/// Prepending history keeps the folded turns and the selected turn: after their indices are
/// shifted past the inserted cells and the turn list is refreshed, the same turns stay collapsed
/// and selected.
pub proof fn law_prepend_keeps_folds(
    m: TurnStateModel,
    old_cells: Seq<TranscriptCell>,
    insert_at: usize,
    added: Seq<TranscriptCell>,
)
    requires
        m.starts == turn_starts_of(old_cells),
        forall|x: usize| #[trigger] m.collapsed.contains(x) ==> m.starts.contains(x),
        m.selected is Some ==> m.starts.contains(m.selected.unwrap()),
        insert_at <= old_cells.len(),
        old_cells.len() + added.len() <= usize::MAX,
    ensures
        ({
            let r = refresh_spec(
                shift_spec(m, insert_at, added.len() as usize),
                spliced(old_cells, insert_at as int, added),
            );
            &&& r.collapsed == m.collapsed.map(|x: usize| shift_index(x, insert_at, added.len() as usize))
            &&& r.selected == match m.selected {
                Some(s) => Some(shift_index(s, insert_at, added.len() as usize)),
                None => last_of(turn_starts_of(spliced(old_cells, insert_at as int, added))),
            }
        }),
{
    let a = added.len() as usize;
    let new_cells = spliced(old_cells, insert_at as int, added);
    lemma_turn_starts_of(old_cells);
    lemma_turn_starts_of(new_cells);
    let ns = turn_starts_of(new_cells);
    assert forall|x: usize| #[trigger] m.starts.contains(x) implies ns.contains(shift_index(x, insert_at, a)) by {
        let k = choose|k: int| 0 <= k < m.starts.len() && m.starts[k] == x;
        assert(is_user_cell(old_cells[m.starts[k] as int]));
        let y = shift_index(x, insert_at, a);
        if x >= insert_at {
            assert(new_cells[y as int] == old_cells[x as int]);
        } else {
            assert(new_cells[y as int] == old_cells[x as int]);
        }
        assert(is_user_cell(new_cells[y as int]));
    }
    let shifted = shift_spec(m, insert_at, a);
    let f = |x: usize| shift_index(x, insert_at, a);
    assert forall|y: usize| #[trigger] shifted.collapsed.contains(y) implies ns.contains(y) by {
        let x = choose|x: usize| m.collapsed.contains(x) && f(x) == y;
        assert(m.starts.contains(x));
    }
    assert(shifted.collapsed.filter(|x: usize| ns.contains(x)) =~= shifted.collapsed);
}

/// A user prompt appended at the bottom becomes the latest turn: selecting the latest turn after
/// the refresh targets the new prompt.
pub proof fn law_bottom_user_append_targets_new_turn(m: TurnStateModel, cells: Seq<TranscriptCell>, cell: TranscriptCell)
    requires
        is_user_cell(cell),
        cells.len() < usize::MAX,
    ensures
        select_latest_spec(refresh_spec(m, cells.push(cell))).0.selected == Some(cells.len() as usize),
        select_latest_spec(refresh_spec(m, cells.push(cell))).0.collapsed == refresh_spec(
            m,
            cells.push(cell),
        ).collapsed,
{
    let all = cells.push(cell);
    assert(all.drop_last() =~= cells);
    assert(all.last() == cell);
}

/// Appending a cell keeps a selected turn selected, so a turn chosen with the turn keys stays the
/// target while new output arrives.
pub proof fn law_append_keeps_selected_turn(m: TurnStateModel, cells: Seq<TranscriptCell>, cell: TranscriptCell)
    requires
        m.starts == turn_starts_of(cells),
        m.selected is Some,
        m.starts.contains(m.selected.unwrap()),
    ensures
        refresh_spec(m, cells.push(cell)).selected == m.selected,
        refresh_spec(m, cells.push(cell)).starts.contains(m.selected.unwrap()),
{
    let all = cells.push(cell);
    assert(all.drop_last() =~= cells);
    let p = turn_starts_of(cells);
    let sel = m.selected.unwrap();
    let k = choose|k: int| 0 <= k < p.len() && p[k] == sel;
    if is_user_cell(all.last()) {
        assert(turn_starts_of(all) == p.push((all.len() - 1) as usize));
        assert(turn_starts_of(all)[k] == sel);
    } else {
        assert(turn_starts_of(all) == p);
    }
}

} // verus!
