//! Where the pager draws: which renderables land in which rows, the key hints of the footer,
//! the history status label, and how a transcript cell is presented.

use crate::geometry::{rect_new_spec, sat_add_u16, sat_sub_u16, Rect};
use crate::keys::{first_or_empty, KeyBinding, KeyCode, KeyEvent, KeyModifiers, PagerKeymap, MODIFIER_NONE};
use crate::overlay::TranscriptOverlay;
use crate::overlay_types::{RenderItem, TranscriptHistoryState};
use crate::overlays::StaticOverlay;
use crate::pager::PagerView;
use crate::text::{chars_of, push_char, string_of};
use vstd::prelude::*;

verus! {

/// One renderable drawn into the content area: into `area`, scrolled by `scroll` rows when it
/// starts above the area.
#[derive(Clone, Copy, Debug, PartialEq, Eq, Structural)]
pub struct Placement {
    pub index: usize,
    pub area: Rect,
    pub scroll: Option<u16>,
}

/// The renderables drawn into the content area, and the first row below them; the rows from
/// there to the bottom of the area are drawn as empty (`~`).
#[derive(Clone, Debug)]
pub struct ContentPlan {
    pub placements: Vec<Placement>,
    pub filler_from: u16,
}

/// The state of the walk over the renderables: the next renderable's top row (relative to the
/// scrolled content), the bottom of what was drawn, the placements, and whether the walk
/// stopped below the area.
pub struct WalkState {
    pub y: int,
    pub drawn_bottom: int,
    pub placements: Seq<Placement>,
    pub stopped: bool,
}

pub open spec fn min_int(a: int, b: int) -> int {
    if a <= b {
        a
    } else {
        b
    }
}

/// The walk over the first `k` renderables.
pub open spec fn content_walk(area: Rect, scroll_offset: usize, heights: Seq<u16>, k: int) -> WalkState
    decreases k,
{
    if k <= 0 {
        WalkState { y: -(scroll_offset as int), drawn_bottom: area.y as int, placements: Seq::empty(), stopped: false }
    } else {
        let w = content_walk(area, scroll_offset, heights, k - 1);
        let i = k - 1;
        let top = w.y;
        let height = heights[i] as int;
        let bottom = top + height;
        let next = WalkState { y: bottom, ..w };
        if w.stopped || bottom < area.y {
            if w.stopped {
                w
            } else {
                next
            }
        } else if top > area.y + area.height {
            WalkState { stopped: true, ..w }
        } else if top < 0 {
            let scroll = -top;
            let copy_height = min_int(area.height as int, if height >= scroll { height - scroll } else { 0 });
            if copy_height == 0 {
                next
            } else {
                WalkState {
                    placements: w.placements.push(
                        Placement {
                            index: i as usize,
                            area: rect_new_spec(area.x, area.y, area.width, copy_height as u16),
                            scroll: Some(scroll as u16),
                        },
                    ),
                    drawn_bottom: if w.drawn_bottom >= area.y + copy_height {
                        w.drawn_bottom
                    } else {
                        area.y + copy_height
                    },
                    ..next
                }
            }
        } else {
            let draw_height = min_int(height, sat_sub_u16(area.height, top as u16) as int);
            let draw_area = rect_new_spec(area.x, (area.y + top) as u16, area.width, draw_height as u16);
            let draw_bottom = sat_add_u16(draw_area.y, draw_area.height) as int;
            WalkState {
                placements: w.placements.push(Placement { index: i as usize, area: draw_area, scroll: None }),
                drawn_bottom: if w.drawn_bottom >= draw_bottom {
                    w.drawn_bottom
                } else {
                    draw_bottom
                },
                ..next
            }
        }
    }
}

proof fn lemma_walk_bounds(area: Rect, scroll_offset: usize, heights: Seq<u16>, k: int)
    requires
        0 <= k <= heights.len(),
        area.y + area.height <= u16::MAX,
    ensures
        ({
            let w = content_walk(area, scroll_offset, heights, k);
            &&& w.y <= -(scroll_offset as int) + k * 65535
            &&& w.y >= -(scroll_offset as int)
            &&& area.y <= w.drawn_bottom <= u16::MAX
            &&& w.placements.len() <= k
        }),
    decreases k,
{
    if k > 0 {
        lemma_walk_bounds(area, scroll_offset, heights, k - 1);
    }
}

impl PagerView {
    /// Where the renderables with the given heights are drawn into the content `area` at the
    /// current scroll offset.
    pub fn content_plan(&self, area: Rect, heights: &Vec<u16>) -> (r: ContentPlan)
        requires
            self.scroll_offset <= isize::MAX,
            heights@.len() * 65535 <= isize::MAX,
            area.y + area.y + area.height <= u16::MAX,
        ensures
            ({
                let w = content_walk(area, self.scroll_offset, heights@, heights@.len() as int);
                &&& r.placements@ == w.placements
                &&& r.filler_from == w.drawn_bottom
            }),
    {
        let n = heights.len();
        let mut y: i128 = -(self.scroll_offset as i128);
        let mut drawn_bottom: u16 = area.y;
        let mut placements: Vec<Placement> = Vec::new();
        let mut stopped = false;
        let mut i: usize = 0;
        while i < n
            invariant
                0 <= i <= n,
                n == heights@.len(),
                n * 65535 <= isize::MAX,
                self.scroll_offset <= isize::MAX,
                area.y + area.y + area.height <= u16::MAX,
                ({
                    let w = content_walk(area, self.scroll_offset, heights@, i as int);
                    &&& y == w.y
                    &&& drawn_bottom == w.drawn_bottom
                    &&& placements@ == w.placements
                    &&& stopped == w.stopped
                }),
            decreases n - i,
        {
            proof {
                lemma_walk_bounds(area, self.scroll_offset, heights@, i as int);
            }
            let top = y;
            let height = heights[i] as i128;
            let bottom = top + height;
            if stopped {
            } else if bottom < area.y as i128 {
                y = bottom;
            } else if top > area.y as i128 + area.height as i128 {
                stopped = true;
            } else if top < 0 {
                let scroll = -top;
                let remaining = if height >= scroll {
                    height - scroll
                } else {
                    0
                };
                let copy_height = if (area.height as i128) <= remaining {
                    area.height as i128
                } else {
                    remaining
                };
                if copy_height != 0 {
                    placements.push(
                        Placement {
                            index: i,
                            area: Rect::new(area.x, area.y, area.width, copy_height as u16),
                            scroll: Some(scroll as u16),
                        },
                    );
                    let reached = area.y as i128 + copy_height;
                    if (drawn_bottom as i128) < reached {
                        drawn_bottom = reached as u16;
                    }
                }
                y = bottom;
            } else {
                let room = area.height.saturating_sub(top as u16) as i128;
                let draw_height = if height <= room {
                    height
                } else {
                    room
                };
                let draw_area = Rect::new(area.x, area.y + top as u16, area.width, draw_height as u16);
                placements.push(Placement { index: i, area: draw_area, scroll: None });
                let draw_bottom = draw_area.y.saturating_add(draw_area.height);
                if drawn_bottom < draw_bottom {
                    drawn_bottom = draw_bottom;
                }
                y = bottom;
            }
            i += 1;
        }
        ContentPlan { placements, filler_from: drawn_bottom }
    }
}

/// A group of key hints of the footer: the keys and what they do.
#[derive(Clone, Debug)]
pub struct KeyHintGroup {
    pub keys: Vec<KeyBinding>,
    pub description: &'static str,
}

/// The first binding of an action, as a sequence of at most one hint.
pub open spec fn primary(bindings: Seq<KeyBinding>) -> Seq<KeyBinding> {
    if bindings.len() == 0 {
        Seq::empty()
    } else {
        seq![bindings[0]]
    }
}

/// The keys and description of a hint group.
pub open spec fn group_view(g: KeyHintGroup) -> (Seq<KeyBinding>, &'static str) {
    (g.keys@, g.description)
}

pub open spec fn groups_view(groups: Seq<KeyHintGroup>) -> Seq<(Seq<KeyBinding>, &'static str)> {
    groups.map_values(|g: KeyHintGroup| group_view(g))
}

/// The navigation hints: the primary keys of scrolling, paging and jumping.
pub open spec fn navigation_hints_spec(keymap: PagerKeymap) -> Seq<(Seq<KeyBinding>, &'static str)> {
    seq![
        (primary(keymap.scroll_up@) + primary(keymap.scroll_down@), "to scroll"),
        (primary(keymap.page_up@) + primary(keymap.page_down@), "to page"),
        (primary(keymap.jump_top@) + primary(keymap.jump_bottom@), "to jump"),
    ]
}

fn hint_group(first: &Vec<KeyBinding>, second: &Vec<KeyBinding>, keymap: &PagerKeymap, description: &'static str) -> (r:
    KeyHintGroup)
    ensures
        group_view(r) == (primary(first@) + primary(second@), description),
{
    let mut keys = first_or_empty(keymap, first);
    let more = first_or_empty(keymap, second);
    if more.len() > 0 {
        keys.push(more[0]);
    }
    assert(keys@ =~= primary(first@) + primary(second@));
    KeyHintGroup { keys, description }
}

/// The first footer line: how to scroll, page and jump.
pub fn navigation_hints(keymap: &PagerKeymap) -> (r: Vec<KeyHintGroup>)
    ensures
        groups_view(r@) == navigation_hints_spec(*keymap),
{
    let scroll = hint_group(&keymap.scroll_up, &keymap.scroll_down, keymap, "to scroll");
    let page = hint_group(&keymap.page_up, &keymap.page_down, keymap, "to page");
    let jump = hint_group(&keymap.jump_top, &keymap.jump_bottom, keymap, "to jump");
    let r = vec![scroll, page, jump];
    assert(groups_view(r@) =~= navigation_hints_spec(*keymap));
    r
}

pub open spec fn plain_key(code: KeyCode) -> KeyEvent {
    KeyEvent { code, modifiers: KeyModifiers { bits: MODIFIER_NONE } }
}

/// The second footer line of the transcript overlay: how to close it and how to pick a message
/// to edit.
pub open spec fn transcript_hints_spec(keymap: PagerKeymap, highlight_cell: Option<usize>) -> Seq<
    (Seq<KeyBinding>, &'static str),
> {
    let close = (primary(keymap.close@), "close");
    if highlight_cell is Some {
        seq![
            close,
            (seq![plain_key(KeyCode::Esc), plain_key(KeyCode::Left)], "to edit prev"),
            (seq![plain_key(KeyCode::Right)], "to edit next"),
            (seq![plain_key(KeyCode::Enter)], "to edit message"),
        ]
    } else {
        seq![close, (seq![plain_key(KeyCode::Esc)], "to edit prev")]
    }
}

impl TranscriptOverlay {
    /// The second footer line: close, and the message-editing keys.
    pub fn hint_groups(&self) -> (r: Vec<KeyHintGroup>)
        ensures
            groups_view(r@) == transcript_hints_spec(self.view.keymap, self.highlight_cell),
    {
        let close = KeyHintGroup { keys: first_or_empty(&self.view.keymap, &self.view.keymap.close), description: "close" };
        let r = match self.highlight_cell {
            Some(_) => vec![
                close,
                KeyHintGroup {
                    keys: vec![KeyEvent::plain(KeyCode::Esc), KeyEvent::plain(KeyCode::Left)],
                    description: "to edit prev",
                },
                KeyHintGroup { keys: vec![KeyEvent::plain(KeyCode::Right)], description: "to edit next" },
                KeyHintGroup { keys: vec![KeyEvent::plain(KeyCode::Enter)], description: "to edit message" },
            ],
            None => vec![close, KeyHintGroup { keys: vec![KeyEvent::plain(KeyCode::Esc)], description: "to edit prev" }],
        };
        proof {
            let v = groups_view(r@);
            let s = transcript_hints_spec(self.view.keymap, self.highlight_cell);
            assert(v.len() == s.len());
            assert forall|i: int| 0 <= i < v.len() implies v[i] == s[i] by {
                assert(group_view(r@[i]) == v[i]);
                if i > 0 {
                    assert(r@[i].keys@ =~= s[i].0);
                }
            }
            assert(v =~= s);
        }
        r
    }

    /// The history status label and where it goes: right-aligned on the first row of `area`,
    /// cut to the area's width.
    pub fn history_status(&self, area: Rect) -> (r: Option<(&'static str, Rect)>)
        ensures
            match r {
                None => area.height == 0 || self.history_state == TranscriptHistoryState::Idle,
                Some((label, status_area)) => area.height > 0 && Some(label) == self.history_state.status_label_spec()
                    && ({
                    let width: u16 = if label@.len() <= area.width {
                        label@.len() as u16
                    } else {
                        area.width
                    };
                    status_area == rect_new_spec(sat_sub_u16(sat_add_u16(area.x, area.width), width), area.y, width, 1)
                }),
            },
    {
        if area.height == 0 {
            return None;
        }
        let label = match self.history_state.status_label() {
            Some(label) => label,
            None => return None,
        };
        let count = label.unicode_len();
        let width: u16 = if count <= area.width as usize {
            count as u16
        } else {
            area.width
        };
        Some((label, Rect::new(area.right().saturating_sub(width), area.y, width, 1)))
    }
}

impl StaticOverlay {
    /// The second footer line of a static overlay: how to close it.
    pub fn hint_groups(&self) -> (r: Vec<KeyHintGroup>)
        ensures
            groups_view(r@) == seq![(primary(self.view.keymap.close@), "close")],
    {
        let r = vec![KeyHintGroup { keys: first_or_empty(&self.view.keymap, &self.view.keymap.close), description: "close" }];
        assert(groups_view(r@) =~= seq![(primary(self.view.keymap.close@), "close")]);
        r
    }
}

/// How the text of a user prompt is styled.
#[derive(Clone, Copy, Debug, PartialEq, Eq, Structural)]
pub enum PromptStyle {
    /// Not a user prompt.
    Default,
    UserMessage,
    /// The user message style, reversed.
    UserReversed,
}

/// How a committed cell is presented.
#[derive(Clone, Copy, Debug, PartialEq, Eq, Structural)]
pub struct CellPresentation {
    /// Draw the prompt's marker as the fold target's.
    pub mark_target: bool,
    pub style: PromptStyle,
}

/// A cell is highlighted when the viewer highlights it or it is the workspace's fold target; in
/// the workspace a highlighted prompt gets the target marker, and user prompts keep their
/// distinct style (reversed when emphasized or highlighted).
pub open spec fn cell_presentation_spec(item: RenderItem, is_user: bool, workspace_target: Option<usize>) -> Option<
    CellPresentation,
> {
    match item {
        RenderItem::Cell { index, highlighted, workspace, .. } => {
            let lit = highlighted || (workspace && workspace_target == Some(index));
            Some(
                CellPresentation {
                    mark_target: workspace && lit,
                    style: if !is_user {
                        PromptStyle::Default
                    } else if workspace || lit {
                        PromptStyle::UserReversed
                    } else {
                        PromptStyle::UserMessage
                    },
                },
            )
        },
        _ => None,
    }
}

/// How a committed cell's renderable is presented, given the workspace's fold target.
pub fn cell_presentation(item: RenderItem, is_user: bool, workspace_target: Option<usize>) -> (r: Option<
    CellPresentation,
>)
    ensures
        r == cell_presentation_spec(item, is_user, workspace_target),
{
    match item {
        RenderItem::Cell { index, highlighted, workspace, .. } => {
            let targeted = match workspace_target {
                Some(t) => workspace && t == index,
                None => false,
            };
            let lit = highlighted || targeted;
            let style = if !is_user {
                PromptStyle::Default
            } else if workspace || lit {
                PromptStyle::UserReversed
            } else {
                PromptStyle::UserMessage
            };
            Some(CellPresentation { mark_target: workspace && lit, style })
        },
        _ => None,
    }
}

/// Where a renderable with reserved image rows below it draws its content: the content rows
/// only, clipped to the area. When scrolled past its content, nothing is drawn.
pub fn reserved_content_area(area: Rect, content_height: u16, scroll_offset: u16) -> (r: Option<Rect>)
    ensures
        scroll_offset >= content_height ==> r is None,
        scroll_offset < content_height ==> r == Some(
            rect_new_spec(
                area.x,
                area.y,
                area.width,
                if area.height <= content_height - scroll_offset {
                    area.height
                } else {
                    (content_height - scroll_offset) as u16
                },
            ),
        ),
{
    if scroll_offset >= content_height {
        return None;
    }
    let visible = content_height - scroll_offset;
    let height = if area.height <= visible {
        area.height
    } else {
        visible
    };
    Some(Rect::new(area.x, area.y, area.width, height))
}

/// The header of a pager: a rule across the top row, and the title drawn over it from the left.
#[derive(Clone, Debug)]
pub struct PagerHeader {
    pub rule: String,
    pub title: Option<String>,
}

/// The columns of the first `k` characters.
pub open spec fn width_sum(widths: Seq<usize>, k: int) -> int
    decreases k,
{
    if k <= 0 {
        0
    } else {
        width_sum(widths, k - 1) + widths[k - 1]
    }
}

/// The number of leading characters that fit in `max` columns, counting from `k` on.
pub open spec fn fitting_from(widths: Seq<usize>, max: int, k: int) -> int
    decreases widths.len() - k,
{
    if 0 <= k < widths.len() && width_sum(widths, k + 1) <= max {
        fitting_from(widths, max, k + 1)
    } else {
        k
    }
}

/// The number of leading characters that fit in `max` columns.
pub open spec fn fitting_len(widths: Seq<usize>, max: int) -> int {
    fitting_from(widths, max, 0)
}

pub open spec fn repeat_spec(unit: Seq<char>, n: nat) -> Seq<char>
    decreases n,
{
    if n == 0 {
        Seq::empty()
    } else {
        repeat_spec(unit, (n - 1) as nat) + unit
    }
}

/// The header of a pager `width` columns wide whose title's characters have the given display
/// widths. The workspace header is a thin rule with the title in spaces, cut with an ellipsis
/// (one column) when it does not fit between the two outer columns; the legacy header is a
/// slashed rule with the title after a slash.
pub open spec fn header_spec(title: Seq<char>, widths: Seq<usize>, width: u16, workspace: bool) -> (
    Seq<char>,
    Option<Seq<char>>,
) {
    if workspace {
        let rule = repeat_spec(seq!['\u{2500}'], width as nat);
        let available: int = if width >= 2 {
            width - 2
        } else {
            0
        };
        if available == 0 {
            (rule, None)
        } else {
            let n = fitting_len(widths, available);
            let shown = if width_sum(widths, n) < width_sum(widths, widths.len() as int) {
                let m = fitting_len(widths, if available >= 1 {
                    available - 1
                } else {
                    0
                });
                title.take(m) + seq!['\u{2026}']
            } else {
                title.take(n)
            };
            (rule, Some(seq![' '] + shown + seq![' ']))
        }
    } else {
        (repeat_spec(seq!['/', ' '], (width / 2) as nat), Some(seq!['/', ' '] + title))
    }
}

fn repeat_chars(unit: &Vec<char>, n: u16) -> (r: String)
    ensures
        r@ == repeat_spec(unit@, n as nat),
{
    let mut out = String::new();
    let mut i: u16 = 0;
    while i < n
        invariant
            0 <= i <= n,
            out@ == repeat_spec(unit@, i as nat),
        decreases n - i,
    {
        let ghost before = out@;
        let mut j: usize = 0;
        while j < unit.len()
            invariant
                0 <= j <= unit@.len(),
                out@ == before + unit@.take(j as int),
            decreases unit@.len() - j,
        {
            push_char(&mut out, unit[j]);
            j += 1;
            assert(out@ =~= before + unit@.take(j as int));
        }
        assert(unit@.take(unit@.len() as int) =~= unit@);
        i += 1;
    }
    out
}

proof fn lemma_width_sum_monotone(widths: Seq<usize>, a: int, b: int)
    requires
        0 <= a <= b <= widths.len(),
    ensures
        width_sum(widths, a) <= width_sum(widths, b),
    decreases b - a,
{
    if a < b {
        lemma_width_sum_monotone(widths, a, b - 1);
    }
}

proof fn lemma_fitting_from(widths: Seq<usize>, max: int, k: int)
    requires
        0 <= k <= widths.len(),
    ensures
        k <= fitting_from(widths, max, k) <= widths.len(),
        fitting_from(widths, max, k) < widths.len() ==> width_sum(widths, fitting_from(widths, max, k) + 1) > max,
        width_sum(widths, k) <= max ==> width_sum(widths, fitting_from(widths, max, k)) <= max,
    decreases widths.len() - k,
{
    if k < widths.len() && width_sum(widths, k + 1) <= max {
        lemma_fitting_from(widths, max, k + 1);
    }
}

/// The number of leading characters that fit in `max` columns.
fn fitting_prefix(widths: &Vec<usize>, max: usize) -> (r: usize)
    ensures
        r == fitting_len(widths@, max as int),
        r <= widths@.len(),
{
    let mut k: usize = 0;
    let mut used: usize = 0;
    while k < widths.len() && widths[k] <= max - used
        invariant
            0 <= k <= widths@.len(),
            used == width_sum(widths@, k as int),
            used <= max,
            fitting_len(widths@, max as int) == fitting_from(widths@, max as int, k as int),
        decreases widths@.len() - k,
    {
        used = used + widths[k];
        k += 1;
    }
    proof {
        lemma_fitting_from(widths@, max as int, k as int);
    }
    k
}

impl PagerView {
    /// The header of the pager for an area `width` columns wide; `title_widths` are the display
    /// widths of the title's characters.
    pub fn header(&self, width: u16, title_widths: &Vec<usize>) -> (r: PagerHeader)
        requires
            title_widths@.len() == self.title@.len(),
        ensures
            ({
                let (rule, title) = header_spec(self.title@, title_widths@, width, self.workspace_header);
                &&& r.rule@ == rule
                &&& match r.title {
                    Some(t) => title == Some(t@),
                    None => title is None,
                }
            }),
    {
        let ghost widths = title_widths@;
        if self.workspace_header {
            let unit = vec!['\u{2500}'];
            assert(unit@ =~= seq!['\u{2500}']);
            let rule = repeat_chars(&unit, width);
            let available: usize = if width >= 2 {
                (width - 2) as usize
            } else {
                0
            };
            if available == 0 {
                return PagerHeader { rule, title: None };
            }
            let chars = chars_of(self.title.as_str());
            let n = fitting_prefix(title_widths, available);
            let mut title = String::new();
            push_char(&mut title, ' ');
            let truncated = n < title_widths.len();
            proof {
                lemma_fitting_from(widths, available as int, 0);
                if n < widths.len() {
                    lemma_width_sum_monotone(widths, n + 1, widths.len() as int);
                }
            }
            if truncated {
                let m = fitting_prefix(title_widths, available - 1);
                proof {
                    lemma_fitting_from(widths, available - 1, 0);
                }
                let prefix = string_of(&chars, 0, m);
                title.append(prefix.as_str());
                push_char(&mut title, '\u{2026}');
            } else {
                let prefix = string_of(&chars, 0, n);
                title.append(prefix.as_str());
            }
            push_char(&mut title, ' ');
            proof {
                assert(chars@ == self.title@);
                if truncated {
                    let m = fitting_len(widths, available - 1);
                    assert(title@ =~= seq![' '] + (self.title@.take(m) + seq!['\u{2026}']) + seq![' ']);
                } else {
                    assert(n == widths.len());
                    assert(title@ =~= seq![' '] + self.title@.take(n as int) + seq![' ']);
                }
            }
            PagerHeader { rule, title: Some(title) }
        } else {
            let unit = vec!['/', ' '];
            assert(unit@ =~= seq!['/', ' ']);
            let rule = repeat_chars(&unit, width / 2);
            let mut title = String::new();
            push_char(&mut title, '/');
            push_char(&mut title, ' ');
            title.append(self.title.as_str());
            proof {
                assert(title@ =~= seq!['/', ' '] + self.title@);
            }
            PagerHeader { rule, title: Some(title) }
        }
    }
}

/// The title of a workspace header, with its ellipsis when it is cut, fits in the columns
/// between the header's two outer ones; an uncut title is shown whole.
pub proof fn law_workspace_title_fits(title: Seq<char>, widths: Seq<usize>, width: u16)
    requires
        widths.len() == title.len(),
        width > 2,
    ensures
        ({
            let available = width - 2;
            let n = fitting_len(widths, available);
            if width_sum(widths, n) < width_sum(widths, widths.len() as int) {
                width_sum(widths, fitting_len(widths, available - 1)) + 1 <= available
            } else {
                n == widths.len() && width_sum(widths, n) <= available
            }
        }),
{
    let available = width - 2;
    lemma_fitting_from(widths, available, 0);
    lemma_fitting_from(widths, available - 1, 0);
    let n = fitting_len(widths, available);
    if n < widths.len() {
        lemma_width_sum_monotone(widths, n + 1, widths.len() as int);
    }
}

} // verus!
