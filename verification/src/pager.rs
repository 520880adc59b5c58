//! The scroll state of a pager view.
//!
//! A pager shows a vertical list of renderables. What each renderable draws lives with the
//! renderer; the pager keeps which renderables there are, the scroll offset, and what it learned
//! from the last render. Functions that need the renderables' heights at the current width take
//! them as `heights`, one entry per renderable.

use crate::geometry::{Rect, sat_add_u16, sat_sub_u16};
use crate::keys::{is_pressed, is_pressed_spec, KeyEvent, PagerKeymap};
use crate::overlay_types::RenderItem;
use vstd::prelude::*;

verus! {

/// The sum of a sequence of heights.
pub open spec fn sum_heights(h: Seq<usize>) -> nat
    decreases h.len(),
{
    if h.len() == 0 {
        0
    } else {
        sum_heights(h.drop_last()) + (h.last() as nat)
    }
}

pub proof fn lemma_sum_heights_prefix_monotone(h: Seq<usize>, i: int, j: int)
    requires
        0 <= i <= j <= h.len(),
    ensures
        sum_heights(h.take(i)) <= sum_heights(h.take(j)),
    decreases j - i,
{
    if i < j {
        lemma_sum_heights_prefix_monotone(h, i, j - 1);
        assert(h.take(j).drop_last() =~= h.take(j - 1));
    }
}

pub proof fn lemma_sum_heights_take_full(h: Seq<usize>)
    ensures
        sum_heights(h.take(h.len() as int)) == sum_heights(h),
{
    assert(h.take(h.len() as int) =~= h);
}

/// `a + b` clamped to `usize::MAX`.
pub open spec fn sat_add(a: int, b: int) -> usize {
    if a + b > usize::MAX {
        usize::MAX
    } else {
        (a + b) as usize
    }
}

/// `a - b` clamped to 0.
pub open spec fn sat_sub(a: int, b: int) -> usize {
    if a >= b {
        (a - b) as usize
    } else {
        0
    }
}

/// The sum of `heights`.
pub fn total_height(heights: &Vec<usize>) -> (r: usize)
    requires
        sum_heights(heights@) <= usize::MAX,
    ensures
        r == sum_heights(heights@),
{
    let n = heights.len();
    let mut total: usize = 0;
    let mut i: usize = 0;
    while i < n
        invariant
            0 <= i <= n,
            n == heights.len(),
            sum_heights(heights@) <= usize::MAX,
            total == sum_heights(heights@.take(i as int)),
        decreases n - i,
    {
        assert(heights@.take(i + 1).drop_last() =~= heights@.take(i as int));
        proof {
            lemma_sum_heights_prefix_monotone(heights@, i + 1, n as int);
            lemma_sum_heights_take_full(heights@);
        }
        total = total + heights[i];
        i += 1;
    }
    proof {
        lemma_sum_heights_take_full(heights@);
    }
    total
}

/// The content rows of a pager area: below the header and above the bottom bar.
pub open spec fn content_area_spec(area: Rect) -> Rect {
    Rect { y: sat_add_u16(area.y, 1), height: sat_sub_u16(area.height, 2), ..area }
}

/// What a pager navigation key does to the scroll offset.
pub open spec fn navigate_spec(
    keymap: PagerKeymap,
    key: KeyEvent,
    offset: usize,
    page_height: usize,
    half_page: usize,
) -> Option<usize> {
    if is_pressed_spec(keymap.scroll_up@, key) {
        Some(sat_sub(offset as int, 1))
    } else if is_pressed_spec(keymap.scroll_down@, key) {
        Some(sat_add(offset as int, 1))
    } else if is_pressed_spec(keymap.page_up@, key) {
        Some(sat_sub(offset as int, page_height as int))
    } else if is_pressed_spec(keymap.page_down@, key) {
        Some(sat_add(offset as int, page_height as int))
    } else if is_pressed_spec(keymap.half_page_down@, key) {
        Some(sat_add(offset as int, half_page as int))
    } else if is_pressed_spec(keymap.half_page_up@, key) {
        Some(sat_sub(offset as int, half_page as int))
    } else if is_pressed_spec(keymap.jump_top@, key) {
        Some(0)
    } else if is_pressed_spec(keymap.jump_bottom@, key) {
        Some(usize::MAX)
    } else {
        None
    }
}

/// Half a page of `area`'s content rows, rounded up.
pub open spec fn half_page_spec(area: Rect) -> usize {
    ((content_area_spec(area).height + 1) / 2) as usize
}

/// Where a pager scrolled at `offset` has to scroll so that the chunk spanning rows
/// `first..last` is visible in `area_height` rows.
pub open spec fn chunk_visible_offset(offset: usize, first: nat, last: nat, area_height: u16) -> usize {
    let current_bottom = sat_add(offset as int, sat_sub(area_height as int, 1) as int);
    if first < offset {
        first as usize
    } else if last > current_bottom {
        sat_sub(last as int, sat_sub(area_height as int, 1) as int)
    } else {
        offset
    }
}

/// The view after drawing it into `area` with the renderables' `heights`.
pub open spec fn render_spec(v: PagerView, area: Rect, heights: Seq<usize>) -> PagerView {
    let content = content_area_spec(area);
    let total = sum_heights(heights);
    let offset = match v.pending_scroll_chunk {
        None => v.scroll_offset,
        Some(idx) => if content.height == 0 || idx >= heights.len() {
            v.scroll_offset
        } else {
            chunk_visible_offset(
                v.scroll_offset,
                sum_heights(heights.take(idx as int)),
                sum_heights(heights.take(idx + 1)),
                content.height,
            )
        },
    };
    let max_scroll = sat_sub(total as int, content.height as int);
    PagerView {
        last_content_height: Some(content.height as usize),
        last_rendered_height: Some(total as usize),
        pending_scroll_chunk: None,
        scroll_offset: if offset <= max_scroll {
            offset
        } else {
            max_scroll
        },
        ..v
    }
}

/// The view after a navigation key with the full terminal viewport, and whether it moved.
pub open spec fn key_handled_spec(v: PagerView, key: KeyEvent, viewport_area: Rect) -> (PagerView, bool) {
    let nav = navigate_spec(
        v.keymap,
        key,
        v.scroll_offset,
        match v.last_content_height {
            Some(h) => h,
            None => content_area_spec(viewport_area).height as usize,
        },
        half_page_spec(viewport_area),
    );
    (
        PagerView {
            scroll_offset: match nav {
                Some(o) => o,
                None => v.scroll_offset,
            },
            ..v
        },
        nav is Some,
    )
}

/// Generic scroll state for rendering a pager view.
#[derive(Clone, Debug)]
pub struct PagerView {
    pub renderables: Vec<RenderItem>,
    pub scroll_offset: usize,
    pub title: String,
    pub keymap: PagerKeymap,
    pub last_content_height: Option<usize>,
    pub last_rendered_height: Option<usize>,
    /// Percentages are meaningful only when the full scrollable history is known.
    pub scroll_percentage_visible: bool,
    /// If set, the next render ensures this chunk is visible.
    pub pending_scroll_chunk: Option<usize>,
    /// Workspace-only header treatment.
    pub workspace_header: bool,
}

impl PagerView {
    pub fn new(renderables: Vec<RenderItem>, title: String, scroll_offset: usize, keymap: PagerKeymap) -> (r:
        Self)
        ensures
            r.renderables@ == renderables@,
            r.title@ == title@,
            r.scroll_offset == scroll_offset,
            r.keymap == keymap,
            r.last_content_height is None,
            r.last_rendered_height is None,
            r.scroll_percentage_visible,
            r.pending_scroll_chunk is None,
            !r.workspace_header,
    {
        PagerView {
            renderables,
            scroll_offset,
            title,
            keymap,
            last_content_height: None,
            last_rendered_height: None,
            scroll_percentage_visible: true,
            pending_scroll_chunk: None,
            workspace_header: false,
        }
    }

    /// The total height of the renderables, given each one's height.
    pub fn content_height(&self, heights: &Vec<usize>) -> (r: usize)
        requires
            sum_heights(heights@) <= usize::MAX,
        ensures
            r == sum_heights(heights@),
    {
        total_height(heights)
    }

    pub fn content_area(&self, area: Rect) -> (r: Rect)
        ensures
            r == content_area_spec(area),
    {
        let mut area = area;
        area.y = area.y.saturating_add(1);
        area.height = area.height.saturating_sub(2);
        area
    }

    /// The height of one page in content rows: the last rendered content height, or the content
    /// height of `viewport_area` before the first render.
    pub fn page_height(&self, viewport_area: Rect) -> (r: usize)
        ensures
            r == match self.last_content_height {
                Some(h) => h,
                None => content_area_spec(viewport_area).height as usize,
            },
    {
        match self.last_content_height {
            Some(h) => h,
            None => self.content_area(viewport_area).height as usize,
        }
    }

    pub fn update_last_content_height(&mut self, height: u16)
        ensures
            *final(self) == (PagerView { last_content_height: Some(height as usize), ..*old(self) }),
    {
        self.last_content_height = Some(height as usize);
    }

    /// Whether the view shows the end of its content.
    pub open spec fn is_scrolled_to_bottom_spec(&self) -> bool {
        if self.scroll_offset == usize::MAX {
            true
        } else {
            match self.last_content_height {
                None => false,
                Some(height) => if self.renderables@.len() == 0 {
                    true
                } else {
                    match self.last_rendered_height {
                        None => false,
                        Some(total) => total <= height || self.scroll_offset >= total - height,
                    }
                },
            }
        }
    }

    pub fn is_scrolled_to_bottom(&self) -> (r: bool)
        ensures
            r == self.is_scrolled_to_bottom_spec(),
    {
        if self.scroll_offset == usize::MAX {
            return true;
        }
        let height = match self.last_content_height {
            None => return false,
            Some(h) => h,
        };
        if self.renderables.len() == 0 {
            return true;
        }
        let total_height = match self.last_rendered_height {
            None => return false,
            Some(t) => t,
        };
        if total_height <= height {
            return true;
        }
        let max_scroll = total_height - height;
        self.scroll_offset >= max_scroll
    }

    /// Requests that the given chunk be scrolled into view on the next render.
    pub fn scroll_chunk_into_view(&mut self, chunk_index: usize)
        ensures
            *final(self) == (PagerView { pending_scroll_chunk: Some(chunk_index), ..*old(self) }),
    {
        self.pending_scroll_chunk = Some(chunk_index);
    }

    /// Scrolls so that chunk `idx` is within `area`'s rows.
    pub fn ensure_chunk_visible(&mut self, idx: usize, area: Rect, heights: &Vec<usize>)
        requires
            heights@.len() == old(self).renderables@.len(),
            sum_heights(heights@) <= usize::MAX,
        ensures
            *final(self) == (PagerView {
                scroll_offset: if area.height == 0 || idx >= heights@.len() {
                    old(self).scroll_offset
                } else {
                    chunk_visible_offset(
                        old(self).scroll_offset,
                        sum_heights(heights@.take(idx as int)),
                        sum_heights(heights@.take(idx + 1)),
                        area.height,
                    )
                },
                ..*old(self)
            }),
    {
        if area.height == 0 || idx >= self.renderables.len() {
            return;
        }
        let mut first: usize = 0;
        let mut i: usize = 0;
        while i < idx
            invariant
                0 <= i <= idx < heights@.len(),
                sum_heights(heights@) <= usize::MAX,
                first == sum_heights(heights@.take(i as int)),
            decreases idx - i,
        {
            assert(heights@.take(i + 1).drop_last() =~= heights@.take(i as int));
            proof {
                lemma_sum_heights_prefix_monotone(heights@, i + 1, heights@.len() as int);
                lemma_sum_heights_take_full(heights@);
            }
            first = first + heights[i];
            i += 1;
        }
        proof {
            assert(heights@.take(idx + 1).drop_last() =~= heights@.take(idx as int));
            lemma_sum_heights_prefix_monotone(heights@, idx + 1, heights@.len() as int);
            lemma_sum_heights_take_full(heights@);
        }
        let last = first + heights[idx];
        let current_top = self.scroll_offset;
        let current_bottom = current_top.saturating_add(area.height.saturating_sub(1) as usize);
        if first < current_top {
            self.scroll_offset = first;
        } else if last > current_bottom {
            self.scroll_offset = last.saturating_sub(area.height.saturating_sub(1) as usize);
        }
    }

    /// The state changes of drawing the view into `area`: remember the content area's height
    /// and the content height, satisfy a pending scroll request, and clamp the offset to the
    /// content.
    pub fn render(&mut self, area: Rect, heights: &Vec<usize>)
        requires
            heights@.len() == old(self).renderables@.len(),
            sum_heights(heights@) <= usize::MAX,
        ensures
            *final(self) == render_spec(*old(self), area, heights@),
    {
        let content_area = self.content_area(area);
        self.update_last_content_height(content_area.height);
        let content_height = self.content_height(heights);
        self.last_rendered_height = Some(content_height);
        if let Some(idx) = self.pending_scroll_chunk {
            self.pending_scroll_chunk = None;
            self.ensure_chunk_visible(idx, content_area, heights);
        }
        let max_scroll = content_height.saturating_sub(content_area.height as usize);
        if self.scroll_offset > max_scroll {
            self.scroll_offset = max_scroll;
        }
    }

    /// Applies a navigation key using the full terminal viewport; returns whether the key moved
    /// the view (and a frame is due).
    pub fn handle_key_event(&mut self, key_event: KeyEvent, viewport_area: Rect) -> (r: bool)
        ensures
            (*final(self), r) == key_handled_spec(*old(self), key_event, viewport_area),
    {
        let page_height = self.page_height(viewport_area);
        self.handle_key_event_with_viewport(key_event, viewport_area, page_height)
    }

    /// Navigation for a caller that renders the pager into a sub-area of the terminal: the page
    /// height is that of the sub-area's content rows, not of the last full render.
    pub fn handle_key_event_in_area(&mut self, key_event: KeyEvent, viewport_area: Rect) -> (r: bool)
        ensures
            ({
                let nav = navigate_spec(
                    old(self).keymap,
                    key_event,
                    old(self).scroll_offset,
                    content_area_spec(viewport_area).height as usize,
                    half_page_spec(viewport_area),
                );
                &&& r == (nav is Some)
                &&& *final(self) == (PagerView {
                    scroll_offset: match nav {
                        Some(o) => o,
                        None => old(self).scroll_offset,
                    },
                    ..*old(self)
                })
            }),
    {
        let page_height = self.content_area(viewport_area).height as usize;
        self.handle_key_event_with_viewport(key_event, viewport_area, page_height)
    }

    pub fn handle_key_event_with_viewport(
        &mut self,
        key_event: KeyEvent,
        viewport_area: Rect,
        page_height: usize,
    ) -> (r: bool)
        ensures
            ({
                let nav = navigate_spec(
                    old(self).keymap,
                    key_event,
                    old(self).scroll_offset,
                    page_height,
                    half_page_spec(viewport_area),
                );
                &&& r == (nav is Some)
                &&& *final(self) == (PagerView {
                    scroll_offset: match nav {
                        Some(o) => o,
                        None => old(self).scroll_offset,
                    },
                    ..*old(self)
                })
            }),
    {
        let offset = self.scroll_offset;
        if is_pressed(&self.keymap.scroll_up, key_event) {
            self.scroll_offset = offset.saturating_sub(1);
        } else if is_pressed(&self.keymap.scroll_down, key_event) {
            self.scroll_offset = offset.saturating_add(1);
        } else if is_pressed(&self.keymap.page_up, key_event) {
            self.scroll_offset = offset.saturating_sub(page_height);
        } else if is_pressed(&self.keymap.page_down, key_event) {
            self.scroll_offset = offset.saturating_add(page_height);
        } else if is_pressed(&self.keymap.half_page_down, key_event) {
            let area = self.content_area(viewport_area);
            let half_page = (area.height as usize).saturating_add(1) / 2;
            self.scroll_offset = offset.saturating_add(half_page);
        } else if is_pressed(&self.keymap.half_page_up, key_event) {
            let area = self.content_area(viewport_area);
            let half_page = (area.height as usize).saturating_add(1) / 2;
            self.scroll_offset = offset.saturating_sub(half_page);
        } else if is_pressed(&self.keymap.jump_top, key_event) {
            self.scroll_offset = 0;
        } else if is_pressed(&self.keymap.jump_bottom, key_event) {
            self.scroll_offset = usize::MAX;
        } else {
            return false;
        }
        true
    }
}

/// The page height a navigation key uses with the full terminal viewport.
pub open spec fn page_height_spec(v: PagerView, viewport_area: Rect) -> usize {
    match v.last_content_height {
        Some(h) => h,
        None => content_area_spec(viewport_area).height as usize,
    }
}

/// Paging round-trips: a page down followed by a page up returns to the same offset when the
/// page down did not saturate, and a page up followed by a page down returns to it when the
/// page up did not stop at the top. `down` and `up` are keys bound to paging and to no
/// navigation action checked before it.
pub proof fn law_paging_round_trips(v: PagerView, down: KeyEvent, up: KeyEvent, viewport_area: Rect)
    requires
        !is_pressed_spec(v.keymap.scroll_up@, down),
        !is_pressed_spec(v.keymap.scroll_down@, down),
        !is_pressed_spec(v.keymap.page_up@, down),
        is_pressed_spec(v.keymap.page_down@, down),
        !is_pressed_spec(v.keymap.scroll_up@, up),
        !is_pressed_spec(v.keymap.scroll_down@, up),
        is_pressed_spec(v.keymap.page_up@, up),
    ensures
        v.scroll_offset + page_height_spec(v, viewport_area) <= usize::MAX ==> key_handled_spec(
            key_handled_spec(v, down, viewport_area).0,
            up,
            viewport_area,
        ).0 == v,
        v.scroll_offset >= page_height_spec(v, viewport_area) ==> key_handled_spec(
            key_handled_spec(v, up, viewport_area).0,
            down,
            viewport_area,
        ).0 == v,
{
}


/// Half-page keys move by half the content rows (the viewport less its header and footer rows),
/// rounded up: down never decreases the offset and saturates at `usize::MAX`, up never increases
/// it and stops at 0, and an up followed by a down returns to the same offset when the up did not
/// stop at the top (a down followed by an up, when the down did not saturate). `down` and `up`
/// are keys bound to half-page moves and to no navigation action checked before them.
pub proof fn law_half_page_moves(v: PagerView, down: KeyEvent, up: KeyEvent, viewport_area: Rect)
    requires
        !is_pressed_spec(v.keymap.scroll_up@, down),
        !is_pressed_spec(v.keymap.scroll_down@, down),
        !is_pressed_spec(v.keymap.page_up@, down),
        !is_pressed_spec(v.keymap.page_down@, down),
        is_pressed_spec(v.keymap.half_page_down@, down),
        !is_pressed_spec(v.keymap.scroll_up@, up),
        !is_pressed_spec(v.keymap.scroll_down@, up),
        !is_pressed_spec(v.keymap.page_up@, up),
        !is_pressed_spec(v.keymap.page_down@, up),
        !is_pressed_spec(v.keymap.half_page_down@, up),
        is_pressed_spec(v.keymap.half_page_up@, up),
    ensures
        ({
            let rows: int = if viewport_area.height >= 2 {
                viewport_area.height - 2
            } else {
                0
            };
            let half: int = (rows + 1) / 2;
            let (after_down, moved_down) = key_handled_spec(v, down, viewport_area);
            let (after_up, moved_up) = key_handled_spec(v, up, viewport_area);
            &&& moved_down && moved_up
            &&& after_down.scroll_offset == if v.scroll_offset + half > usize::MAX {
                usize::MAX as int
            } else {
                v.scroll_offset + half
            }
            &&& after_down.scroll_offset >= v.scroll_offset
            &&& after_up.scroll_offset == if v.scroll_offset >= half {
                v.scroll_offset - half
            } else {
                0
            }
            &&& after_up.scroll_offset <= v.scroll_offset
            &&& after_down == PagerView { scroll_offset: after_down.scroll_offset, ..v }
            &&& after_up == PagerView { scroll_offset: after_up.scroll_offset, ..v }
            &&& v.scroll_offset >= half ==> key_handled_spec(after_up, down, viewport_area).0 == v
            &&& v.scroll_offset + half <= usize::MAX ==> key_handled_spec(after_down, up, viewport_area).0 == v
        }),
{
}

} // verus!
