//! Drawing and event handling of the overlays: the transcript overlay, the static pager
//! overlay, and the overlay the application shows.

use crate::cell::TranscriptCell;
use crate::events::{is_redraw, is_redraw_event, OverlayAction, TuiEvent};
use crate::geometry::{rect_new_spec, sat_sub_u16, Rect};
use crate::keys::{is_pressed, is_pressed_spec, KeyEvent, PagerKeymap};
use crate::overlay::{layout_ensured, TranscriptOverlay};
use crate::overlay_types::RenderItem;
use crate::pager::{key_handled_spec, render_spec, sum_heights, PagerView};
use vstd::prelude::*;

verus! {

/// The two areas an overlay draws into: the pager on top and three rows of key hints below.
#[derive(Clone, Copy, Debug, PartialEq, Eq, Structural)]
pub struct OverlayAreas {
    pub pager: Rect,
    pub hints: Rect,
}

/// The pager area and the hint rows of an overlay drawn into `area`.
pub open spec fn overlay_areas_spec(area: Rect) -> OverlayAreas {
    let top_h = sat_sub_u16(area.height, 3);
    OverlayAreas {
        pager: rect_new_spec(area.x, area.y, area.width, top_h),
        hints: rect_new_spec(area.x, (area.y + top_h) as u16, area.width, 3),
    }
}

/// Splits `area` into the pager and the three hint rows below it.
pub fn overlay_areas(area: Rect) -> (r: OverlayAreas)
    requires
        area.y + sat_sub_u16(area.height, 3) <= u16::MAX,
    ensures
        r == overlay_areas_spec(area),
{
    let top_h = area.height.saturating_sub(3);
    OverlayAreas {
        pager: Rect::new(area.x, area.y, area.width, top_h),
        hints: Rect::new(area.x, area.y + top_h, area.width, 3),
    }
}

/// The view of a pager that is first pinned to the bottom if it showed the end of its content.
pub open spec fn pinned_view(v: PagerView) -> PagerView {
    if v.is_scrolled_to_bottom_spec() {
        PagerView { scroll_offset: usize::MAX, ..v }
    } else {
        v
    }
}

/// The overlay after a key that is not a close key: the pager navigates.
pub open spec fn navigated(o: TranscriptOverlay, key: KeyEvent, viewport_area: Rect) -> (TranscriptOverlay, bool) {
    let (view, moved) = key_handled_spec(o.view, key, viewport_area);
    (TranscriptOverlay { view, ..o }, moved)
}

impl TranscriptOverlay {
    /// The state changes of drawing the overlay into `area`. A view that showed the end of its
    /// content keeps following it even when the available height changed. `heights` are the
    /// renderables' heights at the pager's content width.
    pub fn render(&mut self, area: Rect, heights: &Vec<usize>) -> (r: OverlayAreas)
        requires
            old(self).wf(),
            area.y + sat_sub_u16(area.height, 3) <= u16::MAX,
            heights@.len() == old(self).view.renderables@.len(),
            sum_heights(heights@) <= usize::MAX,
        ensures
            final(self).wf(),
            r == overlay_areas_spec(area),
            *final(self) == (TranscriptOverlay {
                view: render_spec(pinned_view(old(self).view), r.pager, heights@),
                ..*old(self)
            }),
    {
        if self.view.is_scrolled_to_bottom() {
            self.view.scroll_offset = usize::MAX;
        }
        let areas = overlay_areas(area);
        self.view.render(areas.pager, heights);
        areas
    }

    /// Draws the workspace's transcript into `area`: builds the layout for the width if needed,
    /// then renders the pager. `cell_heights` are the cells' workspace heights at the width and
    /// are read only when the layout is not cached.
    pub fn render_workspace(&mut self, area: Rect, cell_heights: &Vec<u16>, heights: &Vec<usize>)
        requires
            old(self).wf(),
            old(self).workspace_layout_cached_spec(if area.width >= 1 { area.width } else { 1 })
                || cell_heights@.len() == old(self).cells@.len(),
            heights@.len() == old(self).view.renderables@.len(),
            sum_heights(heights@) <= usize::MAX,
        ensures
            final(self).wf(),
            exists|ensured: TranscriptOverlay|
                #[trigger] layout_ensured(*old(self), area.width, cell_heights@, ensured) && *final(self) == (
                TranscriptOverlay { view: render_spec(ensured.view, area, heights@), ..ensured }),
    {
        let ghost o = *self;
        self.ensure_workspace_layout_index(area.width, cell_heights);
        let ghost ensured = *self;
        self.view.render(area, heights);
        proof {
            assert(layout_ensured(o, area.width, cell_heights@, ensured));
        }
    }

    /// Handles an event of the full-screen overlay: the close keys (and Ctrl+T) close it, other
    /// keys navigate the pager, and redraw events ask for a frame.
    pub fn handle_event(&mut self, event: TuiEvent, viewport_area: Rect) -> (r: OverlayAction)
        requires
            old(self).wf(),
        ensures
            final(self).wf(),
            match event {
                TuiEvent::Key(key) => if is_pressed_spec(old(self).view.keymap.close@, key) || is_pressed_spec(
                    old(self).view.keymap.close_transcript@,
                    key,
                ) {
                    r == OverlayAction::Nothing && *final(self) == (TranscriptOverlay { is_done: true, ..*old(self) })
                } else {
                    let (next, moved) = navigated(*old(self), key, viewport_area);
                    &&& *final(self) == next
                    &&& r == if moved {
                        OverlayAction::ScheduleFrame
                    } else {
                        OverlayAction::Nothing
                    }
                },
                _ => *final(self) == *old(self) && r == if is_redraw_event(event) {
                    OverlayAction::Draw
                } else {
                    OverlayAction::Nothing
                },
            },
    {
        match event {
            TuiEvent::Key(key) => {
                if is_pressed(&self.view.keymap.close, key) || is_pressed(&self.view.keymap.close_transcript, key) {
                    self.is_done = true;
                    OverlayAction::Nothing
                } else if self.view.handle_key_event(key, viewport_area) {
                    OverlayAction::ScheduleFrame
                } else {
                    OverlayAction::Nothing
                }
            },
            _ => if is_redraw(event) {
                OverlayAction::Draw
            } else {
                OverlayAction::Nothing
            },
        }
    }
}

/// A pager overlay over fixed content, such as a diff or a help text.
#[derive(Clone, Debug)]
pub struct StaticOverlay {
    pub view: PagerView,
    pub is_done: bool,
}

/// The blocks of a static overlay with `n` renderables.
pub open spec fn blocks_spec(n: nat) -> Seq<RenderItem> {
    Seq::new(n, |i: int| RenderItem::Block { index: i as usize })
}

impl StaticOverlay {
    /// A static overlay over one block of wrapped lines.
    pub fn with_title(title: String, keymap: PagerKeymap) -> (r: Self)
        ensures
            r.view.renderables@ == seq![RenderItem::Block { index: 0 }],
            r.view.title@ == title@,
            r.view.scroll_offset == 0,
            r.view.keymap == keymap,
            !r.is_done,
    {
        let renderables = vec![RenderItem::Block { index: 0 }];
        Self::with_renderables(renderables, title, keymap)
    }

    /// A static overlay over the given renderables, from the top.
    pub fn with_renderables(renderables: Vec<RenderItem>, title: String, keymap: PagerKeymap) -> (r: Self)
        ensures
            r.view == (PagerView {
                renderables: r.view.renderables,
                title: r.view.title,
                ..r.view
            }),
            r.view.renderables@ == renderables@,
            r.view.title@ == title@,
            r.view.scroll_offset == 0,
            r.view.keymap == keymap,
            r.view.last_content_height is None,
            r.view.last_rendered_height is None,
            r.view.pending_scroll_chunk is None,
            !r.view.workspace_header,
            !r.is_done,
    {
        StaticOverlay { view: PagerView::new(renderables, title, 0, keymap), is_done: false }
    }

    /// A static overlay with one block per renderable, `n` of them.
    pub fn with_block_count(n: usize, title: String, keymap: PagerKeymap) -> (r: Self)
        ensures
            r.view.renderables@ == blocks_spec(n as nat),
            r.view.title@ == title@,
            r.view.scroll_offset == 0,
            r.view.keymap == keymap,
            !r.is_done,
    {
        let mut renderables: Vec<RenderItem> = Vec::new();
        let mut i: usize = 0;
        while i < n
            invariant
                0 <= i <= n,
                renderables@ == blocks_spec(i as nat),
            decreases n - i,
        {
            renderables.push(RenderItem::Block { index: i });
            i += 1;
            assert(renderables@ =~= blocks_spec(i as nat));
        }
        Self::with_renderables(renderables, title, keymap)
    }

    /// The state changes of drawing the overlay into `area`.
    pub fn render(&mut self, area: Rect, heights: &Vec<usize>) -> (r: OverlayAreas)
        requires
            area.y + sat_sub_u16(area.height, 3) <= u16::MAX,
            heights@.len() == old(self).view.renderables@.len(),
            sum_heights(heights@) <= usize::MAX,
        ensures
            r == overlay_areas_spec(area),
            *final(self) == (StaticOverlay { view: render_spec(old(self).view, r.pager, heights@), ..*old(self) }),
    {
        let areas = overlay_areas(area);
        self.view.render(areas.pager, heights);
        areas
    }

    /// Handles an event: the close keys close the overlay, other keys navigate, and redraw events
    /// ask for a frame.
    pub fn handle_event(&mut self, event: TuiEvent, viewport_area: Rect) -> (r: OverlayAction)
        ensures
            match event {
                TuiEvent::Key(key) => if is_pressed_spec(old(self).view.keymap.close@, key) {
                    r == OverlayAction::Nothing && *final(self) == (StaticOverlay { is_done: true, ..*old(self) })
                } else {
                    let (view, moved) = key_handled_spec(old(self).view, key, viewport_area);
                    &&& *final(self) == (StaticOverlay { view, ..*old(self) })
                    &&& r == if moved {
                        OverlayAction::ScheduleFrame
                    } else {
                        OverlayAction::Nothing
                    }
                },
                _ => *final(self) == *old(self) && r == if is_redraw_event(event) {
                    OverlayAction::Draw
                } else {
                    OverlayAction::Nothing
                },
            },
    {
        match event {
            TuiEvent::Key(key) => {
                if is_pressed(&self.view.keymap.close, key) {
                    self.is_done = true;
                    OverlayAction::Nothing
                } else if self.view.handle_key_event(key, viewport_area) {
                    OverlayAction::ScheduleFrame
                } else {
                    OverlayAction::Nothing
                }
            },
            _ => if is_redraw(event) {
                OverlayAction::Draw
            } else {
                OverlayAction::Nothing
            },
        }
    }

    pub fn is_done(&self) -> (r: bool)
        ensures
            r == self.is_done,
    {
        self.is_done
    }
}

/// The overlay the application shows above the chat.
#[derive(Debug)]
pub enum Overlay {
    Transcript(TranscriptOverlay),
    Static(StaticOverlay),
}

impl Overlay {
    pub open spec fn wf(&self) -> bool {
        match self {
            Overlay::Transcript(o) => o.wf(),
            Overlay::Static(_) => true,
        }
    }

    pub open spec fn is_done_spec(&self) -> bool {
        match self {
            Overlay::Transcript(o) => o.is_done,
            Overlay::Static(o) => o.is_done,
        }
    }

    /// The read-only transcript viewer.
    pub fn new_transcript(cells: Vec<TranscriptCell>, keymap: PagerKeymap) -> (r: Self)
        ensures
            r.wf(),
            r matches Overlay::Transcript(o) && o.cells@ == cells@ && !o.is_workspace_spec() && o.view.keymap
                == keymap,
            !r.is_done_spec(),
    {
        Overlay::Transcript(TranscriptOverlay::new(cells, keymap))
    }

    /// The interactive transcript workspace.
    pub fn new_transcript_workspace(cells: Vec<TranscriptCell>, keymap: PagerKeymap) -> (r: Self)
        ensures
            r.wf(),
            r matches Overlay::Transcript(o) && o.cells@ == cells@ && o.is_workspace_spec(),
            !r.is_done_spec(),
    {
        Overlay::Transcript(TranscriptOverlay::new_workspace(cells, keymap))
    }

    /// A static overlay over one block of wrapped lines.
    pub fn new_static_with_lines(title: String, keymap: PagerKeymap) -> (r: Self)
        ensures
            r.wf(),
            r matches Overlay::Static(o) && o.view.renderables@ == seq![RenderItem::Block { index: 0 }]
                && o.view.title@ == title@ && o.view.scroll_offset == 0,
            !r.is_done_spec(),
    {
        Overlay::Static(StaticOverlay::with_title(title, keymap))
    }

    /// A static overlay over the given renderables.
    pub fn new_static_with_renderables(renderables: Vec<RenderItem>, title: String, keymap: PagerKeymap) -> (r:
        Self)
        ensures
            r.wf(),
            r matches Overlay::Static(o) && o.view.renderables@ == renderables@ && o.view.title@ == title@
                && o.view.scroll_offset == 0,
            !r.is_done_spec(),
    {
        Overlay::Static(StaticOverlay::with_renderables(renderables, title, keymap))
    }

    /// Passes an event to the overlay shown.
    pub fn handle_event(&mut self, event: TuiEvent, viewport_area: Rect) -> (r: OverlayAction)
        requires
            old(self).wf(),
        ensures
            final(self).wf(),
            match (*old(self), *final(self)) {
                (Overlay::Transcript(before), Overlay::Transcript(after)) => match event {
                    TuiEvent::Key(key) => if is_pressed_spec(before.view.keymap.close@, key) || is_pressed_spec(
                        before.view.keymap.close_transcript@,
                        key,
                    ) {
                        r == OverlayAction::Nothing && after == (TranscriptOverlay { is_done: true, ..before })
                    } else {
                        let (next, moved) = navigated(before, key, viewport_area);
                        after == next && r == if moved {
                            OverlayAction::ScheduleFrame
                        } else {
                            OverlayAction::Nothing
                        }
                    },
                    _ => after == before && r == if is_redraw_event(event) {
                        OverlayAction::Draw
                    } else {
                        OverlayAction::Nothing
                    },
                },
                (Overlay::Static(before), Overlay::Static(after)) => match event {
                    TuiEvent::Key(key) => if is_pressed_spec(before.view.keymap.close@, key) {
                        r == OverlayAction::Nothing && after == (StaticOverlay { is_done: true, ..before })
                    } else {
                        let (view, moved) = key_handled_spec(before.view, key, viewport_area);
                        after == (StaticOverlay { view, ..before }) && r == if moved {
                            OverlayAction::ScheduleFrame
                        } else {
                            OverlayAction::Nothing
                        }
                    },
                    _ => after == before && r == if is_redraw_event(event) {
                        OverlayAction::Draw
                    } else {
                        OverlayAction::Nothing
                    },
                },
                _ => false,
            },
    {
        match self {
            Overlay::Transcript(o) => o.handle_event(event, viewport_area),
            Overlay::Static(o) => o.handle_event(event, viewport_area),
        }
    }

    pub fn is_done(&self) -> (r: bool)
        ensures
            r == self.is_done_spec(),
    {
        match self {
            Overlay::Transcript(o) => o.is_done(),
            Overlay::Static(o) => o.is_done(),
        }
    }
}

/// A height cache for a renderable whose height depends only on the width.
#[derive(Clone, Copy, Debug, PartialEq, Eq, Structural)]
pub struct CachedRenderable {
    pub height: Option<u16>,
    pub last_width: Option<u16>,
}

/// The cached height at `width`, if the cache holds one for that width.
pub open spec fn cached_height_spec(c: CachedRenderable, width: u16) -> Option<u16> {
    if c.last_width == Some(width) {
        Some(
            match c.height {
                Some(h) => h,
                None => 0,
            },
        )
    } else {
        None
    }
}

/// The cache and the height answered after a query at `width`, where `measured` is what the
/// renderable measures there if it is asked.
pub open spec fn queried_spec(c: CachedRenderable, width: u16, measured: u16) -> (CachedRenderable, u16) {
    match cached_height_spec(c, width) {
        Some(h) => (c, h),
        None => (CachedRenderable { height: Some(measured), last_width: Some(width) }, measured),
    }
}

impl CachedRenderable {
    /// An empty cache.
    pub fn new() -> (r: Self)
        ensures
            r.height is None,
            r.last_width is None,
    {
        CachedRenderable { height: None, last_width: None }
    }

    /// The renderable's height at `width`: the cached one when the width is unchanged, else the
    /// one `measure` returns, which is then cached.
    pub fn desired_height<F: FnOnce(u16) -> u16>(&mut self, width: u16, measure: F) -> (r: u16)
        requires
            old(self).last_width != Some(width) ==> call_requires(measure, (width,)),
        ensures
            (*final(self), r) == queried_spec(*old(self), width, r),
            cached_height_spec(*old(self), width) is None ==> call_ensures(measure, (width,), r),
    {
        if self.last_width != Some(width) {
            let height = measure(width);
            self.height = Some(height);
            self.last_width = Some(width);
        }
        match self.height {
            Some(h) => h,
            None => 0,
        }
    }
}

/// A height is measured at most once per width: after a query at `width`, the next query at the
/// same width answers the same height from the cache, whatever the renderable would measure.
pub proof fn law_cached_height_is_reused(c: CachedRenderable, width: u16, first: u16, second: u16)
    ensures
        ({
            let (c1, h1) = queried_spec(c, width, first);
            let (c2, h2) = queried_spec(c1, width, second);
            h2 == h1 && c2 == c1
        }),
{
}

} // verus!
