use transcript_workspace::cell::TranscriptCell;
use transcript_workspace::events::{OverlayAction, TuiEvent};
use transcript_workspace::geometry::Rect;
use transcript_workspace::keys::{KeyCode, KeyEvent, KeyModifiers, PagerKeymap};
use transcript_workspace::overlay::{ActiveCellTranscriptKey, TranscriptOverlay};
use transcript_workspace::overlay_types::RenderItem;
use transcript_workspace::overlays::{CachedRenderable, Overlay, StaticOverlay};
use transcript_workspace::pager::PagerView;

fn plain_cells(n: usize) -> Vec<TranscriptCell> {
    (0..n).map(|_| TranscriptCell::plain()).collect()
}

fn pager_view(block_heights: &[usize], scroll_offset: usize) -> PagerView {
    let renderables = (0..block_heights.len()).map(|index| RenderItem::Block { index }).collect();
    PagerView::new(renderables, "T".to_string(), scroll_offset, PagerKeymap::defaults())
}

/// Heights of the overlay's renderables when every cell is one line tall.
fn one_line_heights(overlay: &TranscriptOverlay) -> Vec<usize> {
    overlay.renderable_heights(&vec![1u16; overlay.cells.len()], 0)
}

#[test]
fn jump_top_requests_older_history_from_the_bottom() {
    let overlay = TranscriptOverlay::new(plain_cells(1), PagerKeymap::defaults());
    let home = KeyEvent::new(KeyCode::Home, KeyModifiers::none());

    assert!(overlay.should_load_older(home));
    assert!(overlay.should_load_from_start(home));
    assert!(!overlay.should_load_from_start(KeyEvent::new(KeyCode::PageUp, KeyModifiers::none())));
}

#[test]
fn transcript_overlay_consolidation_remaps_highlight_inside_range() {
    let mut overlay = TranscriptOverlay::new(plain_cells(6), PagerKeymap::defaults());
    overlay.set_highlight_cell(Some(3));

    overlay.consolidate_cells(2..5, TranscriptCell::plain());

    assert_eq!(overlay.highlight_cell, Some(2), "highlight inside consolidated range should point to replacement cell");
}

#[test]
fn transcript_overlay_consolidation_remaps_highlight_after_range() {
    let mut overlay = TranscriptOverlay::new(plain_cells(7), PagerKeymap::defaults());
    overlay.set_highlight_cell(Some(6));

    overlay.consolidate_cells(2..5, TranscriptCell::plain());

    assert_eq!(overlay.highlight_cell, Some(4), "highlight after consolidated range should shift left by removed cells");
}

#[test]
fn transcript_overlay_sync_live_tail_is_noop_for_identical_key() {
    let mut overlay = TranscriptOverlay::new(plain_cells(1), PagerKeymap::defaults());
    let calls = std::cell::Cell::new(0usize);
    let key = ActiveCellTranscriptKey { revision: 1, is_stream_continuation: false, animation_tick: None };

    overlay.sync_live_tail(40, Some(key), |_| {
        calls.set(calls.get() + 1);
        1
    });
    overlay.sync_live_tail(40, Some(key), |_| {
        calls.set(calls.get() + 1);
        1
    });

    assert_eq!(calls.get(), 1);
    assert_eq!(overlay.view.renderables.last(), Some(&RenderItem::LiveTail { insets: 1 }));
}

#[test]
fn transcript_overlay_keeps_scroll_pinned_at_bottom() {
    let mut overlay = TranscriptOverlay::new(plain_cells(20), PagerKeymap::defaults());
    let heights = one_line_heights(&overlay);
    overlay.render(Rect::new(0, 0, 40, 12), &heights);
    assert!(overlay.view.is_scrolled_to_bottom(), "expected initial render to leave view at bottom");

    for height in [9, 14] {
        overlay.render(Rect::new(0, 0, 40, height), &heights);
        assert!(overlay.is_scrolled_to_bottom());
    }

    overlay.insert_cell(TranscriptCell::plain());

    assert_eq!(overlay.view.scroll_offset, usize::MAX);
}

#[test]
fn transcript_overlay_preserves_manual_scroll_position() {
    let mut overlay = TranscriptOverlay::new(plain_cells(20), PagerKeymap::defaults());
    let heights = one_line_heights(&overlay);
    overlay.render(Rect::new(0, 0, 40, 12), &heights);

    overlay.view.scroll_offset = 0;
    overlay.insert_cell(TranscriptCell::plain());
    assert_eq!(overlay.view.scroll_offset, 0);

    overlay.view.scroll_offset = 3;
    let heights = one_line_heights(&overlay);
    overlay.render(Rect::new(0, 0, 40, 12), &heights);
    let before_offset = overlay.view.scroll_offset;

    // One older cell of forty lines goes first; every later cell gets a separator row.
    let mut after = vec![40u16];
    after.extend(vec![1u16; 21]);
    let inserted_at = overlay.prepend(vec![TranscriptCell::plain()], &vec![1u16; 21], &after, 0);

    assert_eq!(inserted_at, 0);
    // The forty older lines, plus the separator row the formerly first cell now has.
    assert_eq!(overlay.view.scroll_offset, before_offset + 41);
}

/// The line numbers the pager shows: line `k` of a one-line-per-cell transcript is drawn at
/// row `2k`, below the separator row of cell `k`.
fn transcript_line_numbers(overlay: &mut TranscriptOverlay, area: Rect, lines: usize) -> Vec<usize> {
    let heights = one_line_heights(overlay);
    let areas = overlay.render(area, &heights);
    let content = overlay.view.content_area(areas.pager);
    let top = overlay.view.scroll_offset;
    let bottom = top + content.height as usize;
    (0..lines)
        .filter(|k| {
            let row = if *k == 0 { 0 } else { 2 * k };
            row >= top && row < bottom
        })
        .collect()
}

#[test]
fn transcript_overlay_paging_is_continuous_and_round_trips() {
    let mut overlay = TranscriptOverlay::new(plain_cells(50), PagerKeymap::defaults());
    let area = Rect::new(0, 0, 40, 15);
    overlay.view.scroll_offset = 0;
    let heights = one_line_heights(&overlay);
    overlay.render(area, &heights);
    let page_height = overlay.view.page_height(area);

    overlay.view.scroll_offset = 0;
    let page1 = transcript_line_numbers(&mut overlay, area, 50);
    let page1_len = page1.len();
    let expected_page1: Vec<usize> = (0..page1_len).collect();
    assert_eq!(page1, expected_page1, "first page should start at line-00 and show a full page of content");

    let page_down = KeyEvent::plain(KeyCode::PageDown);
    let page_up = KeyEvent::plain(KeyCode::PageUp);
    overlay.view.handle_key_event(page_down, area);
    let page2 = transcript_line_numbers(&mut overlay, area, 50);
    assert_eq!(page2.len(), page1_len, "second page should have the same number of visible lines as the first page");
    assert_eq!(page2[0], *page1.last().unwrap() + 1, "second page after PageDown should immediately follow the first page");

    let interior_offset = 3usize;
    overlay.view.scroll_offset = interior_offset;
    let before = transcript_line_numbers(&mut overlay, area, 50);
    overlay.view.handle_key_event(page_down, area);
    let _ = transcript_line_numbers(&mut overlay, area, 50);
    overlay.view.handle_key_event(page_up, area);
    let after = transcript_line_numbers(&mut overlay, area, 50);
    assert_eq!(before, after, "PageDown+PageUp from interior offset ({interior_offset}) should round-trip");

    overlay.view.scroll_offset = page_height;
    let before2 = transcript_line_numbers(&mut overlay, area, 50);
    overlay.view.handle_key_event(page_up, area);
    let _ = transcript_line_numbers(&mut overlay, area, 50);
    overlay.view.handle_key_event(page_down, area);
    let after2 = transcript_line_numbers(&mut overlay, area, 50);
    assert_eq!(before2, after2, "PageUp+PageDown from the top of the second page should round-trip");
}

#[test]
fn pager_view_content_height_counts_renderables() {
    let pv = pager_view(&[2, 3], 0);

    assert_eq!(pv.content_height(&vec![2, 3]), 5);
}

#[test]
fn pager_view_ensure_chunk_visible_scrolls_down_when_needed() {
    let heights = vec![1usize, 3, 3];
    let mut pv = pager_view(&heights, 0);
    let area = Rect::new(0, 0, 20, 8);

    pv.scroll_offset = 0;
    let content_area = pv.content_area(area);
    pv.ensure_chunk_visible(2, content_area, &heights);
    pv.render(area, &heights);

    // Chunk `c` spans rows 4..7; the six content rows must show all of them.
    let content_rows = pv.content_area(area).height as usize;
    assert!(pv.scroll_offset <= 4, "expected chunk top in view");
    assert!(pv.scroll_offset + content_rows >= 7, "expected chunk bottom in view");
}

#[test]
fn pager_view_ensure_chunk_visible_scrolls_up_when_needed() {
    let heights = vec![2usize, 3, 3];
    let mut pv = pager_view(&heights, 0);
    let area = Rect::new(0, 0, 20, 3);

    pv.scroll_offset = 6;
    pv.ensure_chunk_visible(0, area, &heights);

    assert_eq!(pv.scroll_offset, 0);
}

#[test]
fn pager_view_is_scrolled_to_bottom_accounts_for_wrapped_height() {
    let heights = vec![10usize];
    let mut pv = pager_view(&heights, 0);
    let area = Rect::new(0, 0, 20, 8);

    pv.render(area, &heights);
    assert!(!pv.is_scrolled_to_bottom(), "expected view to report not at bottom when offset < max");

    pv.scroll_offset = usize::MAX;
    pv.render(area, &heights);
    assert!(pv.is_scrolled_to_bottom(), "expected view to report at bottom after scrolling to end");
}

#[test]
fn transcript_overlay_insert_preserves_cached_cell_heights() {
    let mut cache = CachedRenderable::new();
    let measurements = std::cell::Cell::new(0usize);

    let first = cache.desired_height(40, |_| {
        measurements.set(measurements.get() + 1);
        7
    });
    let second = cache.desired_height(40, |_| {
        measurements.set(measurements.get() + 1);
        9
    });

    assert_eq!((first, second), (7, 7));
    assert_eq!(measurements.get(), 1);
    assert_eq!(cache.desired_height(20, |_| 4), 4);
}

#[test]
fn transcript_overlay_history_rebuild_preserves_only_the_live_tail() {
    for replace in [false, true] {
        for tail_lines in [None, Some(0usize), Some(1usize)] {
            let mut overlay = TranscriptOverlay::new(plain_cells(2), PagerKeymap::defaults());
            let key = tail_lines.map(|_| ActiveCellTranscriptKey {
                revision: 1,
                is_stream_continuation: false,
                animation_tick: None,
            });
            let lines = tail_lines.unwrap_or(0);
            overlay.sync_live_tail(40, key, |_| lines);
            if replace {
                overlay.replace_cells(vec![TranscriptCell::plain()]);
            } else {
                overlay.consolidate_cells(0..2, TranscriptCell::plain());
            }
            overlay.sync_live_tail(40, key, |_| lines);
            let mut reopened = TranscriptOverlay::new(overlay.cells.clone(), PagerKeymap::defaults());
            reopened.sync_live_tail(40, key, |_| lines);

            assert_eq!(overlay.view.renderables, reopened.view.renderables);
            assert_eq!(overlay.live_tail_present, reopened.live_tail_present);
        }
    }
}

#[test]
fn static_overlay_closes_on_q_and_scrolls_on_keys() {
    let mut overlay = StaticOverlay::with_block_count(3, "S T A T I C".to_string(), PagerKeymap::defaults());
    let viewport = Rect::new(0, 0, 40, 10);

    assert_eq!(overlay.handle_event(TuiEvent::Key(KeyEvent::plain(KeyCode::Down)), viewport), OverlayAction::ScheduleFrame);
    assert_eq!(overlay.view.scroll_offset, 1);
    assert_eq!(overlay.handle_event(TuiEvent::Draw, viewport), OverlayAction::Draw);
    assert_eq!(overlay.handle_event(TuiEvent::Key(KeyEvent::plain(KeyCode::Char('q'))), viewport), OverlayAction::Nothing);
    assert!(overlay.is_done());
}

#[test]
fn transcript_overlay_closes_on_ctrl_t() {
    let mut overlay = Overlay::new_transcript(plain_cells(3), PagerKeymap::defaults());
    let viewport = Rect::new(0, 0, 40, 10);
    let ctrl_t = KeyEvent::new(KeyCode::Char('t'), KeyModifiers::control());

    assert_eq!(overlay.handle_event(TuiEvent::Paste, viewport), OverlayAction::Nothing);
    assert!(!overlay.is_done());
    assert_eq!(overlay.handle_event(TuiEvent::Key(ctrl_t), viewport), OverlayAction::Nothing);
    assert!(overlay.is_done());
}

#[test]
fn overlay_render_follows_the_tail_after_a_resize() {
    let mut overlay = TranscriptOverlay::new(plain_cells(20), PagerKeymap::defaults());
    let heights = one_line_heights(&overlay);
    let areas = overlay.render(Rect::new(0, 0, 40, 12), &heights);

    assert_eq!(areas.pager, Rect::new(0, 0, 40, 9));
    assert_eq!(areas.hints, Rect::new(0, 9, 40, 3));
    // Thirty-nine rows of content in seven content rows.
    assert_eq!(overlay.view.scroll_offset, 32);
    overlay.render(Rect::new(0, 0, 40, 14), &heights);
    assert_eq!(overlay.view.scroll_offset, 30);
}

#[test]
fn transcript_overlay_preserves_live_tail_when_prepending_history() {
    let mut overlay = TranscriptOverlay::new(plain_cells(1), PagerKeymap::defaults());
    let key = ActiveCellTranscriptKey { revision: 1, is_stream_continuation: false, animation_tick: None };
    overlay.sync_live_tail(40, Some(key), |_| 1);

    overlay.prepend(vec![TranscriptCell::plain()], &vec![1u16], &vec![1u16, 1], 1);

    assert_eq!(overlay.cells.len(), 2);
    let cells_drawn =
        overlay.view.renderables.iter().filter(|item| matches!(item, RenderItem::Cell { .. })).count();
    assert_eq!(cells_drawn, 2, "the older and the recent cell are both drawn");
    assert!(matches!(overlay.view.renderables.last(), Some(RenderItem::LiveTail { .. })), "the live tail stays last");
}
