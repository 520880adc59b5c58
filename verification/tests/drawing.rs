use transcript_workspace::cell::TranscriptCell;
use transcript_workspace::drawing::{
    cell_presentation, navigation_hints, reserved_content_area, CellPresentation, Placement, PromptStyle,
};
use transcript_workspace::geometry::Rect;
use transcript_workspace::keys::{KeyCode, KeyEvent, KeyModifiers, PagerKeymap};
use transcript_workspace::overlay::TranscriptOverlay;
use transcript_workspace::overlay_types::{RenderItem, TranscriptHistoryState};
use transcript_workspace::overlays::StaticOverlay;
use transcript_workspace::pager::PagerView;

fn view(count: usize, scroll_offset: usize) -> PagerView {
    PagerView::new((0..count).map(|index| RenderItem::Block { index }).collect(), "T".to_string(), scroll_offset, PagerKeymap::defaults())
}

#[test]
fn content_plan_draws_visible_renderables_from_the_scroll_offset() {
    // Content rows 1..7 of a pager; renderables of 2, 3 and 3 rows, scrolled by 3 rows.
    let area = Rect::new(0, 1, 20, 6);
    let plan = view(3, 3).content_plan(area, &vec![2, 3, 3]);

    assert_eq!(
        plan.placements,
        vec![
            Placement { index: 1, area: Rect::new(0, 1, 20, 2), scroll: Some(1) },
            Placement { index: 2, area: Rect::new(0, 3, 20, 3), scroll: None },
        ]
    );
    assert_eq!(plan.filler_from, 6);
}

#[test]
fn content_plan_fills_rows_below_short_content() {
    let area = Rect::new(0, 1, 20, 6);
    let plan = view(1, 0).content_plan(area, &vec![2]);

    assert_eq!(plan.placements, vec![Placement { index: 0, area: Rect::new(0, 1, 20, 2), scroll: None }]);
    assert_eq!(plan.filler_from, 3);
}

#[test]
fn navigation_hints_show_each_actions_primary_key() {
    let hints = navigation_hints(&PagerKeymap::defaults());

    let descriptions: Vec<&str> = hints.iter().map(|g| g.description).collect();
    assert_eq!(descriptions, vec!["to scroll", "to page", "to jump"]);
    assert_eq!(hints[0].keys, vec![KeyEvent::plain(KeyCode::Up), KeyEvent::plain(KeyCode::Down)]);
    assert_eq!(hints[2].keys, vec![KeyEvent::plain(KeyCode::Home), KeyEvent::plain(KeyCode::End)]);
}

#[test]
fn edit_prev_hint_is_visible() {
    let overlay = TranscriptOverlay::new(vec![TranscriptCell::plain()], PagerKeymap::defaults());

    let hints = overlay.hint_groups();

    assert!(hints.iter().any(|g| g.description == "to edit prev"));
    assert_eq!(hints[0].description, "close");
    assert_eq!(hints[0].keys, vec![KeyEvent::plain(KeyCode::Char('q'))]);
}

#[test]
fn edit_next_hint_is_visible_when_highlighted() {
    let mut overlay = TranscriptOverlay::new(vec![TranscriptCell::plain()], PagerKeymap::defaults());
    overlay.set_highlight_cell(Some(0));

    let hints = overlay.hint_groups();

    assert!(hints.iter().any(|g| g.description == "to edit next"));
    assert!(hints.iter().any(|g| g.description == "to edit message"));
}

#[test]
fn static_overlay_hints_only_close() {
    let overlay = StaticOverlay::with_title("S T A T I C".to_string(), PagerKeymap::defaults());

    let hints = overlay.hint_groups();

    assert_eq!(hints.len(), 1);
    assert_eq!(hints[0].description, "close");
    assert_eq!(
        hints[0].keys,
        vec![KeyEvent::new(KeyCode::Char('q'), KeyModifiers::none())]
    );
}

#[test]
fn history_status_labels_are_right_aligned() {
    let mut overlay = TranscriptOverlay::new(vec![TranscriptCell::plain()], PagerKeymap::defaults());
    let area = Rect::new(0, 0, 72, 7);
    assert_eq!(overlay.history_status(area), None);

    for (state, label) in [
        (TranscriptHistoryState::LoadingOlder, " loading older history... "),
        (TranscriptHistoryState::Partial, " partial history | PgUp for earlier "),
        (TranscriptHistoryState::Failed, " history unavailable | PgUp to retry "),
        (TranscriptHistoryState::Complete, " start of history "),
    ] {
        overlay.set_history_state(state);
        let width = label.chars().count() as u16;
        assert_eq!(overlay.history_status(area), Some((label, Rect::new(72 - width, 0, width, 1))));
    }

    assert_eq!(overlay.history_status(Rect::new(0, 0, 72, 0)), None);
    let (_, narrow) = overlay.history_status(Rect::new(4, 2, 10, 3)).expect("label");
    assert_eq!(narrow, Rect::new(4, 2, 10, 1));
}

#[test]
fn the_workspace_target_gets_the_target_marker() {
    let item = |index: usize, highlighted: bool, workspace: bool| RenderItem::Cell {
        index,
        highlighted,
        workspace,
        inset: false,
        reserved_rows: 0,
        cached: true,
    };

    assert_eq!(
        cell_presentation(item(2, false, true), true, Some(2)),
        Some(CellPresentation { mark_target: true, style: PromptStyle::UserReversed })
    );
    assert_eq!(
        cell_presentation(item(0, false, true), true, Some(2)),
        Some(CellPresentation { mark_target: false, style: PromptStyle::UserReversed })
    );
    assert_eq!(
        cell_presentation(item(0, false, false), true, None),
        Some(CellPresentation { mark_target: false, style: PromptStyle::UserMessage })
    );
    assert_eq!(
        cell_presentation(item(0, true, false), false, None),
        Some(CellPresentation { mark_target: false, style: PromptStyle::Default })
    );
    assert_eq!(cell_presentation(RenderItem::HiddenSummary { hidden_cells: 1 }, false, None), None);
}

#[test]
fn reserved_image_rows_stay_blank() {
    let area = Rect::new(0, 4, 30, 12);

    assert_eq!(reserved_content_area(area, 3, 0), Some(Rect::new(0, 4, 30, 3)));
    assert_eq!(reserved_content_area(area, 3, 2), Some(Rect::new(0, 4, 30, 1)));
    assert_eq!(reserved_content_area(area, 3, 3), None);
    assert_eq!(reserved_content_area(Rect::new(0, 0, 30, 2), 20, 0), Some(Rect::new(0, 0, 30, 2)));
}

fn titled(title: &str, workspace: bool) -> PagerView {
    let mut v = PagerView::new(Vec::new(), title.to_string(), 0, PagerKeymap::defaults());
    v.workspace_header = workspace;
    v
}

#[test]
fn workspace_header_fits_or_cuts_the_title_with_an_ellipsis() {
    let fits = titled("T R A N S C R I P T", true).header(24, &vec![1; 19]);
    assert_eq!(fits.rule, "─".repeat(24));
    assert_eq!(fits.title.as_deref(), Some(" T R A N S C R I P T "));

    let cut = titled("Transcript", true).header(8, &vec![1; 10]);
    assert_eq!(cut.title.as_deref(), Some(" Trans… "));

    let wide = titled("日本語", true).header(6, &vec![2, 2, 2]);
    assert_eq!(wide.title.as_deref(), Some(" 日… "));

    let none = titled("Transcript", true).header(2, &vec![1; 10]);
    assert_eq!(none.rule, "──");
    assert!(none.title.is_none());
}

#[test]
fn legacy_header_is_a_slashed_rule_with_the_title() {
    let header = titled("T R A N S C R I P T", false).header(7, &vec![1; 19]);
    assert_eq!(header.rule, "/ / / ");
    assert_eq!(header.title.as_deref(), Some("/ T R A N S C R I P T"));
}
