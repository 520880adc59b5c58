use transcript_workspace::cell::TranscriptCell;
use transcript_workspace::geometry::{transcript_workspace_layout, Rect};
use transcript_workspace::keys::PagerKeymap;
use transcript_workspace::overlay::TranscriptOverlay;
use transcript_workspace::turns::TranscriptTurnState;

fn cells(kinds: &str) -> Vec<TranscriptCell> {
    kinds
        .chars()
        .map(|k| if k == 'u' { TranscriptCell::user(Vec::new()) } else { TranscriptCell::plain() })
        .collect()
}

#[test]
fn selecting_the_previous_then_the_next_turn_returns_to_the_same_turn() {
    let cells = cells("uxuxxux");
    let mut turns = TranscriptTurnState::new(&cells);
    assert_eq!(turns.selected_turn_start(), Some(5));

    assert!(turns.select_previous());
    assert_eq!(turns.selected_turn_start(), Some(2));
    assert!(turns.select_next());
    assert_eq!(turns.selected_turn_start(), Some(5));
    assert!(!turns.select_next());
    assert_eq!(turns.selected_turn_start(), Some(5));
}

#[test]
fn collapsing_hides_only_the_turn_body_and_expanding_shows_it_again() {
    let cells = cells("uxxuxu");
    let mut turns = TranscriptTurnState::new(&cells);
    assert!(turns.select_previous());
    assert!(turns.select_previous());
    assert_eq!(turns.selected_turn_start(), Some(0));

    assert!(turns.collapse_selected(&cells));
    let hidden: Vec<bool> = (0..cells.len()).map(|c| turns.is_cell_hidden(c)).collect();
    assert_eq!(hidden, vec![false, true, true, false, false, false]);
    assert!(!turns.collapse_selected(&cells));

    assert!(turns.expand_selected());
    assert!((0..cells.len()).all(|c| !turns.is_cell_hidden(c)));
    assert!(!turns.expand_selected());
}

#[test]
fn a_turn_without_a_body_does_not_collapse() {
    let cells = cells("uu");
    let mut turns = TranscriptTurnState::new(&cells);

    assert!(!turns.collapse_selected(&cells));
    assert!(!turns.is_collapsed(1));
}

#[test]
fn prepending_history_keeps_the_folded_and_selected_turn() {
    let mut overlay = TranscriptOverlay::new_workspace(cells("uxux"), PagerKeymap::defaults());
    assert!(overlay.workspace_turns.select_previous());
    assert!(overlay.workspace_turns.collapse_selected(&overlay.cells));

    let before = vec![1u16; 4];
    let after = vec![1u16; 5];
    let inserted_at = overlay.prepend(vec![TranscriptCell::plain()], &before, &after, 0);

    assert_eq!(inserted_at, 0);
    assert!(overlay.workspace_turns.is_collapsed(1));
    assert!(overlay.workspace_turns.is_cell_hidden(2));
    assert!(!overlay.workspace_turns.is_cell_hidden(3));
    assert_eq!(overlay.workspace_turns.selected_turn_start(), Some(1));
}

#[test]
fn prepended_history_goes_after_the_session_header() {
    let mut overlay = TranscriptOverlay::new_workspace(
        vec![TranscriptCell::session_info(), TranscriptCell::user(Vec::new())],
        PagerKeymap::defaults(),
    );

    let inserted_at = overlay.prepend(vec![TranscriptCell::plain(), TranscriptCell::plain()], &vec![1, 1], &vec![1; 4], 0);

    assert_eq!(inserted_at, 1);
    assert!(overlay.cells[0].is_session_info());
    assert_eq!(overlay.workspace_turns.selected_turn_start(), Some(3));
}

#[test]
fn the_workspace_layout_partitions_the_area() {
    for (area, composer) in [(Rect::new(3, 5, 80, 24), 5u16), (Rect::new(0, 0, 40, 3), 9), (Rect::new(1, 2, 10, 7), 0)] {
        let layout = transcript_workspace_layout(area, composer);

        assert_eq!(layout.transcript.y, area.y);
        assert_eq!(layout.composer.y, area.y + layout.transcript.height);
        assert_eq!(layout.transcript.height + layout.composer.height, area.height);
        assert_eq!(layout.composer.height, composer.min(area.height));
        assert_eq!((layout.transcript.width, layout.composer.width), (area.width, area.width));
    }
}
