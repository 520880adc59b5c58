use transcript_workspace::cell::TranscriptCell;
use transcript_workspace::geometry::{Rect, TranscriptWorkspaceLayout};
use transcript_workspace::keys::{KeyCode, KeyEvent, KeyModifiers, MouseEventKind, PagerKeymap};
use transcript_workspace::lines::{mark_workspace_target, TextLine};
use transcript_workspace::overlay::TranscriptOverlay;
use transcript_workspace::overlay_types::RenderItem;
use transcript_workspace::turns::TranscriptTurnState;

/// Rows a one-line user prompt takes in the workspace, with its padding.
const USER_ROWS: u16 = 3;
/// Rows a one-line reply takes.
const REPLY_ROWS: u16 = 1;

fn user() -> TranscriptCell {
    TranscriptCell::user(Vec::new())
}

fn reply() -> TranscriptCell {
    TranscriptCell::plain()
}

fn heights_of(cells: &[TranscriptCell]) -> Vec<u16> {
    cells
        .iter()
        .map(|cell| if cell.is_user() { USER_ROWS } else { REPLY_ROWS })
        .collect()
}

fn two_turns() -> Vec<TranscriptCell> {
    vec![user(), reply(), user(), reply()]
}

fn alt(code: KeyCode) -> KeyEvent {
    KeyEvent::new(code, KeyModifiers::alt())
}

#[test]
fn workspace_layout_keeps_the_composer_at_the_terminal_bottom() {
    let layout = TranscriptWorkspaceLayout::new(Rect::new(3, 5, 80, 24), 5);

    assert_eq!(layout.transcript, Rect::new(3, 5, 80, 19));
    assert_eq!(layout.composer, Rect::new(3, 24, 80, 5));
}

#[test]
fn workspace_layout_clamps_a_tall_composer_to_the_available_area() {
    let layout = TranscriptWorkspaceLayout::new(Rect::new(0, 0, 40, 3), 9);

    assert_eq!(layout.transcript, Rect::new(0, 0, 40, 0));
    assert_eq!(layout.composer, Rect::new(0, 0, 40, 3));
}

#[test]
fn workspace_keeps_ctrl_c_available_to_the_existing_composer() {
    let mut overlay = TranscriptOverlay::new_workspace(Vec::new(), PagerKeymap::defaults());

    let outcome = overlay.handle_workspace_key(
        KeyEvent::new(KeyCode::Char('c'), KeyModifiers::control()),
        Rect::new(0, 0, 80, 24),
        &Vec::new(),
    );

    assert!(!outcome.handled);
    assert!(!overlay.is_done());
}

#[test]
fn workspace_wheel_scrolls_only_the_transcript() {
    let mut overlay = TranscriptOverlay::new_workspace(Vec::new(), PagerKeymap::defaults());
    overlay.view.scroll_offset = 6;

    assert!(overlay.handle_workspace_mouse(MouseEventKind::ScrollUp, Rect::new(0, 0, 80, 24), &Vec::new()));
    assert_eq!(overlay.view.scroll_offset, 3);

    assert!(overlay.handle_workspace_mouse(MouseEventKind::ScrollDown, Rect::new(0, 0, 80, 24), &Vec::new()));
    assert_eq!(overlay.view.scroll_offset, 6);
}

#[test]
fn workspace_requests_older_history_only_for_upward_pager_navigation() {
    let mut overlay = TranscriptOverlay::new_workspace(Vec::new(), PagerKeymap::defaults());
    overlay.view.scroll_offset = 0;
    overlay.view.last_content_height = Some(1);

    assert!(overlay.workspace_should_load_older(KeyEvent::plain(KeyCode::PageUp)));
    assert!(!overlay.workspace_should_load_older(KeyEvent::plain(KeyCode::PageDown)));
}

#[test]
fn turn_state_folds_one_user_turn_and_preserves_its_selection() {
    let cells = two_turns();
    let mut turns = TranscriptTurnState::new(&cells);

    assert_eq!(turns.selected_turn_start(), Some(2));
    assert!(turns.select_previous());
    assert_eq!(turns.selected_turn_start(), Some(0));
    assert!(turns.collapse_selected(&cells));
    assert!(turns.is_cell_hidden(1));
    assert!(!turns.is_cell_hidden(2));
    assert_eq!(turns.hidden_cell_count_after(0, &cells), 1);
    assert_eq!(turns.selected_turn_start(), Some(0));
    assert!(turns.select_next());
    assert_eq!(turns.selected_turn_start(), Some(2));
}

#[test]
fn workspace_bottom_append_selects_the_new_user_turn() {
    let mut overlay = TranscriptOverlay::new_workspace(vec![user(), reply()], PagerKeymap::defaults());
    overlay.view.scroll_offset = usize::MAX;

    overlay.insert_cell(user());

    assert_eq!(overlay.workspace_turns.selected_turn_start(), Some(2));
}

#[test]
fn workspace_bottom_append_preserves_a_manually_selected_turn() {
    let cells = vec![user(), reply(), user()];
    let heights = heights_of(&cells);
    let mut overlay = TranscriptOverlay::new_workspace(cells, PagerKeymap::defaults());
    overlay.view.scroll_offset = usize::MAX;

    overlay.handle_workspace_key(alt(KeyCode::Up), Rect::new(0, 0, 80, 10), &heights);
    overlay.insert_cell(user());

    assert_eq!(overlay.workspace_turns.selected_turn_start(), Some(0));
}

#[test]
fn workspace_scroll_restores_follow_viewport_before_a_bottom_append() {
    let cells = vec![user(), user()];
    let heights = heights_of(&cells);
    let mut overlay = TranscriptOverlay::new_workspace(cells, PagerKeymap::defaults());
    overlay.view.scroll_offset = usize::MAX;

    overlay.handle_workspace_key(alt(KeyCode::Up), Rect::new(0, 0, 80, 10), &heights);
    overlay.handle_workspace_mouse(MouseEventKind::ScrollDown, Rect::new(0, 0, 80, 10), &heights);
    overlay.insert_cell(user());

    assert_eq!(overlay.workspace_turns.selected_turn_start(), Some(2));
}

#[test]
fn workspace_scroll_targets_the_turn_above_the_bottom_bar() {
    let cells = two_turns();
    let heights = heights_of(&cells);
    let mut overlay = TranscriptOverlay::new_workspace(cells, PagerKeymap::defaults());

    overlay.view.scroll_offset = 0;
    overlay.sync_workspace_turn_to_viewport(Rect::new(0, 0, 80, 6), &heights);

    assert_eq!(overlay.workspace_turns.selected_turn_start(), Some(0));
    assert!(overlay.workspace_turns.collapse_selected(&overlay.cells));
    assert!(overlay.workspace_turns.is_collapsed(0));
    assert!(!overlay.workspace_turns.is_collapsed(2));
}

#[test]
fn workspace_page_up_targets_the_turn_in_the_transcript_area() {
    let cells = two_turns();
    let heights = heights_of(&cells);
    let mut overlay = TranscriptOverlay::new_workspace(cells, PagerKeymap::defaults());
    let layout = TranscriptWorkspaceLayout::new(Rect::new(0, 0, 80, 9), 3);
    overlay.view.scroll_offset = 1;

    overlay.handle_workspace_key(KeyEvent::plain(KeyCode::PageUp), layout.transcript, &heights);

    assert_eq!(overlay.workspace_turns.selected_turn_start(), Some(0));
}

#[test]
fn workspace_wheel_targets_the_turn_in_the_transcript_area() {
    let cells = two_turns();
    let heights = heights_of(&cells);
    let mut overlay = TranscriptOverlay::new_workspace(cells, PagerKeymap::defaults());
    let layout = TranscriptWorkspaceLayout::new(Rect::new(0, 0, 80, 9), 3);
    overlay.view.scroll_offset = 3;

    overlay.handle_workspace_mouse(MouseEventKind::ScrollUp, layout.transcript, &heights);

    assert_eq!(overlay.workspace_turns.selected_turn_start(), Some(0));
}

#[test]
fn workspace_scroll_reuses_the_width_keyed_layout_index() {
    let cells = two_turns();
    let heights = heights_of(&cells);
    let mut overlay = TranscriptOverlay::new_workspace(cells, PagerKeymap::defaults());
    let area = Rect::new(0, 0, 80, 4);
    let renderable_heights = overlay.renderable_heights(&heights, 0);
    overlay.render_workspace(area, &heights, &renderable_heights);
    assert!(overlay.workspace_layout_cached(80));

    // No heights are handed over: every synchronization must reuse the cached layout.
    for _ in 0..32 {
        overlay.sync_workspace_turn_to_viewport(area, &Vec::new());
    }

    overlay.view.scroll_offset = 0;
    overlay.sync_workspace_turn_to_viewport(area, &Vec::new());
    assert_eq!(overlay.workspace_turns.selected_turn_start(), Some(0));
    assert!(overlay.workspace_layout_cached(80));
}

#[test]
fn workspace_turn_keys_select_collapse_and_expand_a_whole_turn() {
    let cells = two_turns();
    let heights = heights_of(&cells);
    let mut overlay = TranscriptOverlay::new_workspace(cells, PagerKeymap::defaults());
    let area = Rect::new(0, 0, 72, 10);

    overlay.handle_workspace_key(alt(KeyCode::Up), area, &heights);
    assert_eq!(overlay.workspace_turns.selected_turn_start(), Some(0));

    let outcome = overlay.handle_workspace_key(alt(KeyCode::Left), area, &heights);
    assert!(outcome.handled && outcome.schedule_frame);
    assert!(overlay.workspace_turns.is_collapsed(0));
    assert!(overlay.workspace_turns.is_cell_hidden(1));
    assert!(overlay.view.renderables.contains(&RenderItem::HiddenSummary { hidden_cells: 1 }));
    assert!(!overlay
        .view
        .renderables
        .iter()
        .any(|item| matches!(item, RenderItem::Cell { index: 1, .. })));

    overlay.handle_workspace_key(alt(KeyCode::Right), area, &heights);
    assert!(!overlay.workspace_turns.is_collapsed(0));
    assert!(!overlay
        .view
        .renderables
        .iter()
        .any(|item| matches!(item, RenderItem::HiddenSummary { .. })));
}

fn prompt_line(text: &str) -> TextLine {
    TextLine { spans: vec![text.to_string()] }
}

/// The first lines of the prompts as the workspace draws them: only the target's marker changes.
fn drawn_prompts(overlay: &TranscriptOverlay) -> Vec<String> {
    let texts = ["› first prompt", "first reply", "› second prompt"];
    texts
        .iter()
        .enumerate()
        .map(|(index, text)| {
            let lines = vec![prompt_line(text)];
            let lines = if overlay.workspace_target == Some(index) { mark_workspace_target(lines) } else { lines };
            lines[0].spans[0].clone()
        })
        .collect()
}

#[test]
fn workspace_marks_the_selected_user_turn_without_changing_other_markers() {
    let cells = vec![user(), reply(), user()];
    let heights = heights_of(&cells);
    let mut overlay = TranscriptOverlay::new_workspace(cells, PagerKeymap::defaults());

    let drawn = drawn_prompts(&overlay);
    assert!(drawn.contains(&"› first prompt".to_string()));
    assert!(drawn.contains(&"▸ second prompt".to_string()));

    overlay.view.scroll_offset = 0;
    overlay.sync_workspace_turn_to_viewport(Rect::new(0, 0, 80, 5), &heights);
    let drawn = drawn_prompts(&overlay);
    assert!(drawn.contains(&"▸ first prompt".to_string()));
}

#[test]
fn workspace_places_local_input_images_in_reserved_user_rows() {
    let path = "/tmp/input-image.png".to_string();
    let cells = vec![TranscriptCell::user(vec![path.clone()])];
    let heights = heights_of(&cells);
    let mut overlay = TranscriptOverlay::new_workspace(cells, PagerKeymap::defaults());
    overlay.set_local_image_previews_enabled(true);
    overlay.view.scroll_offset = 0;

    let previews = overlay.workspace_local_image_previews(Rect::new(0, 0, 80, 30), &heights, &vec![vec![true]]);

    assert_eq!(previews.len(), 1);
    assert_eq!(previews[0].path, path);
    assert_eq!(previews[0].columns, 32);
    assert_eq!(previews[0].rows, 8);
    assert!(previews[0].y > 0);
    assert_eq!(previews[0].image_id, 0xC100_0000);
    assert_eq!(previews[0].x, 2);
}

#[test]
fn missing_local_images_are_not_placed() {
    let cells = vec![TranscriptCell::user(vec!["/tmp/gone.png".to_string()])];
    let heights = heights_of(&cells);
    let mut overlay = TranscriptOverlay::new_workspace(cells, PagerKeymap::defaults());
    overlay.set_local_image_previews_enabled(true);
    overlay.view.scroll_offset = 0;

    let previews = overlay.workspace_local_image_previews(Rect::new(0, 0, 80, 30), &heights, &vec![vec![false]]);

    assert!(previews.is_empty());
}

#[test]
fn local_images_outside_the_viewport_are_not_placed() {
    let cells = vec![TranscriptCell::user(vec!["/tmp/a.png".to_string(), "/tmp/b.png".to_string()])];
    let heights = heights_of(&cells);
    let mut overlay = TranscriptOverlay::new_workspace(cells, PagerKeymap::defaults());
    overlay.set_local_image_previews_enabled(true);
    overlay.view.scroll_offset = 0;

    // Eleven content rows: the text (3 rows) and the first image block (8 rows) fit, the second
    // image does not.
    let previews =
        overlay.workspace_local_image_previews(Rect::new(0, 0, 80, 13), &heights, &vec![vec![true, true]]);

    assert_eq!(previews.len(), 1);
    assert_eq!(previews[0].path, "/tmp/a.png");
    assert_eq!(previews[0].y, 4);
    assert_eq!(previews[0].image_id, 0xC100_0000);
}

#[test]
fn collapse_then_expand_restores_the_renderables() {
    let cells = two_turns();
    let heights = heights_of(&cells);
    let mut overlay = TranscriptOverlay::new_workspace(cells, PagerKeymap::defaults());
    let area = Rect::new(0, 0, 72, 10);
    overlay.handle_workspace_key(alt(KeyCode::Up), area, &heights);
    let before = overlay.view.renderables.clone();

    overlay.handle_workspace_key(alt(KeyCode::Left), area, &heights);
    overlay.handle_workspace_key(alt(KeyCode::Right), area, &heights);

    assert_eq!(overlay.view.renderables, before);
}

#[test]
fn ctrl_t_closes_the_workspace() {
    let mut overlay = TranscriptOverlay::new_workspace(two_turns(), PagerKeymap::defaults());

    let outcome = overlay.handle_workspace_key(
        KeyEvent::new(KeyCode::Char('t'), KeyModifiers::control()),
        Rect::new(0, 0, 80, 24),
        &heights_of(&two_turns()),
    );

    assert!(outcome.handled);
    assert!(overlay.is_done());
}

#[test]
fn workspace_details_prepend_keeps_the_folded_turn() {
    let cells = two_turns();
    let before = heights_of(&cells);
    let mut overlay = TranscriptOverlay::new_workspace(cells, PagerKeymap::defaults());
    assert!(overlay.workspace_turns.collapse_selected(&overlay.cells));

    let mut after = vec![REPLY_ROWS];
    after.extend(before.iter().copied());
    overlay.prepend(vec![reply()], &before, &after, 0);

    assert!(overlay.workspace_turns.is_collapsed(3));
    assert!(overlay.workspace_turns.is_cell_hidden(4));
}

/// Draws the workspace at `area` with one row per line of each cell.
fn render_at(overlay: &mut TranscriptOverlay, area: Rect, cell_heights: &Vec<u16>) {
    let renderable_heights = overlay.renderable_heights(cell_heights, 0);
    overlay.render_workspace(area, cell_heights, &renderable_heights);
}

fn anchor_top(overlay: &TranscriptOverlay, cell_index: usize) -> usize {
    overlay
        .workspace_layout_index
        .as_ref()
        .expect("workspace layout")
        .cells
        .iter()
        .find(|layout| layout.cell_index == cell_index)
        .expect("anchor layout")
        .top
}

#[test]
fn workspace_parity_details_append_anchor() {
    // A long padding reply, the anchor, and a long tail, as they wrap at forty columns.
    let mut cell_heights = vec![8u16, 1, 8];
    let mut overlay = TranscriptOverlay::new_workspace(vec![reply(), reply(), reply()], PagerKeymap::defaults());
    let area = Rect::new(0, 0, 40, 8);
    render_at(&mut overlay, area, &cell_heights);
    overlay.view.scroll_offset = anchor_top(&overlay, 1);

    overlay.insert_cell(reply());
    cell_heights.push(1);
    render_at(&mut overlay, area, &cell_heights);

    assert_eq!(overlay.view.scroll_offset, anchor_top(&overlay, 1));
    assert_eq!(overlay.cells.len(), 4);
}

#[test]
fn workspace_parity_details_follow_bottom() {
    let mut cell_heights = vec![13u16];
    let mut overlay = TranscriptOverlay::new_workspace(vec![reply()], PagerKeymap::defaults());
    let area = Rect::new(0, 0, 40, 8);
    render_at(&mut overlay, area, &cell_heights);
    overlay.view.scroll_offset = usize::MAX;

    overlay.insert_cell(reply());
    cell_heights.push(1);
    render_at(&mut overlay, area, &cell_heights);

    assert!(overlay.view.is_scrolled_to_bottom());
    assert_eq!(overlay.cells.len(), 2);
}
