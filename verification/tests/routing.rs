use transcript_workspace::cell::TranscriptCell;
use transcript_workspace::events::TuiEvent;
use transcript_workspace::geometry::Rect;
use transcript_workspace::keys::{KeyCode, KeyEvent, KeyModifiers, MouseEventKind, PagerKeymap};
use transcript_workspace::overlay::TranscriptOverlay;
use transcript_workspace::overlay_types::TranscriptHistoryState;
use transcript_workspace::workspace_input::WorkspaceRoute;

fn workspace() -> TranscriptOverlay {
    TranscriptOverlay::new_workspace(vec![TranscriptCell::user(Vec::new()), TranscriptCell::plain()], PagerKeymap::defaults())
}

#[test]
fn typing_reaches_the_composer_and_turn_keys_stay_in_the_transcript() {
    let mut overlay = workspace();
    let heights = vec![3u16, 1];
    let area = Rect::new(0, 0, 80, 10);
    let space = KeyEvent::plain(KeyCode::Char(' '));

    assert_eq!(overlay.route_workspace_event(TuiEvent::Key(space), area, &heights), WorkspaceRoute::ComposerKey(space));
    let home = KeyEvent::plain(KeyCode::Home);
    assert_eq!(overlay.route_workspace_event(TuiEvent::Key(home), area, &heights), WorkspaceRoute::ComposerKey(home));
    let ctrl_b = KeyEvent::new(KeyCode::Char('b'), KeyModifiers::control());
    assert_eq!(overlay.route_workspace_event(TuiEvent::Key(ctrl_b), area, &heights), WorkspaceRoute::ComposerKey(ctrl_b));
    assert!(matches!(
        overlay.route_workspace_event(TuiEvent::Key(KeyEvent::new(KeyCode::Left, KeyModifiers::alt())), area, &heights),
        WorkspaceRoute::Handled { close: false, schedule_frame: true }
    ));
    assert_eq!(overlay.route_workspace_event(TuiEvent::Paste, area, &heights), WorkspaceRoute::ComposerPaste);
    assert_eq!(overlay.route_workspace_event(TuiEvent::Resize, area, &heights), WorkspaceRoute::Redraw);
    assert_eq!(overlay.route_workspace_event(TuiEvent::FocusLost, area, &heights), WorkspaceRoute::Forward);
    assert_eq!(
        overlay.route_workspace_event(TuiEvent::Mouse(MouseEventKind::ScrollUp), area, &heights),
        WorkspaceRoute::Handled { close: false, schedule_frame: true }
    );
    let ctrl_t = KeyEvent::new(KeyCode::Char('t'), KeyModifiers::control());
    assert_eq!(
        overlay.route_workspace_event(TuiEvent::Key(ctrl_t), area, &heights),
        WorkspaceRoute::Handled { close: true, schedule_frame: false }
    );
}

#[test]
fn upward_navigation_near_the_top_requests_older_history() {
    let mut overlay = workspace();
    overlay.view.scroll_offset = 0;
    overlay.view.last_content_height = Some(4);

    assert_eq!(
        overlay.workspace_history_request(TuiEvent::Key(KeyEvent::plain(KeyCode::PageUp))),
        Some(TranscriptHistoryState::LoadingOlder)
    );
    assert_eq!(overlay.workspace_history_request(TuiEvent::Key(KeyEvent::plain(KeyCode::PageDown))), None);
    assert_eq!(
        overlay.workspace_history_request(TuiEvent::Mouse(MouseEventKind::ScrollUp)),
        Some(TranscriptHistoryState::LoadingOlder)
    );
    assert_eq!(overlay.workspace_history_request(TuiEvent::Mouse(MouseEventKind::ScrollDown)), None);
    assert_eq!(overlay.workspace_history_request(TuiEvent::Key(KeyEvent::plain(KeyCode::Home))), None);

    overlay.view.scroll_offset = 10;
    assert_eq!(overlay.workspace_history_request(TuiEvent::Key(KeyEvent::plain(KeyCode::PageUp))), None);
}

fn routes_to_composer(key: KeyEvent) -> bool {
    let mut overlay = workspace();
    overlay.route_workspace_event(TuiEvent::Key(key), Rect::new(0, 0, 80, 10), &vec![3u16, 1])
        == WorkspaceRoute::ComposerKey(key)
}

#[test]
fn workspace_input_space_reaches_composer() {
    assert!(routes_to_composer(KeyEvent::plain(KeyCode::Char(' '))));
}

#[test]
fn workspace_input_shift_space_reaches_composer() {
    assert!(routes_to_composer(KeyEvent::new(KeyCode::Char(' '), KeyModifiers::shift())));
}

#[test]
fn workspace_input_home_end_reaches_composer() {
    assert!(routes_to_composer(KeyEvent::plain(KeyCode::Home)));
    assert!(routes_to_composer(KeyEvent::plain(KeyCode::Char('X'))));
    assert!(routes_to_composer(KeyEvent::plain(KeyCode::End)));
}

#[test]
fn workspace_input_ctrl_b_f_reaches_composer() {
    assert!(routes_to_composer(KeyEvent::new(KeyCode::Char('b'), KeyModifiers::control())));
    assert!(routes_to_composer(KeyEvent::new(KeyCode::Char('f'), KeyModifiers::control())));
}

#[test]
fn transcript_workspace_routes_typing_and_ctrl_c_to_the_existing_composer() {
    let mut overlay = workspace();
    let area = Rect::new(0, 0, 72, 12);
    let heights = vec![3u16, 1];

    assert_eq!(overlay.route_workspace_event(TuiEvent::Paste, area, &heights), WorkspaceRoute::ComposerPaste);
    assert!(matches!(
        overlay.route_workspace_event(TuiEvent::Key(KeyEvent::plain(KeyCode::PageUp)), area, &heights),
        WorkspaceRoute::Handled { close: false, .. }
    ));
    let ctrl_c = KeyEvent::new(KeyCode::Char('c'), KeyModifiers::control());
    assert_eq!(overlay.route_workspace_event(TuiEvent::Key(ctrl_c), area, &heights), WorkspaceRoute::ComposerKey(ctrl_c));
    let ctrl_u = KeyEvent::new(KeyCode::Char('u'), KeyModifiers::control());
    assert_eq!(overlay.route_workspace_event(TuiEvent::Key(ctrl_u), area, &heights), WorkspaceRoute::ComposerKey(ctrl_u));
    let ctrl_t = KeyEvent::new(KeyCode::Char('t'), KeyModifiers::control());
    assert_eq!(
        overlay.route_workspace_event(TuiEvent::Key(ctrl_t), area, &heights),
        WorkspaceRoute::Handled { close: true, schedule_frame: false }
    );
}
