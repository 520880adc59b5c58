use transcript_workspace::lines::{joined_workspace_lines, mark_workspace_target, TextLine};
use transcript_workspace::workspace_input::normalize_paste;

fn line(spans: &[&str]) -> TextLine {
    TextLine { spans: spans.iter().map(|s| s.to_string()).collect() }
}

#[test]
fn joined_workspace_lines_joins_spans_and_rows() {
    let lines = vec![line(&["• ", "first row"]), line(&["  ", "second", " row"])];

    assert_eq!(joined_workspace_lines(&lines), "• first row\n  second row");
    assert_eq!(joined_workspace_lines(&Vec::new()), "");
    assert_eq!(joined_workspace_lines(&vec![line(&[])]), "");
}

#[test]
fn only_the_first_user_marker_is_replaced() {
    let lines = vec![line(&[]), line(&["plain"]), line(&["› first", " prompt"]), line(&["› second"])];

    let marked = mark_workspace_target(lines);

    assert_eq!(joined_workspace_lines(&marked), "\nplain\n▸ first prompt\n› second");
}

#[test]
fn lines_without_a_marker_are_unchanged() {
    let lines = vec![line(&["›no space"]), line(&["reply"])];

    let marked = mark_workspace_target(lines);

    assert_eq!(joined_workspace_lines(&marked), "›no space\nreply");
}

#[test]
fn pasted_line_endings_become_line_feeds() {
    assert_eq!(normalize_paste("a\r\nb\rc\n"), "a\nb\nc\n");
    assert_eq!(normalize_paste("\r\r\n"), "\n\n");
    assert_eq!(normalize_paste("plain"), "plain");
    assert_eq!(normalize_paste(""), "");
}
