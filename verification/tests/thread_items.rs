use transcript_workspace::thread_items::push_duration_text;
use transcript_workspace::text::{is_blank_text, text_lines, trim, trim_end};
use transcript_workspace::thread_items::{command_execution_fallback_lines, fallback_transcript_cell, StyledLine, ThreadItem};

fn texts(lines: &[StyledLine]) -> Vec<String> {
    lines.iter().map(|line| line.spans.iter().map(|s| s.text.as_str()).collect::<String>()).collect()
}

#[test]
fn command_lines_show_the_command_status_exit_code_and_output() {
    let lines = command_execution_fallback_lines("ls", "Failed", Some("a  \r\n\nb\n"), Some(-2), None);

    assert_eq!(texts(&lines), vec!["$ ls", "status: Failed · exit -2", "  a", "  ", "  b"]);
    assert!(lines[0].spans[0].dim && !lines[0].spans[1].dim);
    assert!(lines[1].spans[0].dim);
}

#[test]
fn blank_command_output_adds_no_lines() {
    let lines = command_execution_fallback_lines("true", "Completed", Some(" \n\t"), Some(0), None);

    assert_eq!(texts(&lines), vec!["$ true", "status: Completed · exit 0"]);
}

#[test]
fn fallback_lines_describe_tool_calls_searches_and_reviews() {
    let cases = vec![
        (ThreadItem::WebSearch { query: "Codex TUI".to_string() }, "web search: Codex TUI"),
        (
            ThreadItem::McpToolCall { server: "srv".to_string(), tool: "t".to_string(), status: "Completed".to_string() },
            "mcp tool: srv/t · Completed",
        ),
        (
            ThreadItem::DynamicToolCall { namespace: Some("ns".to_string()), tool: "t".to_string(), status: "Failed".to_string() },
            "tool: ns/t · Failed",
        ),
        (
            ThreadItem::DynamicToolCall { namespace: None, tool: "t".to_string(), status: "Failed".to_string() },
            "tool: t · Failed",
        ),
        (ThreadItem::FileChange { status: "Completed".to_string(), change_count: 12 }, "file changes: Completed · 12 changes"),
        (
            ThreadItem::ImageGeneration { status: "completed".to_string(), saved_path: Some("/tmp/i.png".to_string()) },
            "image generation: completed · /tmp/i.png",
        ),
        (ThreadItem::ImageView { path: "i.png".to_string() }, "image: i.png"),
        (ThreadItem::EnteredReviewMode { review: "diff".to_string() }, "review started: diff"),
        (ThreadItem::ExitedReviewMode { review: "diff".to_string() }, "review finished: diff"),
        (ThreadItem::ContextCompaction, "context compacted"),
        (ThreadItem::CollabAgentToolCall { tool: "Spawn".to_string(), status: "Running".to_string() }, "agent tool: Spawn · Running"),
    ];
    for (item, expected) in cases {
        let lines = fallback_transcript_cell(&item).expect("fallback lines");
        assert_eq!(texts(&lines), vec![expected.to_string()]);
    }
}

#[test]
fn hook_prompts_are_trimmed_and_items_with_cells_have_no_fallback() {
    let item = ThreadItem::HookPrompt { fragments: vec!["  first \n".to_string(), "second".to_string()] };
    let lines = fallback_transcript_cell(&item).expect("hook lines");
    assert_eq!(texts(&lines), vec!["hook prompt: first", "hook prompt: second"]);

    assert!(fallback_transcript_cell(&ThreadItem::HookPrompt { fragments: Vec::new() }).is_none());
    assert!(fallback_transcript_cell(&ThreadItem::UserMessage).is_none());
    assert!(fallback_transcript_cell(&ThreadItem::Reasoning).is_none());
}

#[test]
fn text_helpers_follow_std() {
    assert_eq!(trim("\u{3000} a b \t"), "a b");
    assert_eq!(trim_end(" a \r"), " a");
    assert!(is_blank_text(" \u{a0}\n"));
    assert!(!is_blank_text(" x "));
    assert_eq!(text_lines("a\r\nb\n\nc\r"), vec!["a", "b", "", "c\r"]);
    assert_eq!(text_lines(""), Vec::<String>::new());
    assert_eq!(text_lines("\n"), vec![""]);
}

fn duration(ms: i64) -> String {
    let mut out = String::new();
    push_duration_text(&mut out, ms);
    out
}

#[test]
fn run_times_show_milliseconds_seconds_or_minutes() {
    assert_eq!(duration(250), "250ms");
    assert_eq!(duration(999), "999ms");
    assert_eq!(duration(1000), "1.00s");
    assert_eq!(duration(1250), "1.25s");
    assert_eq!(duration(1999), "2.00s");
    assert_eq!(duration(59_990), "59.99s");
    assert_eq!(duration(60_000), "1m 00s");
    assert_eq!(duration(125_000), "2m 05s");
}

#[test]
fn command_status_line_carries_exit_code_then_run_time() {
    let lines = command_execution_fallback_lines("make", "Completed", None, Some(0), Some(1250));
    assert_eq!(texts(&lines), vec!["$ make", "status: Completed · exit 0 · 1.25s"]);
}
