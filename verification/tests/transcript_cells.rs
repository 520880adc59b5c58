use transcript_workspace::skill_catalog::{
    CommandExecutionSource, CommandExecutionStatus, ParsedCommand, SkillAccess, SkillMetadata, SkillsListEntry,
    SkillsListResponse, WorkspaceCommandOutcome, WorkspaceSkillCatalog,
};
use transcript_workspace::thread_items::{StyledLine, ThreadItem};
use transcript_workspace::transcript_cells::{
    join_strings, status_name, thread_items_to_transcript_cells, thread_to_transcript_cells,
    workspace_thread_items_to_transcript_cells_with_required_skill_cwds, DelegatedPrompt, HistoryCellContent,
    RawReasoningVisibility, SkillReadInputs, TranscriptItem,
};

fn texts(lines: &[StyledLine]) -> Vec<String> {
    lines.iter().map(|line| line.spans.iter().map(|s| s.text.as_str()).collect::<String>()).collect()
}

fn words(items: &[&str]) -> Vec<String> {
    items.iter().map(|w| w.to_string()).collect()
}

const CWD: &str = "/tmp/workspace-persisted-read";
const DOCUMENT: &str = "/tmp/demo/SKILL.md";

fn skill_read_inputs(contents: Option<&[u8]>) -> SkillReadInputs {
    SkillReadInputs {
        source: CommandExecutionSource::Agent,
        argv: words(&["sed", "-n", "1,240p", DOCUMENT]),
        argv_resolved: Some(DOCUMENT.to_string()),
        cwd: CWD.to_string(),
        cwd_path: Some(CWD.to_string()),
        accesses: vec![SkillAccess::Document(DOCUMENT.to_string())],
        parsed: vec![ParsedCommand::Read { resolved: Some(DOCUMENT.to_string()) }],
        shell: None,
        document_basename: Some("SKILL.md".to_string()),
        document_contents: contents.map(|c| c.to_vec()),
    }
}

fn skill_read_command(exit_code: Option<i32>, contents: Option<&[u8]>) -> TranscriptItem {
    TranscriptItem::CommandExecution {
        command: "sed -n 1,240p /tmp/demo/SKILL.md".to_string(),
        status: CommandExecutionStatus::Completed,
        aggregated_output: Some("PERSISTED_READ_BODY_SENTINEL\n".to_string()),
        exit_code,
        duration_ms: None,
        skill_read: Some(skill_read_inputs(contents)),
    }
}

fn listing() -> SkillsListResponse {
    SkillsListResponse {
        data: vec![SkillsListEntry {
            cwd: CWD.to_string(),
            skills: vec![SkillMetadata {
                name: "demo".to_string(),
                path: DOCUMENT.to_string(),
                enabled: true,
                contents: Some(b"skill body".to_vec()),
            }],
            has_errors: false,
        }],
    }
}

#[test]
fn workspace_parity_persisted_detail_preserves_optional_completion_fields() {
    let item = TranscriptItem::CommandExecution {
        command: "printf done".to_string(),
        status: CommandExecutionStatus::Completed,
        aggregated_output: Some("PERSISTED_DETAIL_BODY_SENTINEL\n".to_string()),
        exit_code: None,
        duration_ms: Some(1250),
        skill_read: None,
    };

    let cells = thread_items_to_transcript_cells(&vec![item], RawReasoningVisibility::Hidden);
    let detail = match &cells[0] {
        HistoryCellContent::Plain { lines } => texts(lines).concat(),
        other => panic!("unexpected cell {other:?}"),
    };

    assert!(detail.contains("status: Completed · 1.25s"));
    assert!(!detail.contains("exit 0"));
    assert!(detail.contains("PERSISTED_DETAIL_BODY_SENTINEL"));
}

#[test]
fn persisted_command_outside_the_workspace_is_its_plain_lines() {
    let item = TranscriptItem::CommandExecution {
        command: "printf done".to_string(),
        status: CommandExecutionStatus::Completed,
        aggregated_output: Some("PERSISTED_DETAIL_BODY_SENTINEL\n".to_string()),
        exit_code: None,
        duration_ms: None,
        skill_read: None,
    };

    let cells = thread_items_to_transcript_cells(&vec![item], RawReasoningVisibility::Hidden);

    assert_eq!(cells.len(), 1);
    match &cells[0] {
        HistoryCellContent::Plain { lines } => {
            assert_eq!(texts(lines), vec!["$ printf done", "status: Completed", "  PERSISTED_DETAIL_BODY_SENTINEL"]);
        },
        other => panic!("unexpected cell {other:?}"),
    }
}

#[test]
fn items_without_visible_text_give_no_cell() {
    let items = vec![
        TranscriptItem::AgentMessage { visible_markdown: " \n".to_string() },
        TranscriptItem::Plan { text: "\t".to_string() },
        TranscriptItem::FunctionCallOutput { delegated: None },
        TranscriptItem::Reasoning { summary_header: "h".to_string(), summary_text: "  ".to_string(), content: Vec::new() },
        TranscriptItem::Other(ThreadItem::Sleep),
        TranscriptItem::Other(ThreadItem::HookPrompt { fragments: Vec::new() }),
    ];

    assert!(thread_items_to_transcript_cells(&items, RawReasoningVisibility::Visible).is_empty());
}

#[test]
fn items_with_text_give_one_cell_each_in_order() {
    let items = vec![
        TranscriptItem::UserMessage {
            message: "hi".to_string(),
            local_image_paths: vec!["/tmp/a.png".to_string()],
            remote_image_urls: Vec::new(),
        },
        TranscriptItem::AgentMessage { visible_markdown: "**done**".to_string() },
        TranscriptItem::FunctionCallOutput {
            delegated: Some(DelegatedPrompt { source_thread_id: "t-1".to_string(), prompt: "review it".to_string() }),
        },
        TranscriptItem::Plan { text: "1. step".to_string() },
        TranscriptItem::Other(ThreadItem::WebSearch { query: "Codex TUI".to_string() }),
    ];

    let cells = thread_items_to_transcript_cells(&items, RawReasoningVisibility::Hidden);

    assert_eq!(cells.len(), 5);
    assert!(matches!(&cells[0], HistoryCellContent::User { message, local_image_paths, .. }
        if message == "hi" && local_image_paths == &vec!["/tmp/a.png".to_string()]));
    assert!(matches!(&cells[1], HistoryCellContent::AgentMarkdown { markdown } if markdown == "**done**"));
    assert!(matches!(&cells[2], HistoryCellContent::DelegatedPrompt { text } if text == "Sent by Codex from task t-1\nreview it"));
    assert!(matches!(&cells[3], HistoryCellContent::ProposedPlan { text } if text == "1. step"));
    match &cells[4] {
        HistoryCellContent::Plain { lines } => assert_eq!(texts(lines), vec!["web search: Codex TUI"]),
        other => panic!("unexpected cell {other:?}"),
    }
}

#[test]
fn raw_reasoning_replaces_the_summary_only_when_visible_and_present() {
    let item = TranscriptItem::Reasoning {
        summary_header: "Thinking".to_string(),
        summary_text: "summary".to_string(),
        content: vec!["first".to_string(), "second".to_string()],
    };

    let visible = thread_items_to_transcript_cells(&vec![item.clone()], RawReasoningVisibility::Visible);
    assert!(matches!(&visible[0], HistoryCellContent::ReasoningSummary { header, text }
        if header == "Reasoning" && text == "first\n\nsecond"));

    let hidden = thread_items_to_transcript_cells(&vec![item], RawReasoningVisibility::Hidden);
    assert!(matches!(&hidden[0], HistoryCellContent::ReasoningSummary { header, text }
        if header == "Thinking" && text == "summary"));
}

#[test]
fn empty_thread_shows_the_no_content_notice() {
    let turns = vec![Vec::new(), vec![TranscriptItem::Plan { text: " ".to_string() }]];
    let cells = thread_to_transcript_cells(&turns, RawReasoningVisibility::Hidden);
    assert_eq!(cells.len(), 1);
    assert!(matches!(cells[0], HistoryCellContent::NoTranscriptContent));

    let turns = vec![vec![TranscriptItem::Plan { text: "a".to_string() }], vec![TranscriptItem::Plan { text: "b".to_string() }]];
    let cells = thread_to_transcript_cells(&turns, RawReasoningVisibility::Hidden);
    assert_eq!(cells.len(), 2);
    assert!(matches!(&cells[1], HistoryCellContent::ProposedPlan { text } if text == "b"));
}

#[test]
fn workspace_skill_read_requests_its_catalog_once() {
    let mut catalog = WorkspaceSkillCatalog::new();
    let items = vec![skill_read_command(Some(0), Some(b"skill body")), skill_read_command(Some(0), Some(b"skill body"))];

    let projection =
        workspace_thread_items_to_transcript_cells_with_required_skill_cwds(&items, RawReasoningVisibility::Hidden, &mut catalog);

    assert_eq!(projection.cells.len(), 2);
    assert_eq!(projection.required_skill_cwds, vec![CWD.to_string()]);
    assert!(catalog.current_ticket(&CWD.to_string()).is_some());
    match &projection.cells[0] {
        HistoryCellContent::WorkspaceCommand(cell) => {
            let read = cell.workspace_skill_read.as_ref().expect("skill read");
            assert_eq!(read.candidate.filename, "SKILL.md");
            assert_eq!(read.outcome, WorkspaceCommandOutcome::Failed);
            assert!(!cell.has_stable_transcript_height());
            assert!(texts(&cell.lines).contains(&"  PERSISTED_READ_BODY_SENTINEL".to_string()));
        },
        other => panic!("unexpected cell {other:?}"),
    }
}

#[test]
fn workspace_skill_read_is_summarized_once_the_catalog_lists_it() {
    let mut catalog = WorkspaceSkillCatalog::new();
    catalog.sync_response(&listing());

    let projection = workspace_thread_items_to_transcript_cells_with_required_skill_cwds(
        &vec![skill_read_command(Some(0), Some(b"skill body"))],
        RawReasoningVisibility::Hidden,
        &mut catalog,
    );

    assert!(projection.required_skill_cwds.is_empty());
    match &projection.cells[0] {
        HistoryCellContent::WorkspaceCommand(cell) => {
            assert_eq!(cell.workspace_skill_read.as_ref().expect("read").outcome, WorkspaceCommandOutcome::Succeeded);
            assert_eq!(cell.workspace_transcript_summary(&catalog).expect("summary").name, "SKILL.md (demo skill)");
        },
        other => panic!("unexpected cell {other:?}"),
    }

    let failed = workspace_thread_items_to_transcript_cells_with_required_skill_cwds(
        &vec![skill_read_command(Some(1), Some(b"skill body"))],
        RawReasoningVisibility::Hidden,
        &mut catalog,
    );
    match &failed.cells[0] {
        HistoryCellContent::WorkspaceCommand(cell) => assert!(cell.workspace_transcript_summary(&catalog).is_none()),
        other => panic!("unexpected cell {other:?}"),
    }
}

#[test]
fn workspace_command_that_reads_no_skill_keeps_a_stable_height() {
    let mut catalog = WorkspaceSkillCatalog::new();
    let item = TranscriptItem::CommandExecution {
        command: "ls".to_string(),
        status: CommandExecutionStatus::Failed,
        aggregated_output: None,
        exit_code: Some(2),
        duration_ms: None,
        skill_read: None,
    };

    let projection =
        workspace_thread_items_to_transcript_cells_with_required_skill_cwds(&vec![item], RawReasoningVisibility::Hidden, &mut catalog);

    match &projection.cells[0] {
        HistoryCellContent::WorkspaceCommand(cell) => {
            assert!(cell.has_stable_transcript_height());
            assert!(cell.workspace_transcript_summary(&catalog).is_none());
            assert_eq!(texts(&cell.lines), vec!["$ ls", "status: Failed · exit 2"]);
        },
        other => panic!("unexpected cell {other:?}"),
    }
    assert!(catalog.current_ticket(&CWD.to_string()).is_none());
}

#[test]
fn joins_and_status_names() {
    assert_eq!(join_strings(&words(&["a", "b", "c"]), ", "), "a, b, c");
    assert_eq!(join_strings(&Vec::new(), ", "), "");
    assert_eq!(status_name(CommandExecutionStatus::InProgress), "InProgress");
    assert_eq!(status_name(CommandExecutionStatus::Declined), "Declined");
}
