//! Persisted thread items as the history cells of a transcript.
//!
//! A persisted thread is a list of items: prompts, replies, plans, reasoning, command executions
//! and tool calls. Each item becomes at most one history cell. In the workspace, a command that
//! reads one skill document also carries a presentation of that read, which can later shrink the
//! command's output to a one-line summary once the skill catalog confirms the document; the
//! working directories whose catalogs this needs are collected on the way.
//!
//! What the item parsers compute (the visible markdown of a reply, a delegated tool output, the
//! split of a reasoning summary, the skill accesses and parses of a command, the contents of a
//! skill document) arrives here as plain values of the item.

use crate::skill_catalog::{
    begin_refresh_spec, classify_spec, classify_workspace_skill_read, completion_outcome, document_matches,
    pwd_output_ok, summary_spec, CommandExecutionSource, CommandExecutionStatus, EntryModel, ParsedCommand,
    ShellCommandPair, SkillAccess, WorkspaceCommandOutcome, WorkspaceReadSummary, WorkspaceSkillCatalog,
    WorkspaceSkillReadPresentation,
};
use crate::text::{is_blank, is_blank_text};
use crate::thread_items::{
    command_execution_fallback_lines, command_lines_spec, fallback_lines_spec, fallback_transcript_cell,
    styled_lines_view, StyledLine, ThreadItem,
};
use vstd::prelude::*;

verus! {

/// Whether raw reasoning replaces the reasoning summary.
#[derive(Clone, Copy, Debug, PartialEq, Eq, Structural)]
pub enum RawReasoningVisibility {
    Hidden,
    Visible,
}

/// What the skill-read classification of a command reads: what the command parsers, the skill
/// access scanner and the file system report for it.
#[derive(Clone, Debug)]
pub struct SkillReadInputs {
    pub source: CommandExecutionSource,
    /// The command split into words.
    pub argv: Vec<String>,
    /// The path argument of `argv`, joined to the working directory.
    pub argv_resolved: Option<String>,
    /// Path URI of the working directory.
    pub cwd: String,
    /// The working directory as an absolute path, when its URI has one.
    pub cwd_path: Option<String>,
    pub accesses: Vec<SkillAccess>,
    pub parsed: Vec<ParsedCommand>,
    pub shell: Option<ShellCommandPair>,
    /// The file name of the one skill document accessed, when it has one.
    pub document_basename: Option<String>,
    /// The current contents of that document, when it is a readable regular file.
    pub document_contents: Option<Vec<u8>>,
}

/// A tool output that delegates a prompt from another task.
#[derive(Clone, Debug)]
pub struct DelegatedPrompt {
    pub source_thread_id: String,
    pub prompt: String,
}

/// A persisted thread item, as far as the transcript reads it.
#[derive(Clone, Debug)]
pub enum TranscriptItem {
    UserMessage { message: String, local_image_paths: Vec<String>, remote_image_urls: Vec<String> },
    /// An agent reply, by its visible markdown.
    AgentMessage { visible_markdown: String },
    /// A function call output, with the prompt it delegates when it is one.
    FunctionCallOutput { delegated: Option<DelegatedPrompt> },
    Plan { text: String },
    /// Reasoning: the header and text of its summary, and its raw content.
    Reasoning { summary_header: String, summary_text: String, content: Vec<String> },
    /// A command execution; `skill_read` is what its classification reads, when the working
    /// directory is a path URI.
    CommandExecution {
        command: String,
        status: CommandExecutionStatus,
        aggregated_output: Option<String>,
        exit_code: Option<i32>,
        /// The run time in milliseconds, when it is known.
        duration_ms: Option<i64>,
        skill_read: Option<SkillReadInputs>,
    },
    /// An item shown by its fallback lines.
    Other(ThreadItem),
}

/// A command execution in the workspace: its lines, and the presentation of the skill read it
/// is, when it is one.
#[derive(Clone, Debug)]
pub struct WorkspaceCommandHistoryCell {
    pub lines: Vec<StyledLine>,
    pub workspace_skill_read: Option<WorkspaceSkillReadPresentation>,
}

/// The history cell of an item.
#[derive(Clone, Debug)]
pub enum HistoryCellContent {
    User { message: String, local_image_paths: Vec<String>, remote_image_urls: Vec<String> },
    AgentMarkdown { markdown: String },
    /// A delegated prompt, wrapped behind a bullet.
    DelegatedPrompt { text: String },
    ProposedPlan { text: String },
    ReasoningSummary { header: String, text: String },
    WorkspaceCommand(WorkspaceCommandHistoryCell),
    Plain { lines: Vec<StyledLine> },
    /// The notice of a thread without any transcript content.
    NoTranscriptContent,
}

/// A skill-read presentation, by value.
pub struct ReadModel {
    pub document: Seq<char>,
    pub filename: Seq<char>,
    pub cwd: Seq<char>,
    pub cwd_path: Option<Seq<char>>,
    pub requires_pwd_output: bool,
    pub outcome: WorkspaceCommandOutcome,
}

/// A history cell, by value.
pub enum CellModel {
    User { message: Seq<char>, local_image_paths: Seq<Seq<char>>, remote_image_urls: Seq<Seq<char>> },
    AgentMarkdown(Seq<char>),
    DelegatedPrompt(Seq<char>),
    ProposedPlan(Seq<char>),
    ReasoningSummary(Seq<char>, Seq<char>),
    WorkspaceCommand(Seq<Seq<(Seq<char>, bool)>>, Option<ReadModel>),
    Plain(Seq<Seq<(Seq<char>, bool)>>),
    NoTranscriptContent,
}

pub open spec fn opt_chars(o: Option<String>) -> Option<Seq<char>> {
    match o {
        Some(s) => Some(s@),
        None => None,
    }
}

pub open spec fn strings_view(v: Seq<String>) -> Seq<Seq<char>> {
    v.map_values(|s: String| s@)
}

pub open spec fn read_view(p: WorkspaceSkillReadPresentation) -> ReadModel {
    ReadModel {
        document: p.candidate.document@,
        filename: p.candidate.filename@,
        cwd: p.candidate.cwd@,
        cwd_path: opt_chars(p.candidate.cwd_path),
        requires_pwd_output: p.candidate.requires_pwd_output,
        outcome: p.outcome,
    }
}

pub open spec fn opt_read_view(p: Option<WorkspaceSkillReadPresentation>) -> Option<ReadModel> {
    match p {
        Some(p) => Some(read_view(p)),
        None => None,
    }
}

impl View for HistoryCellContent {
    type V = CellModel;

    open spec fn view(&self) -> CellModel {
        match self {
            HistoryCellContent::User { message, local_image_paths, remote_image_urls } => CellModel::User {
                message: message@,
                local_image_paths: strings_view(local_image_paths@),
                remote_image_urls: strings_view(remote_image_urls@),
            },
            HistoryCellContent::AgentMarkdown { markdown } => CellModel::AgentMarkdown(markdown@),
            HistoryCellContent::DelegatedPrompt { text } => CellModel::DelegatedPrompt(text@),
            HistoryCellContent::ProposedPlan { text } => CellModel::ProposedPlan(text@),
            HistoryCellContent::ReasoningSummary { header, text } => CellModel::ReasoningSummary(header@, text@),
            HistoryCellContent::WorkspaceCommand(cell) => CellModel::WorkspaceCommand(
                styled_lines_view(cell.lines@),
                opt_read_view(cell.workspace_skill_read),
            ),
            HistoryCellContent::Plain { lines } => CellModel::Plain(styled_lines_view(lines@)),
            HistoryCellContent::NoTranscriptContent => CellModel::NoTranscriptContent,
        }
    }
}

pub open spec fn cells_view(cells: Seq<HistoryCellContent>) -> Seq<CellModel> {
    cells.map_values(|c: HistoryCellContent| c@)
}

/// The name the app server's types print for a command status.
pub open spec fn status_name_spec(status: CommandExecutionStatus) -> Seq<char> {
    match status {
        CommandExecutionStatus::InProgress => "InProgress"@,
        CommandExecutionStatus::Completed => "Completed"@,
        CommandExecutionStatus::Failed => "Failed"@,
        CommandExecutionStatus::Declined => "Declined"@,
    }
}

/// The parts joined with `sep` between them.
pub open spec fn join_spec(parts: Seq<Seq<char>>, sep: Seq<char>) -> Seq<char>
    decreases parts.len(),
{
    if parts.len() == 0 {
        Seq::empty()
    } else if parts.len() == 1 {
        parts[0]
    } else {
        join_spec(parts.drop_last(), sep) + sep + parts.last()
    }
}

pub open spec fn delegated_text_spec(d: DelegatedPrompt) -> Seq<char> {
    "Sent by Codex from task "@ + d.source_thread_id@ + "\n"@ + d.prompt@
}

/// The header and text shown for reasoning: the raw content when it is visible and present, else
/// the summary.
pub open spec fn reasoning_parts_spec(
    visibility: RawReasoningVisibility,
    summary_header: Seq<char>,
    summary_text: Seq<char>,
    content: Seq<Seq<char>>,
) -> (Seq<char>, Seq<char>) {
    if visibility == RawReasoningVisibility::Visible && content.len() > 0 {
        ("Reasoning"@, join_spec(content, "\n\n"@))
    } else {
        (summary_header, summary_text)
    }
}

/// The lines of a command execution.
pub open spec fn command_cell_lines(
    command: String,
    status: CommandExecutionStatus,
    aggregated_output: Option<String>,
    exit_code: Option<i32>,
    duration_ms: Option<i64>,
) -> Seq<Seq<(Seq<char>, bool)>> {
    command_lines_spec(command@, status_name_spec(status), opt_chars(aggregated_output), exit_code, duration_ms)
}

/// The cell of an item outside the workspace, when it has one.
pub open spec fn plain_cell_spec(item: TranscriptItem, visibility: RawReasoningVisibility) -> Option<CellModel> {
    match item {
        TranscriptItem::UserMessage { message, local_image_paths, remote_image_urls } => Some(
            CellModel::User {
                message: message@,
                local_image_paths: strings_view(local_image_paths@),
                remote_image_urls: strings_view(remote_image_urls@),
            },
        ),
        TranscriptItem::AgentMessage { visible_markdown } => if is_blank(visible_markdown@) {
            None
        } else {
            Some(CellModel::AgentMarkdown(visible_markdown@))
        },
        TranscriptItem::FunctionCallOutput { delegated } => match delegated {
            Some(d) => Some(CellModel::DelegatedPrompt(delegated_text_spec(d))),
            None => None,
        },
        TranscriptItem::Plan { text } => if is_blank(text@) {
            None
        } else {
            Some(CellModel::ProposedPlan(text@))
        },
        TranscriptItem::Reasoning { summary_header, summary_text, content } => {
            let (header, text) = reasoning_parts_spec(
                visibility,
                summary_header@,
                summary_text@,
                strings_view(content@),
            );
            if is_blank(text) {
                None
            } else {
                Some(CellModel::ReasoningSummary(header, text))
            }
        },
        TranscriptItem::CommandExecution { command, status, aggregated_output, exit_code, duration_ms, .. } => Some(
            CellModel::Plain(command_cell_lines(command, status, aggregated_output, exit_code, duration_ms)),
        ),
        TranscriptItem::Other(thread_item) => match fallback_lines_spec(thread_item) {
            Some(lines) => Some(CellModel::Plain(lines)),
            None => None,
        },
    }
}

/// The skill read a command is, with how it ended recorded against the catalog `es`.
pub open spec fn recorded_read_spec(
    es: Seq<EntryModel>,
    status: CommandExecutionStatus,
    exit_code: Option<i32>,
    aggregated_output: Option<String>,
    inputs: SkillReadInputs,
) -> Option<ReadModel> {
    match classify_spec(
        inputs.source,
        inputs.argv@,
        inputs.argv_resolved,
        inputs.cwd,
        inputs.cwd_path,
        inputs.accesses@,
        inputs.parsed@,
        inputs.shell,
        inputs.document_basename,
    ) {
        None => None,
        Some((document, filename, requires_pwd_output)) => Some(
            ReadModel {
                document,
                filename,
                cwd: inputs.cwd@,
                cwd_path: opt_chars(inputs.cwd_path),
                requires_pwd_output,
                outcome: if status == CommandExecutionStatus::Completed && exit_code == Some(0i32) && document_matches(
                    es,
                    inputs.cwd@,
                    document,
                    inputs.document_contents,
                ) && pwd_output_ok(requires_pwd_output, inputs.cwd_path, aggregated_output) {
                    WorkspaceCommandOutcome::Succeeded
                } else {
                    WorkspaceCommandOutcome::Failed
                },
            },
        ),
    }
}

/// A command execution in the workspace: its cell, the working directory whose catalog began
/// loading for it, and the catalog afterwards.
pub open spec fn workspace_command_step(
    es: Seq<EntryModel>,
    command: String,
    status: CommandExecutionStatus,
    aggregated_output: Option<String>,
    exit_code: Option<i32>,
    duration_ms: Option<i64>,
    skill_read: Option<SkillReadInputs>,
) -> (CellModel, Option<Seq<char>>, Seq<EntryModel>) {
    let read = match skill_read {
        Some(inputs) => recorded_read_spec(es, status, exit_code, aggregated_output, inputs),
        None => None,
    };
    let cell = CellModel::WorkspaceCommand(command_cell_lines(command, status, aggregated_output, exit_code, duration_ms), read);
    match read {
        Some(m) => match m.cwd_path {
            Some(p) => {
                let (next, began) = begin_refresh_spec(es, m.cwd);
                (cell, if began {
                    Some(p)
                } else {
                    None
                }, next)
            },
            None => (cell, None, es),
        },
        None => (cell, None, es),
    }
}

/// One item in the workspace.
pub open spec fn workspace_step(
    es: Seq<EntryModel>,
    item: TranscriptItem,
    visibility: RawReasoningVisibility,
) -> (Option<CellModel>, Option<Seq<char>>, Seq<EntryModel>) {
    match item {
        TranscriptItem::CommandExecution { command, status, aggregated_output, exit_code, duration_ms, skill_read } => {
            let (cell, required, next) = workspace_command_step(
                es,
                command,
                status,
                aggregated_output,
                exit_code,
                duration_ms,
                skill_read,
            );
            (Some(cell), required, next)
        },
        _ => (plain_cell_spec(item, visibility), None, es),
    }
}

pub open spec fn push_some<A>(s: Seq<A>, o: Option<A>) -> Seq<A> {
    match o {
        Some(a) => s.push(a),
        None => s,
    }
}

/// The cells of the items outside the workspace.
pub open spec fn plain_cells_spec(items: Seq<TranscriptItem>, visibility: RawReasoningVisibility) -> Seq<CellModel>
    decreases items.len(),
{
    if items.len() == 0 {
        Seq::empty()
    } else {
        push_some(plain_cells_spec(items.drop_last(), visibility), plain_cell_spec(items.last(), visibility))
    }
}

/// The items in the workspace, in order: their cells, the working directories whose catalogs
/// began loading, and the catalog afterwards.
pub open spec fn workspace_cells_spec(
    es: Seq<EntryModel>,
    items: Seq<TranscriptItem>,
    visibility: RawReasoningVisibility,
) -> (Seq<CellModel>, Seq<Seq<char>>, Seq<EntryModel>)
    decreases items.len(),
{
    if items.len() == 0 {
        (Seq::empty(), Seq::empty(), es)
    } else {
        let (cells, required, mid) = workspace_cells_spec(es, items.drop_last(), visibility);
        let (cell, req, next) = workspace_step(mid, items.last(), visibility);
        (push_some(cells, cell), push_some(required, req), next)
    }
}

/// The name the app server's types print for a command status.
pub fn status_name(status: CommandExecutionStatus) -> (r: &'static str)
    ensures
        r@ == status_name_spec(status),
{
    proof {
        reveal_strlit("InProgress");
        reveal_strlit("Completed");
        reveal_strlit("Failed");
        reveal_strlit("Declined");
    }
    match status {
        CommandExecutionStatus::InProgress => "InProgress",
        CommandExecutionStatus::Completed => "Completed",
        CommandExecutionStatus::Failed => "Failed",
        CommandExecutionStatus::Declined => "Declined",
    }
}

/// The parts joined with `sep` between them.
pub fn join_strings(parts: &Vec<String>, sep: &str) -> (r: String)
    ensures
        r@ == join_spec(strings_view(parts@), sep@),
{
    let mut out = String::new();
    let n = parts.len();
    let mut i: usize = 0;
    while i < n
        invariant
            0 <= i <= n,
            n == parts@.len(),
            out@ == join_spec(strings_view(parts@).take(i as int), sep@),
        decreases n - i,
    {
        let ghost before = strings_view(parts@).take(i as int);
        if i > 0 {
            out.append(sep);
        }
        out.append(parts[i].as_str());
        proof {
            let after = strings_view(parts@).take(i + 1);
            assert(after.drop_last() =~= before);
            assert(after.last() == parts@[i as int]@);
            if i == 0 {
                assert(out@ =~= after[0]);
            }
        }
        i += 1;
    }
    assert(strings_view(parts@).take(n as int) =~= strings_view(parts@));
    out
}

/// A copy of the strings.
fn copy_strings(v: &Vec<String>) -> (r: Vec<String>)
    ensures
        strings_view(r@) == strings_view(v@),
{
    let mut out: Vec<String> = Vec::new();
    let n = v.len();
    let mut i: usize = 0;
    while i < n
        invariant
            0 <= i <= n,
            n == v@.len(),
            strings_view(out@) == strings_view(v@).take(i as int),
        decreases n - i,
    {
        let ghost before = out@;
        let c = v[i].clone();
        out.push(c);
        proof {
            assert(out@ == before.push(v@[i as int]));
            assert(strings_view(out@) =~= strings_view(before).push(v@[i as int]@));
            assert(strings_view(v@).take(i + 1) =~= strings_view(v@).take(i as int).push(v@[i as int]@));
        }
        i += 1;
    }
    assert(strings_view(v@).take(n as int) =~= strings_view(v@));
    out
}

pub open spec fn opt_cell_view(c: Option<HistoryCellContent>) -> Option<CellModel> {
    match c {
        Some(c) => Some(c@),
        None => None,
    }
}

fn as_opt_str(o: &Option<String>) -> (r: Option<&str>)
    ensures
        match r {
            Some(s) => opt_chars(*o) == Some(s@),
            None => o.is_none(),
        },
{
    match o {
        Some(s) => Some(s.as_str()),
        None => None,
    }
}

/// The lines of a command execution.
fn command_cell_lines_of(
    command: &String,
    status: CommandExecutionStatus,
    aggregated_output: &Option<String>,
    exit_code: Option<i32>,
    duration_ms: Option<i64>,
) -> (r: Vec<StyledLine>)
    ensures
        styled_lines_view(r@) == command_cell_lines(*command, status, *aggregated_output, exit_code, duration_ms),
{
    let output = as_opt_str(aggregated_output);
    let lines = command_execution_fallback_lines(
        command.as_str(),
        status_name(status),
        output,
        exit_code,
        duration_ms,
    );
    proof {
        let o = match output {
            Some(o) => Some(o@),
            None => None,
        };
        assert(o == opt_chars(*aggregated_output));
    }
    lines
}

/// The text of a delegated prompt.
fn delegated_text(d: &DelegatedPrompt) -> (r: String)
    ensures
        r@ == delegated_text_spec(*d),
{
    let mut text = String::from_str("Sent by Codex from task ");
    text.append(d.source_thread_id.as_str());
    text.append("\n");
    text.append(d.prompt.as_str());
    proof {
        reveal_strlit("Sent by Codex from task ");
        reveal_strlit("\n");
    }
    text
}

/// The cell of an item outside the workspace, when it has one.
pub fn plain_item_cell(item: &TranscriptItem, visibility: RawReasoningVisibility) -> (r: Option<HistoryCellContent>)
    ensures
        opt_cell_view(r) == plain_cell_spec(*item, visibility),
{
    match item {
        TranscriptItem::UserMessage { message, local_image_paths, remote_image_urls } => Some(
            HistoryCellContent::User {
                message: message.clone(),
                local_image_paths: copy_strings(local_image_paths),
                remote_image_urls: copy_strings(remote_image_urls),
            },
        ),
        TranscriptItem::AgentMessage { visible_markdown } => {
            if is_blank_text(visible_markdown.as_str()) {
                None
            } else {
                Some(HistoryCellContent::AgentMarkdown { markdown: visible_markdown.clone() })
            }
        },
        TranscriptItem::FunctionCallOutput { delegated } => match delegated {
            Some(d) => Some(HistoryCellContent::DelegatedPrompt { text: delegated_text(d) }),
            None => None,
        },
        TranscriptItem::Plan { text } => {
            if is_blank_text(text.as_str()) {
                None
            } else {
                Some(HistoryCellContent::ProposedPlan { text: text.clone() })
            }
        },
        TranscriptItem::Reasoning { summary_header, summary_text, content } => {
            let raw = match visibility {
                RawReasoningVisibility::Visible => content.len() > 0,
                RawReasoningVisibility::Hidden => false,
            };
            let (header, text) = if raw {
                proof {
                    reveal_strlit("Reasoning");
                    reveal_strlit("\n\n");
                }
                (String::from_str("Reasoning"), join_strings(content, "\n\n"))
            } else {
                (summary_header.clone(), summary_text.clone())
            };
            if is_blank_text(text.as_str()) {
                None
            } else {
                Some(HistoryCellContent::ReasoningSummary { header, text })
            }
        },
        TranscriptItem::CommandExecution { command, status, aggregated_output, exit_code, duration_ms, .. } => Some(
            HistoryCellContent::Plain {
                lines: command_cell_lines_of(command, *status, aggregated_output, *exit_code, *duration_ms),
            },
        ),
        TranscriptItem::Other(thread_item) => match fallback_transcript_cell(thread_item) {
            Some(lines) => Some(HistoryCellContent::Plain { lines }),
            None => None,
        },
    }
}

fn copy_opt_string(o: &Option<String>) -> (r: Option<String>)
    ensures
        r == *o,
{
    match o {
        Some(s) => Some(s.clone()),
        None => None,
    }
}

/// A command execution in the workspace. When the command reads one skill document, the read is
/// recorded with how the command ended, and the catalog of its working directory begins loading
/// unless it was requested already; that directory is returned when a load began.
pub fn workspace_command_cell(
    catalog: &mut WorkspaceSkillCatalog,
    command: &String,
    status: CommandExecutionStatus,
    aggregated_output: &Option<String>,
    exit_code: Option<i32>,
    duration_ms: Option<i64>,
    skill_read: &Option<SkillReadInputs>,
) -> (r: (WorkspaceCommandHistoryCell, Option<String>))
    requires
        old(catalog).wf(),
    ensures
        final(catalog).wf(),
        ({
            let (cell, required, next) = workspace_command_step(
                old(catalog)@,
                *command,
                status,
                *aggregated_output,
                exit_code,
                duration_ms,
                *skill_read,
            );
            &&& HistoryCellContent::WorkspaceCommand(r.0)@ == cell
            &&& opt_chars(r.1) == required
            &&& final(catalog)@ == next
        }),
{
    let read = match skill_read {
        Some(inputs) => {
            let found = classify_workspace_skill_read(
                inputs.source,
                &inputs.argv,
                &inputs.argv_resolved,
                inputs.cwd.clone(),
                copy_opt_string(&inputs.cwd_path),
                &inputs.accesses,
                &inputs.parsed,
                &inputs.shell,
                copy_opt_string(&inputs.document_basename),
            );
            match found {
                Some(p) => {
                    let mut p = p;
                    let outcome = completion_outcome(status, exit_code);
                    p.set_outcome(&*catalog, outcome, aggregated_output, &inputs.document_contents);
                    Some(p)
                },
                None => None,
            }
        },
        None => None,
    };
    let required = match &read {
        Some(p) => p.begin_catalog_refresh_if_needed(catalog),
        None => None,
    };
    let lines = command_cell_lines_of(command, status, aggregated_output, exit_code, duration_ms);
    (WorkspaceCommandHistoryCell { lines, workspace_skill_read: read }, required)
}

/// The cells of the workspace, and the working directories whose skill catalogs began loading
/// while they were made.
pub struct WorkspaceTranscriptProjection {
    pub cells: Vec<HistoryCellContent>,
    pub required_skill_cwds: Vec<String>,
}

fn push_cell(out: &mut Vec<HistoryCellContent>, cell: Option<HistoryCellContent>)
    ensures
        cells_view(final(out)@) == push_some(cells_view(old(out)@), opt_cell_view(cell)),
{
    match cell {
        Some(c) => {
            let ghost v = c@;
            out.push(c);
            assert(cells_view(out@) =~= cells_view(old(out)@).push(v));
        },
        None => {},
    }
}

/// The cells of persisted thread items outside the workspace, in order; items without a cell
/// are skipped.
pub fn thread_items_to_transcript_cells(
    items: &Vec<TranscriptItem>,
    visibility: RawReasoningVisibility,
) -> (r: Vec<HistoryCellContent>)
    ensures
        cells_view(r@) == plain_cells_spec(items@, visibility),
{
    let mut out: Vec<HistoryCellContent> = Vec::new();
    let n = items.len();
    let mut i: usize = 0;
    while i < n
        invariant
            0 <= i <= n,
            n == items@.len(),
            cells_view(out@) == plain_cells_spec(items@.take(i as int), visibility),
        decreases n - i,
    {
        let cell = plain_item_cell(&items[i], visibility);
        push_cell(&mut out, cell);
        proof {
            let t = items@.take(i + 1);
            assert(t.drop_last() =~= items@.take(i as int));
            assert(t.last() == items@[i as int]);
        }
        i += 1;
    }
    assert(items@.take(n as int) =~= items@);
    out
}

/// The cells of persisted thread items in the workspace, in order. Each working directory whose
/// skill catalog began loading for a skill read among them is appended to
/// `required_skill_cwds`.
pub fn thread_items_to_transcript_cells_with_workspace_catalog(
    items: &Vec<TranscriptItem>,
    visibility: RawReasoningVisibility,
    catalog: &mut WorkspaceSkillCatalog,
    required_skill_cwds: &mut Vec<String>,
) -> (r: Vec<HistoryCellContent>)
    requires
        old(catalog).wf(),
    ensures
        final(catalog).wf(),
        ({
            let (cells, required, next) = workspace_cells_spec(old(catalog)@, items@, visibility);
            &&& cells_view(r@) == cells
            &&& strings_view(final(required_skill_cwds)@) == strings_view(old(required_skill_cwds)@) + required
            &&& final(catalog)@ == next
        }),
{
    let mut cells: Vec<HistoryCellContent> = Vec::new();
    let ghost required_start = strings_view(required_skill_cwds@);
    let n = items.len();
    let mut i: usize = 0;
    while i < n
        invariant
            0 <= i <= n,
            n == items@.len(),
            catalog.wf(),
            ({
                let (c, q, e) = workspace_cells_spec(old(catalog)@, items@.take(i as int), visibility);
                &&& cells_view(cells@) == c
                &&& strings_view(required_skill_cwds@) == required_start + q
                &&& catalog@ == e
            }),
        decreases n - i,
    {
        let ghost required_before = strings_view(required_skill_cwds@);
        match &items[i] {
            TranscriptItem::CommandExecution {
                command,
                status,
                aggregated_output,
                exit_code,
                duration_ms,
                skill_read,
            } => {
                let (cell, began) = workspace_command_cell(
                    catalog,
                    command,
                    *status,
                    aggregated_output,
                    *exit_code,
                    *duration_ms,
                    skill_read,
                );
                push_cell(&mut cells, Some(HistoryCellContent::WorkspaceCommand(cell)));
                match began {
                    Some(cwd) => {
                        let ghost v = cwd@;
                        required_skill_cwds.push(cwd);
                        assert(strings_view(required_skill_cwds@) =~= required_before.push(v));
                    },
                    None => {},
                }
            },
            _ => {
                let cell = plain_item_cell(&items[i], visibility);
                push_cell(&mut cells, cell);
            },
        }
        proof {
            let t = items@.take(i + 1);
            assert(t.drop_last() =~= items@.take(i as int));
            assert(t.last() == items@[i as int]);
            let (c0, q0, e0) = workspace_cells_spec(old(catalog)@, items@.take(i as int), visibility);
            let (c1, q1, e1) = workspace_cells_spec(old(catalog)@, t, visibility);
            let (cell, req, next) = workspace_step(e0, items@[i as int], visibility);
            assert(q1 == push_some(q0, req));
            match req {
                Some(x) => assert(required_start + q0.push(x) =~= (required_start + q0).push(x)),
                None => {},
            }
        }
        i += 1;
    }
    assert(items@.take(n as int) =~= items@);
    cells
}

/// The cells of persisted thread items in the workspace, in order, with the working
/// directories whose skill catalogs began loading for the skill reads among them.
pub fn workspace_thread_items_to_transcript_cells_with_required_skill_cwds(
    items: &Vec<TranscriptItem>,
    visibility: RawReasoningVisibility,
    catalog: &mut WorkspaceSkillCatalog,
) -> (r: WorkspaceTranscriptProjection)
    requires
        old(catalog).wf(),
    ensures
        final(catalog).wf(),
        ({
            let (cells, required, next) = workspace_cells_spec(old(catalog)@, items@, visibility);
            &&& cells_view(r.cells@) == cells
            &&& strings_view(r.required_skill_cwds@) == required
            &&& final(catalog)@ == next
        }),
{
    let mut required_skill_cwds: Vec<String> = Vec::new();
    let cells = thread_items_to_transcript_cells_with_workspace_catalog(
        items,
        visibility,
        catalog,
        &mut required_skill_cwds,
    );
    assert(strings_view(Seq::<String>::empty()) =~= Seq::<Seq<char>>::empty());
    proof {
        let (c, q, e) = workspace_cells_spec(old(catalog)@, items@, visibility);
        assert(Seq::<Seq<char>>::empty() + q =~= q);
    }
    WorkspaceTranscriptProjection { cells, required_skill_cwds }
}

/// The items of the turns, in order.
pub open spec fn turn_items(turns: Seq<Vec<TranscriptItem>>) -> Seq<TranscriptItem>
    decreases turns.len(),
{
    if turns.len() == 0 {
        Seq::empty()
    } else {
        turn_items(turns.drop_last()) + turns.last()@
    }
}

/// The cells of a persisted thread: those of the items of all its turns, or the notice that it
/// has no transcript content when there are none.
pub fn thread_to_transcript_cells(
    turns: &Vec<Vec<TranscriptItem>>,
    visibility: RawReasoningVisibility,
) -> (r: Vec<HistoryCellContent>)
    ensures
        ({
            let cells = plain_cells_spec(turn_items(turns@), visibility);
            cells_view(r@) == if cells.len() == 0 {
                seq![CellModel::NoTranscriptContent]
            } else {
                cells
            }
        }),
{
    let mut cells: Vec<HistoryCellContent> = Vec::new();
    let n = turns.len();
    let mut t: usize = 0;
    while t < n
        invariant
            0 <= t <= n,
            n == turns@.len(),
            cells_view(cells@) == plain_cells_spec(turn_items(turns@.take(t as int)), visibility),
        decreases n - t,
    {
        let turn = &turns[t];
        let m = turn.len();
        let mut j: usize = 0;
        let ghost start = turn_items(turns@.take(t as int));
        while j < m
            invariant
                0 <= j <= m,
                m == turn@.len(),
                cells_view(cells@) == plain_cells_spec(start + turn@.take(j as int), visibility),
            decreases m - j,
        {
            let cell = plain_item_cell(&turn[j], visibility);
            push_cell(&mut cells, cell);
            proof {
                let s2 = start + turn@.take(j + 1);
                assert(s2.drop_last() =~= start + turn@.take(j as int));
                assert(s2.last() == turn@[j as int]);
            }
            j += 1;
        }
        proof {
            let tk = turns@.take(t + 1);
            assert(tk.drop_last() =~= turns@.take(t as int));
            assert(tk.last() == *turn);
            assert(turn@.take(m as int) =~= turn@);
        }
        t += 1;
    }
    assert(turns@.take(n as int) =~= turns@);
    if cells.len() == 0 {
        cells.push(HistoryCellContent::NoTranscriptContent);
        assert(cells_view(cells@) =~= seq![CellModel::NoTranscriptContent]);
    }
    cells
}

impl WorkspaceCommandHistoryCell {
    /// The cell's height may be cached only when no skill read can later shrink it.
    pub fn has_stable_transcript_height(&self) -> (r: bool)
        ensures
            r == self.workspace_skill_read.is_none(),
    {
        self.workspace_skill_read.is_none()
    }

    /// The summary the workspace shows in place of the command's lines, once the skill read
    /// succeeded and the catalog lists its document; nothing while the lines are shown.
    pub fn workspace_transcript_summary(&self, catalog: &WorkspaceSkillCatalog) -> (r: Option<WorkspaceReadSummary>)
        requires
            catalog.wf(),
        ensures
            match self.workspace_skill_read {
                None => r is None,
                Some(p) => if p.outcome == WorkspaceCommandOutcome::Succeeded {
                    match summary_spec(catalog@, p.candidate) {
                        Some(name) => r matches Some(s) && s.name@ == name,
                        None => r is None,
                    }
                } else {
                    r is None
                },
            },
    {
        match &self.workspace_skill_read {
            Some(p) => p.summary(catalog),
            None => None,
        }
    }
}

pub open spec fn is_command_execution(item: TranscriptItem) -> bool {
    item is CommandExecution
}

/// Each item becomes at most one cell, in the workspace and outside it.
pub proof fn law_each_item_gives_at_most_one_cell(
    es: Seq<EntryModel>,
    items: Seq<TranscriptItem>,
    visibility: RawReasoningVisibility,
)
    ensures
        plain_cells_spec(items, visibility).len() <= items.len(),
        workspace_cells_spec(es, items, visibility).0.len() <= items.len(),
    decreases items.len(),
{
    if items.len() > 0 {
        law_each_item_gives_at_most_one_cell(es, items.drop_last(), visibility);
    }
}

/// Items without a command execution give the same cells in the workspace as outside it, load
/// no skill catalog and leave the catalog as it was.
pub proof fn law_workspace_differs_only_at_commands(
    es: Seq<EntryModel>,
    items: Seq<TranscriptItem>,
    visibility: RawReasoningVisibility,
)
    requires
        forall|i: int| 0 <= i < items.len() ==> !is_command_execution(#[trigger] items[i]),
    ensures
        workspace_cells_spec(es, items, visibility) == (
            plain_cells_spec(items, visibility),
            Seq::<Seq<char>>::empty(),
            es,
        ),
    decreases items.len(),
{
    if items.len() > 0 {
        let rest = items.drop_last();
        assert forall|i: int| 0 <= i < rest.len() implies !is_command_execution(#[trigger] rest[i]) by {
            assert(rest[i] == items[i]);
        }
        law_workspace_differs_only_at_commands(es, rest, visibility);
        assert(!is_command_execution(items[items.len() - 1]));
    }
}

/// A user message becomes a user cell that carries the message's text, its local image paths
/// and its remote image URLs unchanged, in order, whatever the reasoning visibility.
pub proof fn law_user_message_keeps_its_images(item: TranscriptItem, visibility: RawReasoningVisibility)
    requires
        item is UserMessage,
    ensures
        match item {
            TranscriptItem::UserMessage { message, local_image_paths, remote_image_urls } => match plain_cell_spec(
                item,
                visibility,
            ) {
                Some(CellModel::User { message: m, local_image_paths: l, remote_image_urls: u }) => {
                    &&& m == message@
                    &&& l.len() == local_image_paths@.len()
                    &&& forall|i: int| 0 <= i < l.len() ==> #[trigger] l[i] == local_image_paths@[i]@
                    &&& u.len() == remote_image_urls@.len()
                    &&& forall|i: int| 0 <= i < u.len() ==> #[trigger] u[i] == remote_image_urls@[i]@
                },
                _ => false,
            },
            _ => true,
        },
{
}

/// A persisted skill read counts as confirmed only when its command completed with exit code 0,
/// the catalog lists the document with the fingerprint of its current contents, and, for a read
/// after `pwd`, the output begins with the working directory.
pub proof fn law_confirmed_read_conditions(
    es: Seq<EntryModel>,
    status: CommandExecutionStatus,
    exit_code: Option<i32>,
    aggregated_output: Option<String>,
    inputs: SkillReadInputs,
)
    ensures
        match recorded_read_spec(es, status, exit_code, aggregated_output, inputs) {
            Some(m) => m.outcome == WorkspaceCommandOutcome::Succeeded ==> {
                &&& status == CommandExecutionStatus::Completed
                &&& exit_code == Some(0i32)
                &&& document_matches(es, inputs.cwd@, m.document, inputs.document_contents)
                &&& (m.requires_pwd_output ==> pwd_output_ok(true, inputs.cwd_path, aggregated_output))
            },
            None => true,
        },
{
}

} // verus!
