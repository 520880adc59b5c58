//! The plain transcript lines of persisted thread items that have no dedicated history cell.
//!
//! A persisted thread item carries what the app server recorded: commands with their status and
//! output, tool calls, searches, reviews. Items without a richer presentation are shown as a few
//! dim text lines. Statuses are carried as the names the app server's types print.

use crate::text::{
    decimal_chars, is_blank, is_blank_text, lines_spec, push_char, push_decimal_chars, push_signed_decimal, signed_decimal,
    text_lines,
    trim, trim_end, trim_end_spec, trim_spec,
};
use vstd::prelude::*;

verus! {

/// A run of text, dim or in the normal style.
#[derive(Clone, Debug)]
pub struct StyledSpan {
    pub text: String,
    pub dim: bool,
}

/// A line of styled spans.
#[derive(Clone, Debug)]
pub struct StyledLine {
    pub spans: Vec<StyledSpan>,
}

impl View for StyledLine {
    type V = Seq<(Seq<char>, bool)>;

    open spec fn view(&self) -> Seq<(Seq<char>, bool)> {
        self.spans@.map_values(|s: StyledSpan| (s.text@, s.dim))
    }
}

pub open spec fn styled_lines_view(lines: Seq<StyledLine>) -> Seq<Seq<(Seq<char>, bool)>> {
    lines.map_values(|l: StyledLine| l@)
}

/// A persisted thread item, as far as its fallback lines read it.
#[derive(Clone, Debug)]
pub enum ThreadItem {
    UserMessage,
    AgentMessage,
    FunctionCallOutput,
    Plan,
    Reasoning,
    Sleep,
    /// The texts of a hook prompt's fragments.
    HookPrompt { fragments: Vec<String> },
    /// A command, with its run time in milliseconds when it is known.
    CommandExecution {
        command: String,
        status: String,
        aggregated_output: Option<String>,
        exit_code: Option<i32>,
        duration_ms: Option<i64>,
    },
    FileChange { status: String, change_count: usize },
    McpToolCall { server: String, tool: String, status: String },
    DynamicToolCall { namespace: Option<String>, tool: String, status: String },
    CollabAgentToolCall { tool: String, status: String },
    /// The activity's one-line summary.
    SubAgentActivity { summary: String },
    WebSearch { query: String },
    /// The image path as the UI shows it.
    ImageView { path: String },
    ImageGeneration { status: String, saved_path: Option<String> },
    EnteredReviewMode { review: String },
    ExitedReviewMode { review: String },
    ContextCompaction,
}

pub open spec fn dim_line(text: Seq<char>) -> Seq<(Seq<char>, bool)> {
    seq![(text, true)]
}

pub open spec fn labeled_line(label: Seq<char>, text: Seq<char>) -> Seq<(Seq<char>, bool)> {
    seq![(label, true), (text, false)]
}

/// Two decimal digits of `n` (below 100), with a leading zero.
pub open spec fn two_digits(n: int) -> Seq<char> {
    if n < 10 {
        seq!['0'] + decimal_chars(n as nat)
    } else {
        decimal_chars(n as nat)
    }
}

/// A run time of `ms` milliseconds as the transcript shows it: milliseconds below a second
/// (`250ms`), seconds with two decimals below a minute, the last digit rounded half up
/// (`1.25s`), else minutes and two-digit seconds (`2m 05s`).
pub open spec fn duration_text_spec(ms: int) -> Seq<char> {
    if ms < 1000 {
        signed_decimal(ms) + "ms"@
    } else if ms < 60000 {
        let hundredths = (ms + 5) / 10;
        decimal_chars((hundredths / 100) as nat) + "."@ + two_digits(hundredths % 100) + "s"@
    } else {
        decimal_chars((ms / 60000) as nat) + "m "@ + two_digits((ms % 60000) / 1000) + "s"@
    }
}

/// The lines of a command execution: the command; its status, with the exit code and the run
/// time when they are known; and the output lines (trimmed at the end, indented) unless the
/// output is blank.
pub open spec fn command_lines_spec(
    command: Seq<char>,
    status: Seq<char>,
    output: Option<Seq<char>>,
    exit_code: Option<i32>,
    duration_ms: Option<i64>,
) -> Seq<Seq<(Seq<char>, bool)>> {
    let exit = match exit_code {
        Some(code) => " · exit "@ + signed_decimal(code as int),
        None => Seq::empty(),
    };
    let duration = match duration_ms {
        Some(ms) => " · "@ + duration_text_spec(ms as int),
        None => Seq::empty(),
    };
    let head = seq![labeled_line("$ "@, command), dim_line("status: "@ + status + exit + duration)];
    match output {
        Some(out) => if is_blank(out) {
            head
        } else {
            head + lines_spec(out).map_values(|l: Seq<char>| seq![("  "@, true), (trim_end_spec(l), true)])
        },
        None => head,
    }
}

/// The fallback lines of an item, when it has some.
pub open spec fn fallback_lines_spec(item: ThreadItem) -> Option<Seq<Seq<(Seq<char>, bool)>>> {
    let lines = match item {
        ThreadItem::HookPrompt { fragments } => Some(
            fragments@.map_values(|f: String| labeled_line("hook prompt: "@, trim_spec(f@))),
        ),
        ThreadItem::CommandExecution { command, status, aggregated_output, exit_code, duration_ms } => Some(
            command_lines_spec(
                command@,
                status@,
                match aggregated_output {
                    Some(o) => Some(o@),
                    None => None,
                },
                exit_code,
                duration_ms,
            ),
        ),
        ThreadItem::FileChange { status, change_count } => Some(
            seq![dim_line("file changes: "@ + status@ + " · "@ + decimal_chars(change_count as nat) + " changes"@)],
        ),
        ThreadItem::McpToolCall { server, tool, status } => Some(
            seq![dim_line("mcp tool: "@ + server@ + "/"@ + tool@ + " · "@ + status@)],
        ),
        ThreadItem::DynamicToolCall { namespace, tool, status } => {
            let name = match namespace {
                Some(ns) => ns@ + "/"@ + tool@,
                None => tool@,
            };
            Some(seq![dim_line("tool: "@ + name + " · "@ + status@)])
        },
        ThreadItem::CollabAgentToolCall { tool, status } => Some(
            seq![dim_line("agent tool: "@ + tool@ + " · "@ + status@)],
        ),
        ThreadItem::SubAgentActivity { summary } => Some(seq![dim_line(summary@)]),
        ThreadItem::WebSearch { query } => Some(seq![labeled_line("web search: "@, query@)]),
        ThreadItem::ImageView { path } => Some(seq![dim_line("image: "@ + path@)]),
        ThreadItem::ImageGeneration { status, saved_path } => {
            let saved = match saved_path {
                Some(p) => " · "@ + p@,
                None => Seq::empty(),
            };
            Some(seq![dim_line("image generation: "@ + status@ + saved)])
        },
        ThreadItem::EnteredReviewMode { review } => Some(seq![labeled_line("review started: "@, review@)]),
        ThreadItem::ExitedReviewMode { review } => Some(seq![labeled_line("review finished: "@, review@)]),
        ThreadItem::ContextCompaction => Some(seq![dim_line("context compacted"@)]),
        _ => None,
    };
    match lines {
        Some(l) => if l.len() > 0 {
            Some(l)
        } else {
            None
        },
        None => None,
    }
}

/// A string of the given text.
fn text_of(s: &str) -> (r: String)
    ensures
        r@ == s@,
{
    String::from_str(s)
}

fn one_span_line(text: String, dim: bool) -> (r: StyledLine)
    ensures
        r@ == seq![(text@, dim)],
{
    let ghost v = text@;
    let line = StyledLine { spans: vec![StyledSpan { text, dim }] };
    assert(line@ =~= seq![(v, dim)]);
    line
}

fn labeled(label: &str, text: String) -> (r: StyledLine)
    ensures
        r@ == labeled_line(label@, text@),
{
    let ghost v = text@;
    let line = StyledLine { spans: vec![StyledSpan { text: text_of(label), dim: true }, StyledSpan { text, dim: false }] };
    assert(line@ =~= labeled_line(label@, v));
    line
}

fn single(line: StyledLine) -> (r: Vec<StyledLine>)
    ensures
        styled_lines_view(r@) == seq![line@],
{
    let ghost v = line@;
    let r = vec![line];
    assert(styled_lines_view(r@) =~= seq![v]);
    r
}

/// Appends two decimal digits of `n`, with a leading zero.
fn push_two_digits(out: &mut String, n: u64)
    requires
        n < 100,
    ensures
        final(out)@ == old(out)@ + two_digits(n as int),
{
    if n < 10 {
        push_char(out, '0');
        push_decimal_chars(out, n);
        assert(out@ =~= old(out)@ + two_digits(n as int));
    } else {
        push_decimal_chars(out, n);
    }
}

/// Appends a run time of `ms` milliseconds as the transcript shows it.
pub fn push_duration_text(out: &mut String, ms: i64)
    ensures
        final(out)@ == old(out)@ + duration_text_spec(ms as int),
{
    proof {
        reveal_strlit("ms");
        reveal_strlit(".");
        reveal_strlit("s");
        reveal_strlit("m ");
    }
    if ms < 1000 {
        push_signed_decimal(out, ms);
        out.append("ms");
        assert(out@ =~= old(out)@ + duration_text_spec(ms as int));
    } else if ms < 60000 {
        let hundredths: u64 = ((ms + 5) / 10) as u64;
        push_decimal_chars(out, hundredths / 100);
        out.append(".");
        push_two_digits(out, hundredths % 100);
        out.append("s");
        assert(out@ =~= old(out)@ + duration_text_spec(ms as int));
    } else {
        let minutes: u64 = (ms / 60000) as u64;
        let seconds: u64 = ((ms % 60000) / 1000) as u64;
        push_decimal_chars(out, minutes);
        out.append("m ");
        push_two_digits(out, seconds);
        out.append("s");
        assert(out@ =~= old(out)@ + duration_text_spec(ms as int));
    }
}

/// The lines of a command execution.
pub fn command_execution_fallback_lines(
    command: &str,
    status: &str,
    aggregated_output: Option<&str>,
    exit_code: Option<i32>,
    duration_ms: Option<i64>,
) -> (r: Vec<StyledLine>)
    ensures
        styled_lines_view(r@) == command_lines_spec(
            command@,
            status@,
            match aggregated_output {
                Some(o) => Some(o@),
                None => None,
            },
            exit_code,
            duration_ms,
        ),
{
    let mut lines: Vec<StyledLine> = Vec::new();
    lines.push(labeled("$ ", text_of(command)));
    let mut status_text = text_of("status: ");
    status_text.append(status);
    let ghost exit = match exit_code {
        Some(code) => " · exit "@ + signed_decimal(code as int),
        None => Seq::<char>::empty(),
    };
    match exit_code {
        Some(code) => {
            status_text.append(" · exit ");
            push_signed_decimal(&mut status_text, code as i64);
            assert(status_text@ =~= "status: "@ + status@ + exit);
        },
        None => {
            assert(status_text@ =~= "status: "@ + status@ + exit);
        },
    }
    let ghost duration = match duration_ms {
        Some(ms) => " · "@ + duration_text_spec(ms as int),
        None => Seq::<char>::empty(),
    };
    match duration_ms {
        Some(ms) => {
            status_text.append(" · ");
            push_duration_text(&mut status_text, ms);
            assert(status_text@ =~= "status: "@ + status@ + exit + duration);
        },
        None => {
            assert(status_text@ =~= "status: "@ + status@ + exit + duration);
        },
    }
    lines.push(one_span_line(status_text, true));
    let ghost head = styled_lines_view(lines@);
    assert(head =~= seq![labeled_line("$ "@, command@), dim_line("status: "@ + status@ + exit + duration)]);
    if let Some(output) = aggregated_output {
        if !is_blank_text(output) {
            let body = text_lines(output);
            let ghost ls = lines_spec(output@);
            let n = body.len();
            let mut i: usize = 0;
            while i < n
                invariant
                    0 <= i <= n,
                    n == body@.len(),
                    body@.map_values(|l: String| l@) == ls,
                    styled_lines_view(lines@) == head + ls.take(i as int).map_values(
                        |l: Seq<char>| seq![("  "@, true), (trim_end_spec(l), true)],
                    ),
                decreases n - i,
            {
                let ghost before = styled_lines_view(lines@);
                let trimmed = trim_end(body[i].as_str());
                let indent = text_of("  ");
                let ghost tv = trimmed@;
                let line = StyledLine { spans: vec![StyledSpan { text: indent, dim: true }, StyledSpan { text: trimmed, dim: true }] };
                assert(line@ =~= seq![("  "@, true), (tv, true)]);
                lines.push(line);
                proof {
                    assert(ls[i as int] == body@[i as int]@);
                    assert(styled_lines_view(lines@) =~= before.push(seq![("  "@, true), (tv, true)]));
                    assert(ls.take(i + 1).map_values(|l: Seq<char>| seq![("  "@, true), (trim_end_spec(l), true)])
                        =~= ls.take(i as int).map_values(|l: Seq<char>| seq![("  "@, true), (trim_end_spec(l), true)]).push(
                        seq![("  "@, true), (trim_end_spec(ls[i as int]), true)],
                    ));
                }
                i += 1;
            }
            proof {
                assert(ls.take(n as int) =~= ls);
            }
        }
    }
    lines
}

/// The fallback lines of a persisted thread item without a dedicated history cell; nothing for
/// items that have one, and nothing when there would be no line.
pub fn fallback_transcript_cell(item: &ThreadItem) -> (r: Option<Vec<StyledLine>>)
    ensures
        match r {
            Some(lines) => fallback_lines_spec(*item) == Some(styled_lines_view(lines@)),
            None => fallback_lines_spec(*item) is None,
        },
{
    let lines: Vec<StyledLine> = match item {
        ThreadItem::HookPrompt { fragments } => {
            let mut out: Vec<StyledLine> = Vec::new();
            let n = fragments.len();
            let mut i: usize = 0;
            while i < n
                invariant
                    0 <= i <= n,
                    n == fragments@.len(),
                    styled_lines_view(out@) == fragments@.take(i as int).map_values(
                        |f: String| labeled_line("hook prompt: "@, trim_spec(f@)),
                    ),
                decreases n - i,
            {
                let ghost before = styled_lines_view(out@);
                let line = labeled("hook prompt: ", trim(fragments[i].as_str()));
                out.push(line);
                proof {
                    assert(styled_lines_view(out@) =~= before.push(labeled_line("hook prompt: "@, trim_spec(fragments@[i as int]@))));
                    assert(fragments@.take(i + 1).map_values(|f: String| labeled_line("hook prompt: "@, trim_spec(f@)))
                        =~= fragments@.take(i as int).map_values(|f: String| labeled_line("hook prompt: "@, trim_spec(f@))).push(
                        labeled_line("hook prompt: "@, trim_spec(fragments@[i as int]@)),
                    ));
                }
                i += 1;
            }
            assert(fragments@.take(n as int) =~= fragments@);
            out
        },
        ThreadItem::CommandExecution { command, status, aggregated_output, exit_code, duration_ms } => {
            let output = match aggregated_output {
                Some(o) => Some(o.as_str()),
                None => None,
            };
            command_execution_fallback_lines(command.as_str(), status.as_str(), output, *exit_code, *duration_ms)
        },
        ThreadItem::FileChange { status, change_count } => {
            let mut text = text_of("file changes: ");
            text.append(status.as_str());
            text.append(" · ");
            push_decimal_chars(&mut text, *change_count as u64);
            text.append(" changes");
            single(one_span_line(text, true))
        },
        ThreadItem::McpToolCall { server, tool, status } => {
            let mut text = text_of("mcp tool: ");
            text.append(server.as_str());
            text.append("/");
            text.append(tool.as_str());
            text.append(" · ");
            text.append(status.as_str());
            single(one_span_line(text, true))
        },
        ThreadItem::DynamicToolCall { namespace, tool, status } => {
            let mut text = text_of("tool: ");
            if let Some(ns) = namespace {
                text.append(ns.as_str());
                text.append("/");
            }
            text.append(tool.as_str());
            let ghost name = match namespace {
                Some(ns) => ns@ + "/"@ + tool@,
                None => tool@,
            };
            assert(text@ =~= "tool: "@ + name);
            text.append(" · ");
            text.append(status.as_str());
            single(one_span_line(text, true))
        },
        ThreadItem::CollabAgentToolCall { tool, status } => {
            let mut text = text_of("agent tool: ");
            text.append(tool.as_str());
            text.append(" · ");
            text.append(status.as_str());
            single(one_span_line(text, true))
        },
        ThreadItem::SubAgentActivity { summary } => single(one_span_line(summary.clone(), true)),
        ThreadItem::WebSearch { query } => single(labeled("web search: ", query.clone())),
        ThreadItem::ImageView { path } => {
            let mut text = text_of("image: ");
            text.append(path.as_str());
            single(one_span_line(text, true))
        },
        ThreadItem::ImageGeneration { status, saved_path } => {
            let mut text = text_of("image generation: ");
            text.append(status.as_str());
            let ghost before = text@;
            if let Some(p) = saved_path {
                text.append(" · ");
                text.append(p.as_str());
                assert(text@ =~= before + (" · "@ + p@));
            } else {
                assert(text@ =~= before + Seq::<char>::empty());
            }
            single(one_span_line(text, true))
        },
        ThreadItem::EnteredReviewMode { review } => single(labeled("review started: ", review.clone())),
        ThreadItem::ExitedReviewMode { review } => single(labeled("review finished: ", review.clone())),
        ThreadItem::ContextCompaction => single(one_span_line(text_of("context compacted"), true)),
        _ => {
            return None;
        },
    };
    if lines.len() == 0 {
        return None;
    }
    Some(lines)
}

} // verus!
