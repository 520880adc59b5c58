//! The text of rendered transcript lines, and the marker of the workspace's fold target.
//!
//! A user prompt is drawn with the marker `› ` at the start of its first line. The workspace
//! replaces that marker with `▸ ` on the prompt of the selected turn; the marked text has as many
//! characters as the text it replaces.

use vstd::prelude::*;

verus! {

/// A rendered line as the transcript reads it: the text of its spans, in order.
#[derive(Clone, Debug)]
pub struct TextLine {
    pub spans: Vec<String>,
}

impl View for TextLine {
    type V = Seq<Seq<char>>;

    open spec fn view(&self) -> Seq<Seq<char>> {
        self.spans@.map_values(|s: String| s@)
    }
}

/// The view of each line.
pub open spec fn lines_view(lines: Seq<TextLine>) -> Seq<Seq<Seq<char>>> {
    lines.map_values(|l: TextLine| l@)
}

/// The user-turn marker: `›` and a space.
pub open spec fn has_user_marker(s: Seq<char>) -> bool {
    s.len() >= 2 && s[0] == '›' && s[1] == ' '
}

/// The span with its user-turn marker replaced by the target marker `▸ `.
pub open spec fn target_marked(s: Seq<char>) -> Seq<char> {
    seq!['▸', ' '] + s.subrange(2, s.len() as int)
}

/// The line whose first span starts with the user-turn marker.
pub open spec fn is_marker_line(l: Seq<Seq<char>>) -> bool {
    l.len() > 0 && has_user_marker(l[0])
}

/// The first line of `lines` whose first span starts with the user-turn marker.
pub open spec fn first_marker_line(lines: Seq<Seq<Seq<char>>>) -> Option<int> {
    if exists|i: int| 0 <= i < lines.len() && is_marker_line(#[trigger] lines[i]) {
        Some(choose|i: int| 0 <= i < lines.len() && is_marker_line(#[trigger] lines[i]) && forall|j: int|
            0 <= j < i ==> !is_marker_line(#[trigger] lines[j]))
    } else {
        None
    }
}

/// The lines with the first user-turn marker replaced by the target marker.
pub open spec fn mark_target_spec(lines: Seq<Seq<Seq<char>>>) -> Seq<Seq<Seq<char>>> {
    match first_marker_line(lines) {
        Some(i) => lines.update(i, lines[i].update(0, target_marked(lines[i][0]))),
        None => lines,
    }
}

/// Whether `s` starts with the user-turn marker.
pub fn starts_with_user_marker(s: &String) -> (r: bool)
    ensures
        r == has_user_marker(s@),
{
    let text = s.as_str();
    let n = text.unicode_len();
    n >= 2 && text.get_char(0) == '›' && text.get_char(1) == ' '
}

/// Replaces the standard user-turn marker of the first marked line with the target marker.
pub fn mark_workspace_target(lines: Vec<TextLine>) -> (r: Vec<TextLine>)
    ensures
        lines_view(r@) == mark_target_spec(lines_view(lines@)),
{
    let ghost v = lines_view(lines@);
    let mut out = lines;
    let n = out.len();
    let mut i: usize = 0;
    while i < n
        invariant
            0 <= i <= n,
            n == out@.len(),
            lines_view(out@) == v,
            v == lines_view(lines@),
            v.len() == n,
            forall|j: int| 0 <= j < i ==> !is_marker_line(#[trigger] v[j]),
        decreases n - i,
    {
        assert(v[i as int] == out@[i as int]@);
        if out[i].spans.len() > 0 && starts_with_user_marker(&out[i].spans[0]) {
            assert(is_marker_line(v[i as int]));
            let rest = out[i].spans[0].as_str().substring_char(2, out[i].spans[0].as_str().unicode_len());
            let mut marked = String::from_str("▸ ");
            marked.append(rest);
            proof {
                reveal_strlit("▸ ");
                assert(marked@ =~= target_marked(v[i as int][0]));
            }
            let mut line = out.remove(i);
            line.spans.set(0, marked);
            out.insert(i, line);
            proof {
                let w = lines_view(out@);
                assert(first_marker_line(v) == Some(i as int));
                assert(w =~= mark_target_spec(v)) by {
                    assert forall|j: int| 0 <= j < n implies w[j] == mark_target_spec(v)[j] by {
                        if j == i {
                            assert(out@[j]@ =~= v[j].update(0, target_marked(v[j][0])));
                        }
                    }
                }
            }
            return out;
        }
        i += 1;
    }
    proof {
        assert(first_marker_line(v) is None);
    }
    out
}

/// The text of one line: its spans concatenated.
pub open spec fn line_text(l: Seq<Seq<char>>) -> Seq<char>
    decreases l.len(),
{
    if l.len() == 0 {
        Seq::empty()
    } else {
        line_text(l.drop_last()) + l.last()
    }
}

/// The text of all lines, separated by newlines.
pub open spec fn joined_text(lines: Seq<Seq<Seq<char>>>) -> Seq<char>
    decreases lines.len(),
{
    if lines.len() == 0 {
        Seq::empty()
    } else if lines.len() == 1 {
        line_text(lines[0])
    } else {
        joined_text(lines.drop_last()) + seq!['\n'] + line_text(lines.last())
    }
}

/// The text of the lines, one line per row, separated by newlines.
pub fn joined_workspace_lines(lines: &Vec<TextLine>) -> (r: String)
    ensures
        r@ == joined_text(lines_view(lines@)),
{
    let ghost v = lines_view(lines@);
    let mut out = String::new();
    let n = lines.len();
    let mut i: usize = 0;
    while i < n
        invariant
            0 <= i <= n,
            n == lines@.len(),
            v == lines_view(lines@),
            out@ == joined_text(v.take(i as int)),
        decreases n - i,
    {
        if i > 0 {
            out.append("\n");
            proof {
                reveal_strlit("\n");
            }
        }
        let ghost before = out@;
        let line = &lines[i];
        let m = line.spans.len();
        let mut k: usize = 0;
        while k < m
            invariant
                0 <= k <= m,
                m == line.spans@.len(),
                out@ == before + line_text(line@.take(k as int)),
            decreases m - k,
        {
            out.append(line.spans[k].as_str());
            proof {
                assert(line@.take(k + 1).drop_last() =~= line@.take(k as int));
                assert(line@[k as int] == line.spans@[k as int]@);
            }
            k += 1;
        }
        proof {
            assert(line@.take(m as int) =~= line@);
            assert(v.take(i + 1).drop_last() =~= v.take(i as int));
            assert(v[i as int] == line@);
            assert(v.take(i + 1).last() == line@);
            if i == 0 {
                assert(v.take(1).len() == 1);
            }
        }
        i += 1;
    }
    proof {
        assert(v.take(n as int) =~= v);
    }
    out
}

} // verus!
