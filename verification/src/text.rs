//! Character-level text operations: whitespace, trimming, lines, and decimal numbers.

use vstd::prelude::*;

verus! {

/// The characters with the Unicode `White_Space` property, as `char::is_whitespace` tests them.
pub open spec fn is_whitespace_spec(c: char) -> bool {
    ('\u{9}' <= c && c <= '\u{d}') || c == ' ' || c == '\u{85}' || c == '\u{a0}' || c == '\u{1680}' || (
    '\u{2000}' <= c && c <= '\u{200a}') || c == '\u{2028}' || c == '\u{2029}' || c == '\u{202f}' || c == '\u{205f}'
        || c == '\u{3000}'
}

/// Whether `c` has the Unicode `White_Space` property.
pub fn is_whitespace(c: char) -> (r: bool)
    ensures
        r == is_whitespace_spec(c),
{
    ('\u{9}' <= c && c <= '\u{d}') || c == ' ' || c == '\u{85}' || c == '\u{a0}' || c == '\u{1680}' || (
    '\u{2000}' <= c && c <= '\u{200a}') || c == '\u{2028}' || c == '\u{2029}' || c == '\u{202f}' || c == '\u{205f}'
        || c == '\u{3000}'
}

/// std's `String::push`: appends one character.
#[verifier::external_body]
pub(crate) fn push_char(s: &mut String, c: char)
    ensures
        final(s)@ == old(s)@.push(c),
{
    s.push(c)
}

/// The characters of `text`.
pub fn chars_of(text: &str) -> (r: Vec<char>)
    ensures
        r@ == text@,
{
    let n = text.unicode_len();
    let mut it = text.chars();
    let mut out: Vec<char> = Vec::new();
    let mut i: usize = 0;
    while i < n
        invariant
            0 <= i <= n,
            n == text@.len(),
            vstd::std_specs::iter::IteratorSpec::remaining(&it) == text@.skip(i as int),
            out@ == text@.take(i as int),
        decreases n - i,
    {
        match it.next() {
            Some(c) => {
                out.push(c);
            },
            None => {
                assert(false);
            },
        }
        i += 1;
        assert(out@ =~= text@.take(i as int));
        assert(vstd::std_specs::iter::IteratorSpec::remaining(&it) =~= text@.skip(i as int));
    }
    assert(out@ =~= text@);
    out
}

/// The string of the characters `chars[from..to]`.
pub fn string_of(chars: &Vec<char>, from: usize, to: usize) -> (r: String)
    requires
        from <= to <= chars@.len(),
    ensures
        r@ == chars@.subrange(from as int, to as int),
{
    let mut out = String::new();
    let mut i = from;
    while i < to
        invariant
            from <= i <= to <= chars@.len(),
            out@ == chars@.subrange(from as int, i as int),
        decreases to - i,
    {
        push_char(&mut out, chars[i]);
        i += 1;
        assert(out@ =~= chars@.subrange(from as int, i as int));
    }
    out
}

/// Every character is whitespace.
pub open spec fn is_blank(s: Seq<char>) -> bool {
    forall|i: int| 0 <= i < s.len() ==> is_whitespace_spec(#[trigger] s[i])
}

/// The length of `s` without its trailing whitespace.
pub open spec fn trimmed_end_len(s: Seq<char>) -> nat
    decreases s.len(),
{
    if s.len() > 0 && is_whitespace_spec(s.last()) {
        trimmed_end_len(s.drop_last())
    } else {
        s.len()
    }
}

/// `s` without trailing whitespace, as `str::trim_end` gives it.
pub open spec fn trim_end_spec(s: Seq<char>) -> Seq<char> {
    s.take(trimmed_end_len(s) as int)
}

/// The number of leading whitespace characters of `s`.
pub open spec fn leading_ws_len(s: Seq<char>) -> nat
    decreases s.len(),
{
    if s.len() > 0 && is_whitespace_spec(s[0]) {
        1 + leading_ws_len(s.drop_first())
    } else {
        0
    }
}

/// `s` without leading and trailing whitespace, as `str::trim` gives it.
pub open spec fn trim_spec(s: Seq<char>) -> Seq<char> {
    trim_end_spec(s.skip(leading_ws_len(s) as int))
}

proof fn lemma_trimmed_end_len(s: Seq<char>, k: int)
    requires
        0 <= k <= s.len(),
        forall|j: int| k <= j < s.len() ==> is_whitespace_spec(#[trigger] s[j]),
        k == 0 || !is_whitespace_spec(s[k - 1]),
    ensures
        trimmed_end_len(s) == k,
    decreases s.len(),
{
    if s.len() > k {
        assert forall|j: int| k <= j < s.drop_last().len() implies is_whitespace_spec(#[trigger] s.drop_last()[j]) by {
            assert(s.drop_last()[j] == s[j]);
        }
        if k > 0 {
            assert(s.drop_last()[k - 1] == s[k - 1]);
        }
        lemma_trimmed_end_len(s.drop_last(), k);
    }
}

proof fn lemma_leading_ws_len(s: Seq<char>, k: int)
    requires
        0 <= k <= s.len(),
        forall|j: int| 0 <= j < k ==> is_whitespace_spec(#[trigger] s[j]),
        k == s.len() || !is_whitespace_spec(s[k]),
    ensures
        leading_ws_len(s) == k,
    decreases k,
{
    if k > 0 {
        let t = s.drop_first();
        assert forall|j: int| 0 <= j < k - 1 implies is_whitespace_spec(#[trigger] t[j]) by {
            assert(t[j] == s[j + 1]);
        }
        if k < s.len() {
            assert(t[k - 1] == s[k]);
        }
        lemma_leading_ws_len(t, k - 1);
    }
}

/// The end of `chars[from..to]` without its trailing whitespace.
fn trim_end_index(chars: &Vec<char>, from: usize, to: usize) -> (r: usize)
    requires
        from <= to <= chars@.len(),
    ensures
        from <= r <= to,
        r - from == trimmed_end_len(chars@.subrange(from as int, to as int)),
{
    let ghost s = chars@.subrange(from as int, to as int);
    let mut end = to;
    while end > from && is_whitespace(chars[end - 1])
        invariant
            from <= end <= to <= chars@.len(),
            s == chars@.subrange(from as int, to as int),
            forall|j: int| end - from <= j < s.len() ==> is_whitespace_spec(#[trigger] s[j]),
        decreases end,
    {
        assert(s[end - 1 - from] == chars@[end - 1]);
        end -= 1;
    }
    proof {
        if end > from {
            assert(s[end - from - 1] == chars@[end - 1]);
        }
        lemma_trimmed_end_len(s, end - from);
    }
    end
}

/// `text` without trailing whitespace.
pub fn trim_end(text: &str) -> (r: String)
    ensures
        r@ == trim_end_spec(text@),
{
    let chars = chars_of(text);
    let end = trim_end_index(&chars, 0, chars.len());
    assert(chars@.subrange(0, chars@.len() as int) =~= chars@);
    let r = string_of(&chars, 0, end);
    assert(r@ =~= trim_end_spec(text@));
    r
}

/// `text` without leading and trailing whitespace.
pub fn trim(text: &str) -> (r: String)
    ensures
        r@ == trim_spec(text@),
{
    let chars = chars_of(text);
    let n = chars.len();
    let mut start: usize = 0;
    while start < n && is_whitespace(chars[start])
        invariant
            0 <= start <= n,
            n == chars@.len(),
            forall|j: int| 0 <= j < start ==> is_whitespace_spec(#[trigger] chars@[j]),
        decreases n - start,
    {
        start += 1;
    }
    proof {
        lemma_leading_ws_len(chars@, start as int);
        assert(chars@.skip(start as int) =~= chars@.subrange(start as int, n as int));
    }
    let end = trim_end_index(&chars, start, n);
    let r = string_of(&chars, start, end);
    assert(r@ =~= trim_spec(text@));
    r
}

/// Whether `text` is empty or all whitespace.
pub fn is_blank_text(text: &str) -> (r: bool)
    ensures
        r == is_blank(text@),
{
    let chars = chars_of(text);
    let n = chars.len();
    let mut i: usize = 0;
    while i < n
        invariant
            0 <= i <= n,
            n == chars@.len(),
            chars@ == text@,
            forall|j: int| 0 <= j < i ==> is_whitespace_spec(#[trigger] text@[j]),
        decreases n - i,
    {
        if !is_whitespace(chars[i]) {
            return false;
        }
        i += 1;
    }
    true
}

/// The line without the carriage return that ended it.
pub open spec fn strip_cr(line: Seq<char>) -> Seq<char> {
    if line.len() > 0 && line.last() == '\r' {
        line.drop_last()
    } else {
        line
    }
}

/// The position of the first line feed in `s` at or after `from`.
pub open spec fn next_newline(s: Seq<char>, from: int) -> int
    decreases s.len() - from,
{
    if from >= s.len() || s[from] == '\n' {
        from
    } else {
        next_newline(s, from + 1)
    }
}

/// The lines of `s[from..]` as `str::lines` yields them: split at line feeds, a carriage
/// return right before a line feed dropped, no final empty line.
pub open spec fn lines_from(s: Seq<char>, from: int) -> Seq<Seq<char>>
    decreases s.len() - from,
{
    if from >= s.len() {
        Seq::empty()
    } else {
        let k = next_newline(s, from);
        if k >= s.len() {
            seq![s.subrange(from, s.len() as int)]
        } else {
            proof {
                lemma_next_newline(s, from);
            }
            seq![strip_cr(s.subrange(from, k))] + lines_from(s, k + 1)
        }
    }
}

pub open spec fn lines_spec(s: Seq<char>) -> Seq<Seq<char>> {
    lines_from(s, 0)
}

pub proof fn lemma_next_newline(s: Seq<char>, from: int)
    requires
        from <= s.len(),
    ensures
        from <= next_newline(s, from) <= s.len(),
        next_newline(s, from) < s.len() ==> s[next_newline(s, from)] == '\n',
        forall|j: int| from <= j < next_newline(s, from) ==> s[j] != '\n',
    decreases s.len() - from,
{
    if from < s.len() && s[from] != '\n' {
        lemma_next_newline(s, from + 1);
    }
}

/// The lines of `text`, as `str::lines` yields them.
pub fn text_lines(text: &str) -> (r: Vec<String>)
    ensures
        r@.map_values(|l: String| l@) == lines_spec(text@),
{
    let chars = chars_of(text);
    let ghost s = text@;
    let n = chars.len();
    let mut out: Vec<String> = Vec::new();
    let mut from: usize = 0;
    while from < n
        invariant
            0 <= from <= n,
            n == s.len(),
            chars@ == s,
            out@.map_values(|l: String| l@) + lines_from(s, from as int) == lines_spec(s),
        decreases n - from,
    {
        let mut k = from;
        while k < n && chars[k] != '\n'
            invariant
                from <= k <= n,
                n == chars@.len(),
                forall|j: int| from <= j < k ==> chars@[j] != '\n',
            decreases n - k,
        {
            k += 1;
        }
        proof {
            lemma_next_newline(s, from as int);
            assert(next_newline(s, from as int) == k) by {
                let m = next_newline(s, from as int);
                if m < k {
                    assert(s[m] == '\n');
                }
                if k < m {
                    assert(s[k as int] != '\n');
                }
            }
        }
        let ghost before = out@;
        if k >= n {
            let line = string_of(&chars, from, n);
            out.push(line);
            proof {
                assert(out@.map_values(|l: String| l@) =~= before.map_values(|l: String| l@).push(s.subrange(from as int, n as int)));
                assert(lines_from(s, n as int) =~= Seq::<Seq<char>>::empty());
                assert(lines_from(s, from as int) == seq![s.subrange(from as int, n as int)]);
                assert(out@.map_values(|l: String| l@) + lines_from(s, n as int) =~= lines_spec(s));
            }
            from = n;
        } else {
            let end = if k > from && chars[k - 1] == '\r' {
                k - 1
            } else {
                k
            };
            let line = string_of(&chars, from, end);
            proof {
                assert(line@ =~= strip_cr(s.subrange(from as int, k as int)));
            }
            out.push(line);
            proof {
                assert(out@.map_values(|l: String| l@) =~= before.map_values(|l: String| l@).push(strip_cr(s.subrange(from as int, k as int))));
                assert(lines_from(s, from as int) == seq![strip_cr(s.subrange(from as int, k as int))] + lines_from(s, k + 1));
                assert(out@.map_values(|l: String| l@) + lines_from(s, k + 1) =~= before.map_values(|l: String| l@) + lines_from(s, from as int));
            }
            from = k + 1;
        }
    }
    proof {
        assert(lines_from(s, n as int) =~= Seq::<Seq<char>>::empty());
        assert(out@.map_values(|l: String| l@) =~= lines_spec(s));
    }
    out
}

/// The decimal digits of `n`.
pub open spec fn decimal_chars(n: nat) -> Seq<char>
    decreases n,
{
    if n < 10 {
        seq![(48 + n) as char]
    } else {
        decimal_chars(n / 10).push((48 + n % 10) as char)
    }
}

/// The decimal form of `n`, with a minus sign when it is negative.
pub open spec fn signed_decimal(n: int) -> Seq<char> {
    if n < 0 {
        seq!['-'] + decimal_chars((-n) as nat)
    } else {
        decimal_chars(n as nat)
    }
}

fn digit(d: u64) -> (c: char)
    requires
        d < 10,
    ensures
        c == (48 + d) as char,
{
    if d == 0 {
        '0'
    } else if d == 1 {
        '1'
    } else if d == 2 {
        '2'
    } else if d == 3 {
        '3'
    } else if d == 4 {
        '4'
    } else if d == 5 {
        '5'
    } else if d == 6 {
        '6'
    } else if d == 7 {
        '7'
    } else if d == 8 {
        '8'
    } else {
        '9'
    }
}

/// Appends the decimal digits of `n`.
pub fn push_decimal_chars(out: &mut String, n: u64)
    ensures
        final(out)@ == old(out)@ + decimal_chars(n as nat),
    decreases n,
{
    if n >= 10 {
        push_decimal_chars(out, n / 10);
    }
    push_char(out, digit(n % 10));
    proof {
        if n >= 10 {
            assert(decimal_chars(n as nat) == decimal_chars((n / 10) as nat).push((48 + n % 10) as char));
        }
    }
}

/// Appends the decimal form of `n`.
pub fn push_signed_decimal(out: &mut String, n: i64)
    ensures
        final(out)@ == old(out)@ + signed_decimal(n as int),
{
    if n < 0 {
        push_char(out, '-');
        let magnitude: u64 = if n == i64::MIN {
            9223372036854775808u64
        } else {
            (-n) as u64
        };
        push_decimal_chars(out, magnitude);
        assert(out@ =~= old(out)@ + signed_decimal(n as int));
    } else {
        push_decimal_chars(out, n as u64);
    }
}

} // verus!
