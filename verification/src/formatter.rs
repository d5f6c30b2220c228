//! The brace-based source formatter: every line is trimmed and re-indented
//! by four spaces per open `{`, and runs of blank lines collapse into one.
use vstd::prelude::*;
use crate::text::{
    chars_of, extend_slice, is_ws, string_from_chars, sub_chars, trim, trim_bounds, trim_end, trim_start,
};

verus! {

/// `a + b` on `usize`, saturating at `usize::MAX`.
pub open spec fn sat_add(a: int, b: int) -> int {
    if a + b > usize::MAX { usize::MAX as int } else { a + b }
}

/// `a - b` on `usize`, saturating at zero.
pub open spec fn sat_sub(a: int, b: int) -> int {
    if a - b < 0 { 0 } else { a - b }
}

/// Splits off the lines of `s` (as `str::lines` does), in a left fold:
/// the completed lines and the line still being read.
pub open spec fn lines_acc(s: Seq<char>) -> (Seq<Seq<char>>, Seq<char>)
    decreases s.len(),
{
    if s.len() == 0 {
        (seq![], seq![])
    } else {
        let (done, cur) = lines_acc(s.drop_last());
        if s.last() == '\n' {
            (done.push(strip_cr(cur)), seq![])
        } else {
            (done, cur.push(s.last()))
        }
    }
}

/// A line without the `'\r'` of a `"\r\n"` terminator.
pub open spec fn strip_cr(l: Seq<char>) -> Seq<char> {
    if l.len() > 0 && l.last() == '\r' { l.drop_last() } else { l }
}

/// The lines of `s`: split at `'\n'` or `"\r\n"`, the final terminator
/// optional.
pub open spec fn spec_lines(s: Seq<char>) -> Seq<Seq<char>> {
    let (done, cur) = lines_acc(s);
    if cur.len() == 0 { done } else { done.push(cur) }
}

/// The count of `{` and `}` of `line` from index `i` on, outside string
/// literals and before a `//` comment, given the counts and the scanner's
/// string state so far.
pub open spec fn brace_scan(
    line: Seq<char>,
    i: int,
    opens: int,
    closes: int,
    in_string: bool,
    escaped: bool,
) -> (int, int)
    decreases line.len() - i,
{
    if i < 0 || i >= line.len() {
        (opens, closes)
    } else {
        let ch = line[i];
        if in_string {
            if escaped {
                brace_scan(line, i + 1, opens, closes, true, false)
            } else if ch == '\\' {
                brace_scan(line, i + 1, opens, closes, true, true)
            } else if ch == '"' {
                brace_scan(line, i + 1, opens, closes, false, false)
            } else {
                brace_scan(line, i + 1, opens, closes, true, false)
            }
        } else if ch == '/' && i + 1 < line.len() && line[i + 1] == '/' {
            (opens, closes)
        } else if ch == '"' {
            brace_scan(line, i + 1, opens, closes, true, false)
        } else if ch == '{' {
            brace_scan(line, i + 1, opens + 1, closes, false, false)
        } else if ch == '}' {
            brace_scan(line, i + 1, opens, closes + 1, false, false)
        } else {
            brace_scan(line, i + 1, opens, closes, false, false)
        }
    }
}

/// Opening and closing braces of a line that count for indentation.
pub open spec fn spec_brace_delta(line: Seq<char>) -> (int, int) {
    brace_scan(line, 0, 0, 0, false, false)
}

/// The number of `}` that start `line`.
pub open spec fn leading_closes(line: Seq<char>) -> int
    decreases line.len(),
{
    if line.len() > 0 && line[0] == '}' {
        1 + leading_closes(line.drop_first())
    } else {
        0
    }
}

/// Four spaces per indentation level.
pub open spec fn spaces(level: int) -> Seq<char> {
    Seq::new((4 * level) as nat, |k: int| ' ')
}

/// One line's effect on the formatter's state `(output, indent,
/// previous line blank)`.
pub open spec fn format_step(st: (Seq<char>, int, bool), raw: Seq<char>) -> (Seq<char>, int, bool) {
    let line = trim(raw);
    if line.len() == 0 {
        (if !st.2 && st.0.len() > 0 { st.0.push('\n') } else { st.0 }, st.1, true)
    } else {
        let lc = leading_closes(line);
        let li = sat_sub(st.1, lc);
        let (o, c) = spec_brace_delta(line);
        (st.0 + spaces(li) + line + seq!['\n'], sat_sub(sat_add(li, o), sat_sub(c, lc)), false)
    }
}

/// The number of positions from `i` on at which `line` holds `c`.
pub open spec fn count_from(line: Seq<char>, i: int, c: char) -> int
    decreases line.len() - i,
{
    if i < 0 || i >= line.len() {
        0
    } else {
        (if line[i] == c { 1int } else { 0int }) + count_from(line, i + 1, c)
    }
}

proof fn lemma_scan_plain_counts(line: Seq<char>, i: int, opens: int, closes: int)
    requires
        0 <= i <= line.len(),
        forall|k: int| 0 <= k < line.len() ==> line[k] != '"' && line[k] != '/',
    ensures
        brace_scan(line, i, opens, closes, false, false) == (
            opens + count_from(line, i, '{'),
            closes + count_from(line, i, '}'),
        ),
    decreases line.len() - i,
{
    if i < line.len() {
        lemma_scan_plain_counts(
            line,
            i + 1,
            if line[i] == '{' { opens + 1 } else { opens },
            if line[i] == '}' { closes + 1 } else { closes },
        );
    }
}

/// Outside string literals and comments, the braces that count for
/// indentation are exactly the line's `{` and `}` characters.
pub proof fn lemma_brace_delta_counts_braces(line: Seq<char>)
    requires
        forall|k: int| 0 <= k < line.len() ==> line[k] != '"' && line[k] != '/',
    ensures
        spec_brace_delta(line) == (count_from(line, 0, '{'), count_from(line, 0, '}')),
{
    lemma_scan_plain_counts(line, 0, 0, 0);
}

proof fn lemma_scan_closes_grow(
    line: Seq<char>,
    i: int,
    opens: int,
    closes: int,
    in_string: bool,
    escaped: bool,
)
    ensures
        brace_scan(line, i, opens, closes, in_string, escaped).1 >= closes,
    decreases line.len() - i,
{
    if 0 <= i < line.len() {
        let ch = line[i];
        if in_string {
            if escaped {
                lemma_scan_closes_grow(line, i + 1, opens, closes, true, false);
            } else if ch == '\\' {
                lemma_scan_closes_grow(line, i + 1, opens, closes, true, true);
            } else if ch == '"' {
                lemma_scan_closes_grow(line, i + 1, opens, closes, false, false);
            } else {
                lemma_scan_closes_grow(line, i + 1, opens, closes, true, false);
            }
        } else if ch == '/' && i + 1 < line.len() && line[i + 1] == '/' {
        } else if ch == '"' {
            lemma_scan_closes_grow(line, i + 1, opens, closes, true, false);
        } else if ch == '{' {
            lemma_scan_closes_grow(line, i + 1, opens + 1, closes, false, false);
        } else if ch == '}' {
            lemma_scan_closes_grow(line, i + 1, opens, closes + 1, false, false);
        } else {
            lemma_scan_closes_grow(line, i + 1, opens, closes, false, false);
        }
    }
}

proof fn lemma_leading_closes_shape(line: Seq<char>)
    ensures
        0 <= leading_closes(line) <= line.len(),
        forall|k: int| 0 <= k < leading_closes(line) ==> line[k] == '}',
    decreases line.len(),
{
    if line.len() > 0 && line[0] == '}' {
        lemma_leading_closes_shape(line.drop_first());
        assert forall|k: int| 0 <= k < leading_closes(line) implies line[k] == '}' by {
            if k > 0 {
                assert(line.drop_first()[k - 1] == line[k]);
            }
        }
    }
}

proof fn lemma_scan_leading_closes(line: Seq<char>, i: int, opens: int, closes: int)
    requires
        0 <= i <= leading_closes(line),
    ensures
        brace_scan(line, i, opens, closes, false, false).1 >= closes + leading_closes(line) - i,
    decreases leading_closes(line) - i,
{
    lemma_leading_closes_shape(line);
    if i < leading_closes(line) {
        assert(line[i] == '}');
        lemma_scan_leading_closes(line, i + 1, opens, closes + 1);
    } else {
        lemma_scan_closes_grow(line, i, opens, closes, false, false);
    }
}

/// The `}` that start a line are among its counted closing braces.
pub proof fn lemma_leading_closes_counted(line: Seq<char>)
    ensures
        leading_closes(line) <= spec_brace_delta(line).1,
{
    lemma_leading_closes_shape(line);
    lemma_scan_leading_closes(line, 0, 0, 0);
}

/// `leading_closes` is the length of the line's leading run of `}`.
pub proof fn lemma_leading_closes_is_run(line: Seq<char>)
    ensures
        0 <= leading_closes(line) <= line.len(),
        forall|k: int| 0 <= k < leading_closes(line) ==> line[k] == '}',
        leading_closes(line) == line.len() || line[leading_closes(line)] != '}',
    decreases line.len(),
{
    lemma_leading_closes_shape(line);
    if line.len() > 0 && line[0] == '}' {
        lemma_leading_closes_is_run(line.drop_first());
        let n = leading_closes(line.drop_first());
        if n < line.drop_first().len() {
            assert(line.drop_first()[n] == line[n + 1]);
        }
    }
}

proof fn lemma_scan_inside_string(line: Seq<char>, i: int, opens: int, closes: int)
    requires
        1 <= i <= line.len() - 1,
        line.last() == '"',
        forall|k: int| 1 <= k < line.len() - 1 ==> line[k] != '"' && line[k] != '\\',
    ensures
        brace_scan(line, i, opens, closes, true, false) == (opens, closes),
    decreases line.len() - i,
{
    if i < line.len() - 1 {
        lemma_scan_inside_string(line, i + 1, opens, closes);
    } else {
        assert(brace_scan(line, i + 1, opens, closes, false, false) == (opens, closes));
    }
}

/// Braces inside a string literal do not count: a line that is one string
/// literal without quotes or backslashes inside moves no indentation.
pub proof fn lemma_string_braces_ignored(line: Seq<char>)
    requires
        line.len() >= 2,
        line[0] == '"',
        line.last() == '"',
        forall|k: int| 1 <= k < line.len() - 1 ==> line[k] != '"' && line[k] != '\\',
    ensures
        spec_brace_delta(line) == (0int, 0int),
{
    lemma_scan_inside_string(line, 1, 0, 0);
}

/// Each line moves the indentation by its braces: a non-blank line whose
/// leading `}` do not go below the level before it is printed at that level
/// less its leading `}`, and leaves the level before it plus its counted
/// `{` minus its counted `}` (at least 0); a line with as many `{` as `}`
/// leaves the level unchanged. A blank line leaves the level unchanged.
pub proof fn lemma_line_moves_indent_by_braces(st: (Seq<char>, int, bool), raw: Seq<char>)
    requires
        0 <= st.1,
        trim(raw).len() > 0 ==> leading_closes(trim(raw)) <= st.1,
        trim(raw).len() > 0 ==> st.1 + spec_brace_delta(trim(raw)).0 <= usize::MAX,
    ensures
        trim(raw).len() == 0 ==> format_step(st, raw).1 == st.1,
        trim(raw).len() == 0 && st.2 ==> format_step(st, raw).0 == st.0,
        trim(raw).len() == 0 ==> format_step(st, raw).2,
        trim(raw).len() > 0 ==> format_step(st, raw).0 == st.0 + spaces(st.1 - leading_closes(trim(raw)))
            + trim(raw) + seq!['\n'],
        trim(raw).len() > 0 ==> format_step(st, raw).1 == sat_sub(
            st.1 + spec_brace_delta(trim(raw)).0,
            spec_brace_delta(trim(raw)).1,
        ),
        trim(raw).len() > 0 && spec_brace_delta(trim(raw)).0 == spec_brace_delta(trim(raw)).1
            ==> format_step(st, raw).1 == st.1,
{
    let line = trim(raw);
    if line.len() > 0 {
        lemma_leading_closes_counted(line);
        lemma_leading_closes_shape(line);
    }
}

/// The formatter's state after the given lines.
pub open spec fn format_lines(lines: Seq<Seq<char>>) -> (Seq<char>, int, bool)
    decreases lines.len(),
{
    if lines.len() == 0 {
        (seq![], 0, false)
    } else {
        format_step(format_lines(lines.drop_last()), lines.last())
    }
}

/// The formatted text of a source.
pub open spec fn spec_format_source(source: Seq<char>) -> Seq<char> {
    format_lines(spec_lines(source)).0
}

/// Splits `s` into its lines (`str::lines`).
pub fn split_lines(s: &[char]) -> (r: Vec<Vec<char>>)
    ensures
        r@.len() == spec_lines(s@).len(),
        forall|k: int| 0 <= k < r@.len() ==> #[trigger] r@[k]@ == spec_lines(s@)[k],
{
    let mut done: Vec<Vec<char>> = Vec::new();
    let mut cur: Vec<char> = Vec::new();
    let mut i: usize = 0;
    while i < s.len()
        invariant
            i <= s@.len(),
            done@.len() == lines_acc(s@.take(i as int)).0.len(),
            forall|k: int| 0 <= k < done@.len() ==> #[trigger] done@[k]@ == lines_acc(s@.take(i as int)).0[k],
            cur@ == lines_acc(s@.take(i as int)).1,
        decreases s@.len() - i,
    {
        assert(s@.take((i + 1) as int).drop_last() == s@.take(i as int));
        let c = s[i];
        if c == '\n' {
            let mut line = cur;
            if line.len() > 0 && line[line.len() - 1] == '\r' {
                line.pop();
            }
            done.push(line);
            cur = Vec::new();
        } else {
            cur.push(c);
        }
        i = i + 1;
    }
    assert(s@.take(s@.len() as int) == s@);
    if cur.len() > 0 {
        done.push(cur);
    }
    done
}

/// Counts the braces of a line that change indentation: `{` and `}`
/// outside string literals, up to a `//` comment.
pub fn brace_delta(line: &[char]) -> (r: (usize, usize))
    ensures
        (r.0 as int, r.1 as int) == spec_brace_delta(line@),
{
    let mut opens: usize = 0;
    let mut closes: usize = 0;
    let mut in_string = false;
    let mut escaped = false;
    let mut stopped = false;
    let mut i: usize = 0;
    while i < line.len() && !stopped
        invariant
            i <= line@.len(),
            opens + closes <= i,
            !in_string ==> !escaped,
            stopped ==> spec_brace_delta(line@) == (opens as int, closes as int),
            !stopped ==> spec_brace_delta(line@) == brace_scan(
                line@,
                i as int,
                opens as int,
                closes as int,
                in_string,
                escaped,
            ),
        decreases line@.len() - i, (if stopped { 0int } else { 1int }),
    {
        let ch = line[i];
        let ghost st = brace_scan(line@, i as int, opens as int, closes as int, in_string, escaped);
        assert(ch == line@[i as int]);
        if in_string {
            if escaped {
                escaped = false;
            } else if ch == '\\' {
                escaped = true;
            } else if ch == '"' {
                in_string = false;
            }
            i = i + 1;
        } else if ch == '/' && i + 1 < line.len() && line[i + 1] == '/' {
            stopped = true;
        } else {
            if ch == '"' {
                in_string = true;
            } else if ch == '{' {
                opens = opens + 1;
            } else if ch == '}' {
                closes = closes + 1;
            }
            i = i + 1;
        }
    }
    (opens, closes)
}

/// Number of `}` at the start of `line`.
pub fn count_leading_closes(line: &[char]) -> (n: usize)
    ensures
        n as int == leading_closes(line@),
        n <= line@.len(),
{
    let mut n: usize = 0;
    assert(line@.subrange(0, line@.len() as int) == line@);
    while n < line.len() && line[n] == '}'
        invariant
            n <= line@.len(),
            leading_closes(line@) == n + leading_closes(line@.subrange(n as int, line@.len() as int)),
        decreases line@.len() - n,
    {
        assert(line@.subrange(n as int, line@.len() as int).drop_first() == line@.subrange(
            n + 1,
            line@.len() as int,
        ));
        n = n + 1;
    }
    n
}

/// Re-indents a source: every line is trimmed and indented by four spaces
/// per enclosing brace, and runs of blank lines collapse into one blank
/// line (none at the start).
pub fn format_source(source: &str) -> (r: String)
    ensures
        r@ == spec_format_source(source@),
        spec_format_source(r@) == r@,
{
    proof {
        lemma_format_idempotent(source@);
    }
    let chars = chars_of(source);
    let lines = split_lines(chars.as_slice());
    let ghost ls = spec_lines(source@);
    let mut output: Vec<char> = Vec::new();
    let mut indent: usize = 0;
    let mut previous_blank = false;
    let mut k: usize = 0;
    while k < lines.len()
        invariant
            k <= lines@.len(),
            lines@.len() == ls.len(),
            forall|j: int| 0 <= j < lines@.len() ==> #[trigger] lines@[j]@ == ls[j],
            (output@, indent as int, previous_blank) == format_lines(ls.take(k as int)),
        decreases lines@.len() - k,
    {
        assert(ls.take((k + 1) as int).drop_last() == ls.take(k as int));
        let raw = &lines[k];
        let (start, end) = trim_bounds(raw.as_slice());
        let line = sub_chars(raw.as_slice(), start, end);
        if line.len() == 0 {
            if !previous_blank && output.len() > 0 {
                output.push('\n');
            }
            previous_blank = true;
            k = k + 1;
            continue;
        }
        let leading = count_leading_closes(line.as_slice());
        let line_indent = indent.saturating_sub(leading);
        let mut n: usize = 0;
        let ghost before = output@;
        while n < line_indent
            invariant
                n <= line_indent,
                output@ == before + Seq::new((4 * n) as nat, |q: int| ' '),
            decreases line_indent - n,
        {
            output.push(' ');
            output.push(' ');
            output.push(' ');
            output.push(' ');
            n = n + 1;
            assert(output@ == before + Seq::new((4 * n) as nat, |q: int| ' '));
        }
        extend_slice(&mut output, line.as_slice());
        output.push('\n');
        let (opens, closes) = brace_delta(line.as_slice());
        indent = line_indent.saturating_add(opens).saturating_sub(closes.saturating_sub(leading));
        previous_blank = false;
        k = k + 1;
    }
    assert(ls.take(ls.len() as int) == ls);
    string_from_chars(output.as_slice())
}

proof fn lemma_lines_acc_no_newline(c: Seq<char>)
    requires
        forall|k: int| 0 <= k < c.len() ==> c[k] != '\n',
    ensures
        lines_acc(c) == (Seq::<Seq<char>>::empty(), c),
    decreases c.len(),
{
    if c.len() > 0 {
        lemma_lines_acc_no_newline(c.drop_last());
        assert(c.drop_last().push(c.last()) == c);
    }
}

proof fn lemma_lines_acc_concat(a: Seq<char>, b: Seq<char>)
    requires
        a.len() == 0 || a.last() == '\n',
    ensures
        lines_acc(a).1.len() == 0,
        lines_acc(a + b) == (lines_acc(a).0 + lines_acc(b).0, lines_acc(b).1),
    decreases b.len(),
{
    if b.len() == 0 {
        assert(a + b == a);
        assert(lines_acc(a).0 + Seq::<Seq<char>>::empty() == lines_acc(a).0);
    } else {
        lemma_lines_acc_concat(a, b.drop_last());
        assert((a + b).drop_last() == a + b.drop_last());
        assert((a + b).last() == b.last());
        let (d, c) = lines_acc(b.drop_last());
        if b.last() == '\n' {
            assert(lines_acc(a).0 + d.push(strip_cr(c)) == (lines_acc(a).0 + d).push(strip_cr(c)));
        }
    }
}

proof fn lemma_trim_end_prefix(y: Seq<char>)
    ensures
        trim_end(y).len() <= y.len(),
        trim_end(y) == y.take(trim_end(y).len() as int),
        trim_end(y).len() > 0 ==> !is_ws(trim_end(y).last()),
    decreases y.len(),
{
    if y.len() > 0 && is_ws(y.last()) {
        lemma_trim_end_prefix(y.drop_last());
        assert(y.drop_last().take(trim_end(y).len() as int) == y.take(trim_end(y).len() as int));
    } else {
        assert(y.take(y.len() as int) == y);
    }
}

proof fn lemma_trim_start_first(x: Seq<char>)
    ensures
        trim_start(x).len() > 0 ==> !is_ws(trim_start(x)[0]),
    decreases x.len(),
{
    if x.len() > 0 && is_ws(x[0]) {
        lemma_trim_start_first(x.drop_first());
    }
}

/// A trimmed line begins and ends with a character that is not whitespace.
proof fn lemma_trim_ends(x: Seq<char>)
    ensures
        trim(x).len() > 0 ==> !is_ws(trim(x)[0]) && !is_ws(trim(x).last()),
{
    lemma_trim_start_first(x);
    lemma_trim_end_prefix(trim_start(x));
}

proof fn lemma_trim_indented(n: int, line: Seq<char>)
    requires
        n >= 0,
        line.len() > 0,
        !is_ws(line[0]),
        !is_ws(line.last()),
    ensures
        trim(spaces(n) + line) == line,
    decreases n,
{
    if n > 0 {
        let t = spaces(n) + line;
        assert(t[0] == ' ');
        assert(t.drop_first().drop_first().drop_first().drop_first() == spaces(n - 1) + line);
        assert(is_ws(' '));
        let t1 = t.drop_first();
        let t2 = t1.drop_first();
        let t3 = t2.drop_first();
        assert(t1[0] == ' ' && t2[0] == ' ' && t3[0] == ' ');
        assert(trim_start(t) == trim_start(t1));
        assert(trim_start(t1) == trim_start(t2));
        assert(trim_start(t2) == trim_start(t3));
        assert(trim_start(t3) == trim_start(spaces(n - 1) + line));
        lemma_trim_indented(n - 1, line);
    } else {
        assert(spaces(n) + line == line);
        assert(line.drop_first().len() < line.len());
    }
}

proof fn lemma_format_lines_push(ls: Seq<Seq<char>>, x: Seq<char>)
    ensures
        format_lines(ls.push(x)) == format_step(format_lines(ls), x),
{
    assert(ls.push(x).drop_last() == ls);
}

proof fn lemma_format_prefix(ls: Seq<Seq<char>>, k: int)
    requires
        0 <= k <= ls.len(),
        forall|j: int, q: int| 0 <= j < ls.len() && 0 <= q < ls[j].len() ==> #[trigger] ls[j][q] != '\n',
    ensures
        ({
            let f = format_lines(ls.take(k));
            let g = format_lines(spec_lines(f.0));
            &&& g.0 == f.0
            &&& g.1 == f.1
            &&& (f.0.len() > 0 ==> g.2 == f.2)
            &&& (f.0.len() == 0 || f.0.last() == '\n')
            &&& spec_lines(f.0) == lines_acc(f.0).0
            &&& lines_acc(f.0).1.len() == 0
        }),
    decreases k,
{
    if k == 0 {
        assert(ls.take(0) == Seq::<Seq<char>>::empty());
    } else {
        lemma_format_prefix(ls, k - 1);
        assert(ls.take(k) == ls.take(k - 1).push(ls[k - 1]));
        lemma_format_lines_push(ls.take(k - 1), ls[k - 1]);
        let f = format_lines(ls.take(k - 1));
        let raw = ls[k - 1];
        let line = trim(raw);
        let l0 = lines_acc(f.0).0;
        lemma_trim_ends(raw);
        assert forall|q: int| 0 <= q < raw.len() implies raw[q] != '\n' by {
            assert(ls[k - 1][q] != '\n');
        }
        if line.len() == 0 {
            if !f.2 && f.0.len() > 0 {
                let nl = seq!['\n'];
                lemma_lines_acc_concat(f.0, nl);
                lemma_lines_acc_no_newline(Seq::<char>::empty());
                assert(nl.drop_last() == Seq::<char>::empty());
                assert(f.0.push('\n') == f.0 + nl);
                assert(lines_acc(nl) == (seq![Seq::<char>::empty()], Seq::<char>::empty()));
                assert(spec_lines(f.0.push('\n')) == l0.push(Seq::<char>::empty()));
                lemma_format_lines_push(l0, Seq::<char>::empty());
                assert(trim(Seq::<char>::empty()) == Seq::<char>::empty());
            }
        } else {
            let lc = leading_closes(line);
            let li = sat_sub(f.1, lc);
            let body = spaces(li) + line;
            let tail = body + seq!['\n'];
            assert(f.0 + spaces(li) + line + seq!['\n'] == f.0 + tail);
            assert forall|q: int| 0 <= q < body.len() implies body[q] != '\n' by {
                if q >= spaces(li).len() {
                    let r = q - spaces(li).len();
                    assert(body[q] == line[r]);
                    lemma_trim_no_newline(raw);
                }
            }
            lemma_lines_acc_no_newline(body);
            assert(tail.drop_last() == body);
            assert(!is_ws(body.last()));
            assert(strip_cr(body) == body);
            assert(lines_acc(tail) == (seq![body], Seq::<char>::empty()));
            lemma_lines_acc_concat(f.0, tail);
            assert(spec_lines(f.0 + tail) == l0.push(body));
            lemma_format_lines_push(l0, body);
            lemma_trim_indented(li, line);
        }
    }
}

proof fn lemma_trim_start_no_newline(x: Seq<char>)
    requires
        forall|q: int| 0 <= q < x.len() ==> x[q] != '\n',
    ensures
        forall|q: int| 0 <= q < trim_start(x).len() ==> trim_start(x)[q] != '\n',
    decreases x.len(),
{
    if x.len() > 0 && is_ws(x[0]) {
        let t = x.drop_first();
        assert forall|q: int| 0 <= q < t.len() implies t[q] != '\n' by {
            assert(t[q] == x[q + 1]);
        }
        lemma_trim_start_no_newline(t);
        assert(trim_start(x) == trim_start(t));
    }
}

proof fn lemma_trim_no_newline(x: Seq<char>)
    requires
        forall|q: int| 0 <= q < x.len() ==> x[q] != '\n',
    ensures
        forall|q: int| 0 <= q < trim(x).len() ==> trim(x)[q] != '\n',
{
    lemma_trim_start_no_newline(x);
    let y = trim_start(x);
    lemma_trim_end_prefix(y);
    assert forall|q: int| 0 <= q < trim(x).len() implies trim(x)[q] != '\n' by {
        assert(trim(x)[q] == y[q]);
    }
}

proof fn lemma_lines_no_newline(s: Seq<char>)
    ensures
        forall|j: int, q: int|
            0 <= j < lines_acc(s).0.len() && 0 <= q < lines_acc(s).0[j].len() ==> #[trigger] lines_acc(s).0[j][q] != '\n',
        forall|q: int| 0 <= q < lines_acc(s).1.len() ==> lines_acc(s).1[q] != '\n',
        forall|j: int, q: int|
            0 <= j < spec_lines(s).len() && 0 <= q < spec_lines(s)[j].len() ==> #[trigger] spec_lines(s)[j][q] != '\n',
    decreases s.len(),
{
    if s.len() > 0 {
        lemma_lines_no_newline(s.drop_last());
        let (d, c) = lines_acc(s.drop_last());
        if s.last() == '\n' {
            let sc = strip_cr(c);
            assert forall|q: int| 0 <= q < sc.len() implies sc[q] != '\n' by {
                assert(sc[q] == c[q]);
            }
            assert forall|j: int, q: int| 0 <= j < d.push(sc).len() && 0 <= q < d.push(sc)[j].len() implies #[trigger] d.push(sc)[j][q] != '\n' by {
                if j < d.len() {
                    assert(d.push(sc)[j] == d[j]);
                }
            }
        }
    }
    let (d, c) = lines_acc(s);
    if c.len() > 0 {
        assert forall|j: int, q: int| 0 <= j < d.push(c).len() && 0 <= q < d.push(c)[j].len() implies #[trigger] d.push(c)[j][q] != '\n' by {
            if j < d.len() {
                assert(d.push(c)[j] == d[j]);
            }
        }
    }
}

/// Formatting is idempotent: formatting an already formatted source gives
/// it back unchanged.
pub proof fn lemma_format_idempotent(source: Seq<char>)
    ensures
        spec_format_source(spec_format_source(source)) == spec_format_source(source),
{
    let ls = spec_lines(source);
    lemma_lines_no_newline(source);
    lemma_format_prefix(ls, ls.len() as int);
    assert(ls.take(ls.len() as int) == ls);
}

} // verus!
