//! Diagnostics helpers: the byte range of the token nearest to an error
//! position, and the Russian names of grammar rules.
use vstd::prelude::*;
use crate::text::{byte_len, byte_offset, char_offsets, chars_of, is_whitespace, is_ws, join, join_strings, lemma_byte_len_encode, lemma_byte_offset_mono, views};

verus! {

/// What `char::is_alphanumeric` answers for `c` (a character with the
/// Unicode `Alphabetic` or `Numeric` property).
pub uninterp spec fn alphanumeric(c: char) -> bool;

/// `char::is_alphanumeric`; on ASCII it answers as
/// `char::is_ascii_alphanumeric` (digits and Latin letters), as its
/// documentation says.
#[verifier::external_body]
pub(crate) fn is_alphanumeric(c: char) -> (b: bool)
    ensures
        b == alphanumeric(c),
        (c as u32) < 128 ==> (b <==> (('0' <= c && c <= '9') || ('a' <= c && c <= 'z') || ('A' <= c
            && c <= 'Z'))),
{
    c.is_alphanumeric()
}

/// Characters that make up identifiers.
pub open spec fn is_ident_char(c: char) -> bool {
    alphanumeric(c) || c == '_'
}

/// Characters that make up operators.
pub open spec fn is_operator_char(c: char) -> bool {
    c == '=' || c == '!' || c == '<' || c == '>' || c == '+' || c == '-' || c == '*' || c == '/'
        || c == '%' || c == ':' || c == '.'
}

/// `'0'..='9'`.
pub open spec fn is_digit(c: char) -> bool {
    '0' <= c <= '9'
}

/// Class `kind` of characters: identifier characters for 0, operator
/// characters otherwise.
pub open spec fn in_class(kind: int, c: char) -> bool {
    if kind == 0 { is_ident_char(c) } else { is_operator_char(c) }
}

/// Start of the run of class-`kind` characters that ends just before `j`.
pub open spec fn run_back(s: Seq<char>, j: int, kind: int) -> int
    decreases j,
{
    if j > 0 && j <= s.len() && in_class(kind, s[j - 1]) {
        run_back(s, j - 1, kind)
    } else {
        j
    }
}

/// End of the run of class-`kind` characters that starts at `j`.
pub open spec fn run_fwd(s: Seq<char>, j: int, kind: int) -> int
    decreases s.len() - j,
{
    if 0 <= j < s.len() && in_class(kind, s[j]) {
        run_fwd(s, j + 1, kind)
    } else {
        j
    }
}

/// Index of the nearest `q` before `j`, or 0 when there is none.
pub open spec fn quote_start(s: Seq<char>, j: int, q: char) -> int
    decreases j,
{
    if j <= 0 || j > s.len() {
        0
    } else if s[j - 1] == q {
        j - 1
    } else {
        quote_start(s, j - 1, q)
    }
}

/// Index just past the first `q` at or after `j`, or the end of `s`.
pub open spec fn quote_end(s: Seq<char>, j: int, q: char) -> int
    decreases s.len() - j,
{
    if j < 0 || j >= s.len() {
        s.len() as int
    } else if s[j] == q {
        j + 1
    } else {
        quote_end(s, j + 1, q)
    }
}

/// Start of a number ending just before `j` (digits and at most one dot,
/// unless `seen_dot`), and whether a dot was taken.
pub open spec fn number_back(s: Seq<char>, j: int, seen_dot: bool) -> (int, bool)
    decreases j,
{
    if j <= 0 || j > s.len() {
        (j, seen_dot)
    } else if s[j - 1] == '.' && !seen_dot {
        number_back(s, j - 1, true)
    } else if is_digit(s[j - 1]) {
        number_back(s, j - 1, seen_dot)
    } else {
        (j, seen_dot)
    }
}

/// End of a number starting at `j`.
pub open spec fn number_fwd(s: Seq<char>, j: int, seen_dot: bool) -> int
    decreases s.len() - j,
{
    if j < 0 || j >= s.len() {
        j
    } else if s[j] == '.' && !seen_dot {
        number_fwd(s, j + 1, true)
    } else if is_digit(s[j]) {
        number_fwd(s, j + 1, seen_dot)
    } else {
        j
    }
}

/// The largest character index whose byte offset is at most `x`.
pub open spec fn index_at_most(s: Seq<char>, x: int, k: int) -> int
    decreases k,
{
    if k <= 0 {
        0
    } else if byte_offset(s, k) <= x {
        k
    } else {
        index_at_most(s, x, k - 1)
    }
}

/// Moves back from `idx` over whitespace (never before index 0).
pub open spec fn skip_ws_back(s: Seq<char>, idx: int) -> int
    decreases idx,
{
    if idx > 0 && idx < s.len() && is_ws(s[idx]) {
        skip_ws_back(s, idx - 1)
    } else {
        idx
    }
}

/// The character index of the last character at or before byte position
/// `pos`, then moved back over whitespace.
pub open spec fn anchor_index(s: Seq<char>, pos: int) -> int {
    let b = byte_len(s);
    let x = if pos < b { pos } else { b };
    let c = index_at_most(s, x, s.len() as int);
    let idx = if c < s.len() { c } else { s.len() - 1 };
    skip_ws_back(s, idx)
}

/// Character range `[start, end)` of the token around index `idx`: a
/// quoted string, an identifier, a number, an operator, or the single
/// character.
pub open spec fn token_range(s: Seq<char>, idx: int) -> (int, int) {
    let c = s[idx];
    if c == '"' || c == '\'' {
        (quote_start(s, idx, c), quote_end(s, idx + 1, c))
    } else if is_ident_char(c) {
        (run_back(s, idx, 0), run_fwd(s, idx + 1, 0))
    } else if is_digit(c) {
        let (start, seen) = number_back(s, idx, false);
        (start, number_fwd(s, idx + 1, seen))
    } else if is_operator_char(c) {
        (run_back(s, idx, 1), run_fwd(s, idx + 1, 1))
    } else {
        (idx, idx + 1)
    }
}

/// Byte range of the last token at or before byte position `pos` of `s`.
pub open spec fn spec_extract_last_token(s: Seq<char>, pos: int) -> (int, int) {
    if s.len() == 0 {
        (0, 0)
    } else {
        let (a, b) = token_range(s, anchor_index(s, pos));
        (byte_offset(s, a), byte_offset(s, b))
    }
}

/// The run that `run_back` finds before `j` is maximal: every character in
/// it is of the class, and the one just before it, if any, is not.
pub proof fn lemma_run_back_maximal(s: Seq<char>, j: int, kind: int)
    requires
        0 <= j <= s.len(),
    ensures
        0 <= run_back(s, j, kind) <= j,
        forall|k: int| run_back(s, j, kind) <= k < j ==> in_class(kind, #[trigger] s[k]),
        run_back(s, j, kind) == 0 || !in_class(kind, s[run_back(s, j, kind) - 1]),
    decreases j,
{
    if j > 0 && in_class(kind, s[j - 1]) {
        lemma_run_back_maximal(s, j - 1, kind);
    }
}

/// The run that `run_fwd` finds from `j` is maximal: every character in it
/// is of the class, and the one just after it, if any, is not.
pub proof fn lemma_run_fwd_maximal(s: Seq<char>, j: int, kind: int)
    requires
        0 <= j <= s.len(),
    ensures
        j <= run_fwd(s, j, kind) <= s.len(),
        forall|k: int| j <= k < run_fwd(s, j, kind) ==> in_class(kind, #[trigger] s[k]),
        run_fwd(s, j, kind) == s.len() || !in_class(kind, s[run_fwd(s, j, kind)]),
    decreases s.len() - j,
{
    if j < s.len() && in_class(kind, s[j]) {
        lemma_run_fwd_maximal(s, j + 1, kind);
    }
}

proof fn lemma_run_bounds(s: Seq<char>, j: int, kind: int)
    requires
        0 <= j <= s.len(),
    ensures
        0 <= run_back(s, j, kind) <= j,
        j <= run_fwd(s, j, kind) <= s.len(),
    decreases s.len() + j,
{
    if j > 0 && in_class(kind, s[j - 1]) {
        lemma_run_bounds(s, j - 1, kind);
    }
    if j < s.len() && in_class(kind, s[j]) {
        lemma_run_fwd_bounds(s, j + 1, kind);
    }
}

proof fn lemma_run_fwd_bounds(s: Seq<char>, j: int, kind: int)
    requires
        0 <= j <= s.len(),
    ensures
        j <= run_fwd(s, j, kind) <= s.len(),
    decreases s.len() - j,
{
    if j < s.len() && in_class(kind, s[j]) {
        lemma_run_fwd_bounds(s, j + 1, kind);
    }
}

/// Start and end (exclusive) of a run of identifier (`kind == 0`) or
/// operator characters around `idx`.
fn run_bounds(chars: &Vec<char>, idx: usize, kind: u8) -> (r: (usize, usize))
    requires
        idx < chars@.len(),
    ensures
        r.0 as int == run_back(chars@, idx as int, kind as int),
        r.1 as int == run_fwd(chars@, idx + 1, kind as int),
        r.0 <= idx < r.1 <= chars@.len(),
{
    let n = chars.len();
    let mut start = idx;
    while start > 0 && class_has(kind, chars[start - 1])
        invariant
            start <= idx < chars@.len(),
            run_back(chars@, idx as int, kind as int) == run_back(chars@, start as int, kind as int),
        decreases start,
    {
        start = start - 1;
    }
    let mut end = idx + 1;
    while end < chars.len() && class_has(kind, chars[end])
        invariant
            idx < end <= chars@.len(),
            run_fwd(chars@, idx + 1, kind as int) == run_fwd(chars@, end as int, kind as int),
        decreases chars@.len() - end,
    {
        end = end + 1;
    }
    (start, end)
}

fn class_has(kind: u8, c: char) -> (b: bool)
    ensures
        b == in_class(kind as int, c),
{
    if kind == 0 {
        is_alphanumeric(c) || c == '_'
    } else {
        is_operator(c)
    }
}

fn is_operator(c: char) -> (b: bool)
    ensures
        b == is_operator_char(c),
{
    c == '=' || c == '!' || c == '<' || c == '>' || c == '+' || c == '-' || c == '*' || c == '/'
        || c == '%' || c == ':' || c == '.'
}

/// Byte range `(start, end)` of the token that ends at or just before the
/// byte position `pos` of `code`, looking back over whitespace: a quoted
/// string (from the previous quote to the next one), a run of identifier
/// characters (letters, numbers, `_`; digits are among them, so a number
/// is taken by this branch and the number branch after it is reached only
/// by a character that is neither), a number with at most one dot, a run of
/// operator characters, or else the single character. `(0, 0)` for empty
/// code.
pub fn extract_last_token(code: &str, pos: usize) -> (r: (usize, usize))
    ensures
        (r.0 as int, r.1 as int) == spec_extract_last_token(code@, pos as int),
        r.0 <= r.1 <= code.len(),
{
    let chars = chars_of(code);
    if chars.len() == 0 {
        return (0, 0);
    }
    proof {
        lemma_byte_len_encode(code@);
    }
    let total = code.as_bytes().len();
    assert(total as int == byte_len(chars@));
    let offsets = char_offsets(chars.as_slice());
    let n = chars.len();
    let x = if pos < total { pos } else { total };
    // The character that holds the cursor.
    let mut c = n;
    while c > 0 && offsets[c] > x
        invariant
            c <= n,
            n == chars@.len(),
            offsets@.len() == n + 1,
            forall|k: int| 0 <= k <= n ==> #[trigger] offsets@[k] as int == byte_offset(chars@, k),
            index_at_most(chars@, x as int, n as int) == index_at_most(chars@, x as int, c as int),
        decreases c,
    {
        c = c - 1;
    }
    assert(index_at_most(chars@, x as int, c as int) == c);
    let mut idx = if c < n { c } else { n - 1 };
    assert(idx as int == (if index_at_most(chars@, x as int, n as int) < n { index_at_most(chars@, x as int, n as int) } else { n - 1 }));
    while idx > 0 && is_whitespace(chars[idx])
        invariant
            idx < n,
            n == chars@.len(),
            anchor_index(chars@, pos as int) == skip_ws_back(chars@, idx as int),
        decreases idx,
    {
        idx = idx - 1;
    }
    assert(skip_ws_back(chars@, idx as int) == idx as int);
    proof {
        lemma_byte_offset_mono(chars@, 0, n as int);
    }
    let ch = chars[idx];
    let (start, end): (usize, usize) = if ch == '"' || ch == '\'' {
        let mut start = idx;
        let mut found = false;
        while start > 0 && !found
            invariant
                start <= idx < n,
                n == chars@.len(),
                found ==> quote_start(chars@, idx as int, ch) == start,
                !found ==> quote_start(chars@, idx as int, ch) == quote_start(chars@, start as int, ch),
            decreases start, (if found { 0int } else { 1int }),
        {
            start = start - 1;
            if chars[start] == ch {
                found = true;
            }
        }
        let mut end = idx + 1;
        let mut closed = false;
        while end < n && !closed
            invariant
                idx < end <= n,
                n == chars@.len(),
                closed ==> quote_end(chars@, idx + 1, ch) == end,
                !closed ==> quote_end(chars@, idx + 1, ch) == quote_end(chars@, end as int, ch),
            decreases n - end, (if closed { 0int } else { 1int }),
        {
            if chars[end] == ch {
                closed = true;
            }
            end = end + 1;
        }
        (start, end)
    } else if is_alphanumeric(ch) || ch == '_' {
        run_bounds(&chars, idx, 0)
    } else if '0' <= ch && ch <= '9' {
        let mut start = idx;
        let mut seen_dot = false;
        let mut stop = false;
        while start > 0 && !stop
            invariant
                start <= idx < n,
                n == chars@.len(),
                stop ==> number_back(chars@, idx as int, false) == (start as int, seen_dot),
                !stop ==> number_back(chars@, idx as int, false) == number_back(chars@, start as int, seen_dot),
            decreases start, (if stop { 0int } else { 1int }),
        {
            let p = chars[start - 1];
            if p == '.' && !seen_dot {
                seen_dot = true;
                start = start - 1;
            } else if '0' <= p && p <= '9' {
                start = start - 1;
            } else {
                stop = true;
            }
        }
        let ghost seen0 = seen_dot;
        let mut end = idx + 1;
        let mut stop2 = false;
        while end < n && !stop2
            invariant
                idx < end <= n,
                n == chars@.len(),
                stop2 ==> number_fwd(chars@, idx + 1, seen0) == end,
                !stop2 ==> number_fwd(chars@, idx + 1, seen0) == number_fwd(chars@, end as int, seen_dot),
            decreases n - end, (if stop2 { 0int } else { 1int }),
        {
            let p = chars[end];
            if p == '.' && !seen_dot {
                seen_dot = true;
                end = end + 1;
            } else if '0' <= p && p <= '9' {
                end = end + 1;
            } else {
                stop2 = true;
            }
        }
        (start, end)
    } else if is_operator(ch) {
        run_bounds(&chars, idx, 1)
    } else {
        (idx, idx + 1)
    };
    proof {
        lemma_byte_offset_mono(chars@, start as int, end as int);
        lemma_byte_offset_mono(chars@, end as int, n as int);
        assert(chars@.take(n as int) == chars@);
    }
    (offsets[start], offsets[end])
}


/// The index of the last character boundary of `cs` at or below byte `x`,
/// searching down from character index `k`.
pub open spec fn boundary_index_before(cs: Seq<char>, x: int, k: int) -> int
    decreases k,
{
    if k <= 0 || byte_offset(cs, k) <= x {
        k
    } else {
        boundary_index_before(cs, x, k - 1)
    }
}

/// The index of the first character boundary of `cs` at or above byte `x`,
/// searching up from character index `k`.
pub open spec fn boundary_index_after(cs: Seq<char>, x: int, k: int) -> int
    decreases cs.len() - k,
{
    if k >= cs.len() || byte_offset(cs, k) >= x {
        k
    } else {
        boundary_index_after(cs, x, k + 1)
    }
}

/// The last character boundary of `cs` at or below byte `x` (clamped to
/// the end).
pub open spec fn previous_boundary(cs: Seq<char>, x: int) -> int {
    byte_offset(cs, boundary_index_before(cs, if x < byte_len(cs) { x } else { byte_len(cs) }, cs.len() as int))
}

/// The first character boundary of `cs` at or above byte `x` (clamped to
/// the end).
pub open spec fn next_boundary(cs: Seq<char>, x: int) -> int {
    byte_offset(cs, boundary_index_after(cs, if x < byte_len(cs) { x } else { byte_len(cs) }, 0))
}

fn boundary_before(offsets: &Vec<usize>, n: usize, x: usize) -> (r: usize)
    requires
        offsets@.len() == n + 1,
    ensures
        r <= n,
        r as int == boundary_index_before_of(offsets@, x as int, n as int),
{
    let mut k = n;
    while k > 0 && offsets[k] > x
        invariant
            k <= n,
            offsets@.len() == n + 1,
            boundary_index_before_of(offsets@, x as int, n as int) == boundary_index_before_of(offsets@, x as int, k as int),
        decreases k,
    {
        k = k - 1;
    }
    k
}

/// [`boundary_index_before`] over a table of offsets.
pub open spec fn boundary_index_before_of(offs: Seq<usize>, x: int, k: int) -> int
    decreases k,
{
    if k <= 0 || offs[k] <= x {
        k
    } else {
        boundary_index_before_of(offs, x, k - 1)
    }
}

/// [`boundary_index_after`] over a table of offsets.
pub open spec fn boundary_index_after_of(offs: Seq<usize>, n: int, x: int, k: int) -> int
    decreases n - k,
{
    if k >= n || offs[k] >= x {
        k
    } else {
        boundary_index_after_of(offs, n, x, k + 1)
    }
}

proof fn lemma_before_of(cs: Seq<char>, offs: Seq<usize>, x: int, k: int)
    requires
        0 <= k <= cs.len(),
        offs.len() == cs.len() + 1,
        forall|j: int| 0 <= j <= cs.len() ==> #[trigger] offs[j] as int == byte_offset(cs, j),
    ensures
        boundary_index_before_of(offs, x, k) == boundary_index_before(cs, x, k),
    decreases k,
{
    if k > 0 {
        assert(offs[k] as int == byte_offset(cs, k));
        lemma_before_of(cs, offs, x, k - 1);
    }
}

proof fn lemma_after_of(cs: Seq<char>, offs: Seq<usize>, x: int, k: int)
    requires
        0 <= k <= cs.len(),
        offs.len() == cs.len() + 1,
        forall|j: int| 0 <= j <= cs.len() ==> #[trigger] offs[j] as int == byte_offset(cs, j),
    ensures
        boundary_index_after_of(offs, cs.len() as int, x, k) == boundary_index_after(cs, x, k),
    decreases cs.len() - k,
{
    assert(offs[k] as int == byte_offset(cs, k));
    if k < cs.len() {
        lemma_after_of(cs, offs, x, k + 1);
    }
}

fn boundary_after(offsets: &Vec<usize>, n: usize, x: usize) -> (r: usize)
    requires
        offsets@.len() == n + 1,
    ensures
        r <= n,
        r as int == boundary_index_after_of(offsets@, n as int, x as int, 0),
{
    let mut k: usize = 0;
    while k < n && offsets[k] < x
        invariant
            k <= n,
            offsets@.len() == n + 1,
            boundary_index_after_of(offsets@, n as int, x as int, 0) == boundary_index_after_of(offsets@, n as int, x as int, k as int),
        decreases n - k,
    {
        k = k + 1;
    }
    k
}

/// The last character boundary of `s` at or below byte `index`.
pub fn previous_char_boundary(s: &str, index: usize) -> (r: usize)
    ensures
        r as int == previous_boundary(s@, index as int),
{
    let cs = chars_of(s);
    proof {
        lemma_byte_len_encode(s@);
    }
    let total = s.as_bytes().len();
    assert(total as int == byte_len(cs@));
    let offsets = char_offsets(cs.as_slice());
    let x = if index < total { index } else { total };
    let k = boundary_before(&offsets, cs.len(), x);
    proof {
        lemma_before_of(cs@, offsets@, x as int, cs@.len() as int);
    }
    offsets[k]
}

/// The first character boundary of `s` at or above byte `index`.
pub fn next_char_boundary(s: &str, index: usize) -> (r: usize)
    ensures
        r as int == next_boundary(s@, index as int),
{
    let cs = chars_of(s);
    proof {
        lemma_byte_len_encode(s@);
    }
    let total = s.as_bytes().len();
    assert(total as int == byte_len(cs@));
    let offsets = char_offsets(cs.as_slice());
    let x = if index < total { index } else { total };
    let k = boundary_after(&offsets, cs.len(), x);
    proof {
        lemma_after_of(cs@, offsets@, x as int, 0);
    }
    offsets[k]
}

/// The byte range of the character at byte `location` of `code`: from the
/// boundary at or before it to the next one after it.
pub open spec fn char_range_at(code: Seq<char>, location: int) -> (int, int) {
    let start = previous_boundary(code, location);
    let end = next_boundary(code, location);
    if end == start && end < byte_len(code) {
        (start, next_boundary(code, end + 1))
    } else {
        (start, end)
    }
}

/// The byte range of the character at byte `location` of `code`, for
/// reporting a token that the grammar rejected.
pub fn token_range_at(code: &str, location: usize) -> (r: (usize, usize))
    ensures
        (r.0 as int, r.1 as int) == char_range_at(code@, location as int),
{
    let start = previous_char_boundary(code, location);
    let mut end = next_char_boundary(code, location);
    proof {
        lemma_byte_len_encode(code@);
    }
    let total = code.as_bytes().len();
    assert(total as int == byte_len(code@));
    proof {
        lemma_next_boundary_bounded(code@, location as int);
    }
    if end == start && end < total {
        end = next_char_boundary(code, end + 1);
    }
    (start, end)
}

proof fn lemma_next_boundary_bounded(cs: Seq<char>, x: int)
    ensures
        next_boundary(cs, x) <= byte_len(cs),
{
    let y = if x < byte_len(cs) { x } else { byte_len(cs) };
    lemma_after_index_bounded(cs, y, 0);
    let k = boundary_index_after(cs, y, 0);
    assert(cs.take(cs.len() as int) =~= cs);
    lemma_byte_offset_mono(cs, k, cs.len() as int);
}

proof fn lemma_after_index_bounded(cs: Seq<char>, x: int, k: int)
    requires
        0 <= k <= cs.len(),
    ensures
        0 <= boundary_index_after(cs, x, k) <= cs.len(),
    decreases cs.len() - k,
{
    if k < cs.len() {
        lemma_after_index_bounded(cs, x, k + 1);
    }
}

/// A message with the list of what the grammar expected, if any.
pub open spec fn expected_message(prefix: Seq<char>, expected: Seq<Seq<char>>) -> Seq<char> {
    if expected.len() == 0 {
        prefix
    } else {
        prefix + "; ожидалось: "@ + join(expected, ", "@)
    }
}

/// `prefix`, followed by the list of what the grammar expected.
pub fn format_expected(prefix: &str, expected: &Vec<String>) -> (r: String)
    ensures
        r@ == expected_message(prefix@, views(expected@)),
{
    let mut out = String::from_str(prefix);
    if expected.len() > 0 {
        out.append("; ожидалось: ");
        let listed = join_strings(expected, ", ");
        out.append(listed.as_str());
    }
    out
}

/// The line and column (both from 0) of the character at index
/// `char_offset` of `code`.
pub open spec fn line_col(code: Seq<char>, char_offset: int) -> (int, int)
    decreases code.len(),
{
    let n = if char_offset < code.len() { char_offset } else { code.len() as int };
    if n <= 0 {
        (0, 0)
    } else {
        let (line, col) = line_col(code.take(n - 1), n - 1);
        if code[n - 1] == '\n' {
            (line + 1, 0)
        } else {
            (line, col + 1)
        }
    }
}

/// The line and column (both from 0) of the character at index
/// `char_offset` of `code`; past the end, of the end.
pub fn get_line_col_from_char_offset(code: &str, char_offset: usize) -> (r: (usize, usize))
    ensures
        (r.0 as int, r.1 as int) == line_col(code@, char_offset as int),
{
    let cs = chars_of(code);
    let n = if char_offset < cs.len() { char_offset } else { cs.len() };
    let mut line: usize = 0;
    let mut col: usize = 0;
    let mut i: usize = 0;
    assert(cs@.take(0) =~= Seq::<char>::empty());
    while i < n
        invariant
            cs@ == code@,
            n <= cs@.len(),
            i <= n,
            line <= i,
            col <= i,
            (line as int, col as int) == line_col(cs@.take(i as int), i as int),
        decreases n - i,
    {
        proof {
            let t = cs@.take(i + 1);
            assert(t.take(i as int) =~= cs@.take(i as int));
            assert(t[i as int] == cs@[i as int]);
        }
        if cs[i] == '\n' {
            line = line + 1;
            col = 0;
        } else {
            col = col + 1;
        }
        i = i + 1;
    }
    proof {
        lemma_line_col_prefix(cs@, char_offset as int);
    }
    (line, col)
}

/// Only the characters before the offset matter.
proof fn lemma_line_col_prefix(cs: Seq<char>, offset: int)
    requires
        offset >= 0,
    ensures
        line_col(cs, offset) == line_col(cs.take(if offset < cs.len() { offset } else { cs.len() as int }), if offset < cs.len() {
            offset
        } else {
            cs.len() as int
        }),
{
    let n = if offset < cs.len() { offset } else { cs.len() as int };
    let t = cs.take(n);
    if n > 0 {
        assert(t.take(n - 1) =~= cs.take(n - 1));
        assert(t[n - 1] == cs[n - 1]);
    }
}

} // verus!

