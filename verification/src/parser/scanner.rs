//! Splitting source text into raw tokens: at each position the longest
//! token wins, keywords over identifiers of the same length; spaces, tabs,
//! form feeds and `//` comments are skipped, and a character that starts no
//! token is reported as an error of its own.
use vstd::prelude::*;
use crate::parser::lexer::{token_kind, LexicalError, SpannedToken, Token};
use crate::parser::utils::{alphanumeric, is_alphanumeric};
use crate::text::{byte_len, byte_offset, char_offsets, chars_of, lemma_byte_len_encode, push_char, str_eq, string_from_chars};

verus! {

// ---------------------------------------------------------------------------
// Character classes
// ---------------------------------------------------------------------------

/// What `char::is_alphabetic` answers for `c` (a character with the
/// Unicode `Alphabetic` property).
pub uninterp spec fn alphabetic(c: char) -> bool;

/// `char::is_alphabetic`; on ASCII exactly the Latin letters, as its
/// documentation and the Unicode `Alphabetic` property give.
#[verifier::external_body]
fn is_alphabetic(c: char) -> (b: bool)
    ensures
        b == alphabetic(c),
        (c as u32) < 128 ==> (b <==> (('a' <= c && c <= 'z') || ('A' <= c && c <= 'Z'))),
{
    c.is_alphabetic()
}

/// Characters skipped between tokens.
pub open spec fn is_blank(c: char) -> bool {
    c == ' ' || c == '\t' || c == '\x0c'
}

/// `0` to `9`.
pub open spec fn is_decimal(c: char) -> bool {
    '0' <= c <= '9'
}

/// Characters that may start an identifier.
pub open spec fn ident_start(c: char) -> bool {
    alphabetic(c) || c == '_'
}

/// Characters that may continue an identifier.
pub open spec fn ident_continue(c: char) -> bool {
    alphanumeric(c) || c == '_'
}

/// The character classes that runs are measured in: blanks (0), decimal
/// digits (1), identifier characters (2), anything but a line feed (3) and
/// line feeds (4).
pub open spec fn in_run_class(class: int, c: char) -> bool {
    if class == 0 {
        is_blank(c)
    } else if class == 1 {
        is_decimal(c)
    } else if class == 2 {
        ident_continue(c)
    } else if class == 3 {
        c != '\n'
    } else {
        c == '\n'
    }
}

/// The length of the run of class-`class` characters at `i`.
pub open spec fn run(cs: Seq<char>, i: int, class: int) -> int
    decreases cs.len() - i,
{
    if 0 <= i < cs.len() && in_run_class(class, cs[i]) {
        1 + run(cs, i + 1, class)
    } else {
        0
    }
}

fn in_class(class: u8, c: char) -> (b: bool)
    ensures
        b == in_run_class(class as int, c),
{
    if class == 0 {
        c == ' ' || c == '\t' || c == '\x0c'
    } else if class == 1 {
        '0' <= c && c <= '9'
    } else if class == 2 {
        is_alphanumeric(c) || c == '_'
    } else if class == 3 {
        c != '\n'
    } else {
        c == '\n'
    }
}

/// The length of the run of class-`class` characters at `i`.
fn run_len(cs: &Vec<char>, i: usize, class: u8) -> (r: usize)
    requires
        i <= cs@.len(),
    ensures
        r as int == run(cs@, i as int, class as int),
        i + r <= cs@.len(),
{
    let mut j = i;
    while j < cs.len() && in_class(class, cs[j])
        invariant
            i <= j <= cs@.len(),
            run(cs@, i as int, class as int) == (j - i) + run(cs@, j as int, class as int),
        decreases cs@.len() - j,
    {
        j = j + 1;
    }
    j - i
}

// ---------------------------------------------------------------------------
// Literals
// ---------------------------------------------------------------------------

/// The index just after the closing quote of a string literal whose body
/// starts at `j`, or `-1` when it is not closed: a backslash escapes the
/// next character, which may not be a line feed.
pub open spec fn string_end(cs: Seq<char>, j: int) -> int
    decreases cs.len() - j,
{
    if j < 0 || j >= cs.len() {
        -1
    } else if cs[j] == '"' {
        j + 1
    } else if cs[j] == '\\' {
        if j + 1 < cs.len() && cs[j + 1] != '\n' {
            string_end(cs, j + 2)
        } else {
            -1
        }
    } else {
        string_end(cs, j + 1)
    }
}

fn find_string_end(cs: &Vec<char>, start: usize) -> (r: Option<usize>)
    requires
        start <= cs@.len(),
    ensures
        match r {
            Some(e) => e as int == string_end(cs@, start as int) && start < e <= cs@.len(),
            None => string_end(cs@, start as int) == -1,
        },
{
    let mut j = start;
    while j < cs.len()
        invariant
            start <= j,
            j <= cs@.len() + 1,
            string_end(cs@, start as int) == string_end(cs@, j as int),
        decreases cs@.len() + 1 - j,
    {
        if cs[j] == '"' {
            return Some(j + 1);
        } else if cs[j] == '\\' {
            if j + 1 < cs.len() && cs[j + 1] != '\n' {
                j = j + 2;
            } else {
                return None;
            }
        } else {
            j = j + 1;
        }
    }
    None
}

/// The text of a string literal's body with its escapes decoded: `\n`,
/// `\t`, `\"` and `\\` stand for one character; any other backslash stays.
pub open spec fn unescape(raw: Seq<char>, j: int) -> Seq<char>
    decreases raw.len() - j,
{
    if j < 0 || j >= raw.len() {
        seq![]
    } else if raw[j] == '\\' {
        if j + 1 < raw.len() {
            let c = raw[j + 1];
            let decoded = if c == 'n' {
                seq!['\n']
            } else if c == 't' {
                seq!['\t']
            } else if c == '"' {
                seq!['"']
            } else if c == '\\' {
                seq!['\\']
            } else {
                seq!['\\', c]
            };
            decoded + unescape(raw, j + 2)
        } else {
            seq!['\\']
        }
    } else {
        seq![raw[j]] + unescape(raw, j + 1)
    }
}

/// Decodes the escapes of `cs[start..end]`.
fn decode_string(cs: &Vec<char>, start: usize, end: usize) -> (r: String)
    requires
        start <= end <= cs@.len(),
    ensures
        r@ == unescape(cs@.subrange(start as int, end as int), 0),
{
    let ghost raw = cs@.subrange(start as int, end as int);
    let mut out = String::new();
    let mut j = start;
    while j < end
        invariant
            start <= j <= end <= cs@.len(),
            raw == cs@.subrange(start as int, end as int),
            unescape(raw, 0) == out@ + unescape(raw, j - start),
        decreases end - j,
    {
        let ghost before = out@;
        if cs[j] == '\\' {
            if j + 1 < end {
                let c = cs[j + 1];
                if c == 'n' {
                    push_char(&mut out, '\n');
                } else if c == 't' {
                    push_char(&mut out, '\t');
                } else if c == '"' {
                    push_char(&mut out, '"');
                } else if c == '\\' {
                    push_char(&mut out, '\\');
                } else {
                    push_char(&mut out, '\\');
                    push_char(&mut out, c);
                }
                proof {
                    assert(out@ =~= before + (if c == 'n' {
                        seq!['\n']
                    } else if c == 't' {
                        seq!['\t']
                    } else if c == '"' {
                        seq!['"']
                    } else if c == '\\' {
                        seq!['\\']
                    } else {
                        seq!['\\', c]
                    }));
                }
                j = j + 2;
                proof {
                    if j > end {
                        assert(unescape(raw, j - start) == Seq::<char>::empty());
                    }
                }
            } else {
                push_char(&mut out, '\\');
                j = end;
            }
        } else {
            push_char(&mut out, cs[j]);
            j = j + 1;
        }
    }
    assert(unescape(raw, j - start) == Seq::<char>::empty());
    out
}

/// The value of a run of decimal digits.
pub open spec fn decimal_value(ds: Seq<char>) -> int
    decreases ds.len(),
{
    if ds.len() == 0 {
        0
    } else {
        decimal_value(ds.drop_last()) * 10 + (ds.last() as int - '0' as int)
    }
}

/// Extending a run of digits never lowers its value.
pub proof fn lemma_decimal_value_grows(ds: Seq<char>, k: int)
    requires
        0 <= k <= ds.len(),
        forall|j: int| 0 <= j < ds.len() ==> is_decimal(#[trigger] ds[j]),
    ensures
        0 <= decimal_value(ds.take(k)) <= decimal_value(ds),
    decreases ds.len() - k,
{
    if k < ds.len() {
        let s = ds.take(k + 1);
        assert(s.drop_last() =~= ds.take(k));
        assert(is_decimal(s.last()));
        lemma_decimal_value_grows(ds, k + 1);
    } else {
        assert(ds.take(k) =~= ds);
        lemma_decimal_value_nonneg(ds);
    }
}

/// A run of digits has a value of at least zero.
pub proof fn lemma_decimal_value_nonneg(ds: Seq<char>)
    requires
        forall|j: int| 0 <= j < ds.len() ==> is_decimal(#[trigger] ds[j]),
    ensures
        decimal_value(ds) >= 0,
    decreases ds.len(),
{
    if ds.len() > 0 {
        assert(is_decimal(ds[ds.len() - 1]));
        lemma_decimal_value_nonneg(ds.drop_last());
    }
}

/// The value of the digits `cs[start..end]`, or `None` when it exceeds
/// `i64::MAX`.
fn parse_decimal(cs: &Vec<char>, start: usize, end: usize) -> (r: Option<i64>)
    requires
        start <= end <= cs@.len(),
        forall|j: int| start <= j < end ==> is_decimal(#[trigger] cs@[j]),
    ensures
        match r {
            Some(v) => v as int == decimal_value(cs@.subrange(start as int, end as int)),
            None => decimal_value(cs@.subrange(start as int, end as int)) > i64::MAX,
        },
{
    let ghost ds = cs@.subrange(start as int, end as int);
    let mut value: i64 = 0;
    let mut j = start;
    while j < end
        invariant
            start <= j <= end <= cs@.len(),
            ds == cs@.subrange(start as int, end as int),
            forall|k: int| start <= k < end ==> is_decimal(#[trigger] cs@[k]),
            value as int == decimal_value(ds.take(j - start)),
            value >= 0,
        decreases end - j,
    {
        let d = (cs[j] as u32 - '0' as u32) as i64;
        proof {
            assert(ds.take(j - start + 1).drop_last() =~= ds.take(j - start));
            assert(ds.take(j - start + 1).last() == cs@[j as int]);
            assert(is_decimal(cs@[j as int]));
        }
        if value > (i64::MAX - d) / 10 {
            proof {
                assert(value * 10 + d > i64::MAX) by (nonlinear_arith)
                    requires
                        value > (i64::MAX - d) / 10,
                        0 <= d <= 9,
                ;
                assert forall|k: int| 0 <= k < ds.len() implies is_decimal(#[trigger] ds[k]) by {
                    assert(ds[k] == cs@[start + k]);
                }
                lemma_decimal_value_grows(ds, j - start + 1);
            }
            return None;
        }
        proof {
            assert(value * 10 + d <= i64::MAX) by (nonlinear_arith)
                requires
                    value <= (i64::MAX - d) / 10,
                    0 <= d <= 9,
                    value >= 0,
            ;
        }
        value = value * 10 + d;
        j = j + 1;
    }
    assert(ds.take(end - start) =~= ds);
    Some(value)
}


// ---------------------------------------------------------------------------
// Words and punctuation
// ---------------------------------------------------------------------------

/// The keyword spelled by `w`, if any.
pub open spec fn keyword_of(w: Seq<char>) -> Option<Token> {
    if w == "подключить"@ {
        Some(Token::KwImport)
    } else if w == "из"@ {
        Some(Token::KwFrom)
    } else if w == "функция"@ {
        Some(Token::KwFunction)
    } else if w == "библиотека"@ {
        Some(Token::KwLibrary)
    } else if w == "переменная"@ {
        Some(Token::KwVariable)
    } else if w == "класс"@ {
        Some(Token::KwClass)
    } else if w == "конструктор"@ {
        Some(Token::KwConstructor)
    } else if w == "публичный"@ {
        Some(Token::KwPublic)
    } else if w == "приватный"@ {
        Some(Token::KwPrivate)
    } else if w == "статичный"@ {
        Some(Token::KwStatic)
    } else if w == "константа"@ {
        Some(Token::KwConst)
    } else if w == "если"@ {
        Some(Token::KwIf)
    } else if w == "иначе"@ {
        Some(Token::KwElse)
    } else if w == "пока"@ {
        Some(Token::KwWhile)
    } else if w == "для"@ {
        Some(Token::KwFor)
    } else if w == "поток"@ {
        Some(Token::KwThread)
    } else if w == "попробовать"@ {
        Some(Token::KwTry)
    } else if w == "перехватить"@ {
        Some(Token::KwCatch)
    } else if w == "выбросить"@ {
        Some(Token::KwRaise)
    } else if w == "как"@ {
        Some(Token::KwAs)
    } else if w == "новый"@ {
        Some(Token::KwNew)
    } else if w == "вернуть"@ {
        Some(Token::KwReturn)
    } else if w == "и"@ {
        Some(Token::KwAnd)
    } else if w == "или"@ {
        Some(Token::KwOr)
    } else if w == "истина"@ {
        Some(Token::True)
    } else if w == "ложь"@ {
        Some(Token::False)
    } else if w == "пустота"@ {
        Some(Token::Empty)
    } else {
        None
    }
}

/// The number of keywords of the language.
pub open spec fn keyword_count() -> int {
    27
}

/// Entry `i` of the language's keyword table: a spelling and the token it
/// is (`пока` is the `while` keyword, `для` the `for` keyword, ...).
pub open spec fn keyword_entry(i: int) -> (Seq<char>, Token) {
    if i == 0 {
        ("подключить"@, Token::KwImport)
    } else if i == 1 {
        ("из"@, Token::KwFrom)
    } else if i == 2 {
        ("функция"@, Token::KwFunction)
    } else if i == 3 {
        ("библиотека"@, Token::KwLibrary)
    } else if i == 4 {
        ("переменная"@, Token::KwVariable)
    } else if i == 5 {
        ("класс"@, Token::KwClass)
    } else if i == 6 {
        ("конструктор"@, Token::KwConstructor)
    } else if i == 7 {
        ("публичный"@, Token::KwPublic)
    } else if i == 8 {
        ("приватный"@, Token::KwPrivate)
    } else if i == 9 {
        ("статичный"@, Token::KwStatic)
    } else if i == 10 {
        ("константа"@, Token::KwConst)
    } else if i == 11 {
        ("если"@, Token::KwIf)
    } else if i == 12 {
        ("иначе"@, Token::KwElse)
    } else if i == 13 {
        ("пока"@, Token::KwWhile)
    } else if i == 14 {
        ("для"@, Token::KwFor)
    } else if i == 15 {
        ("поток"@, Token::KwThread)
    } else if i == 16 {
        ("попробовать"@, Token::KwTry)
    } else if i == 17 {
        ("перехватить"@, Token::KwCatch)
    } else if i == 18 {
        ("выбросить"@, Token::KwRaise)
    } else if i == 19 {
        ("как"@, Token::KwAs)
    } else if i == 20 {
        ("новый"@, Token::KwNew)
    } else if i == 21 {
        ("вернуть"@, Token::KwReturn)
    } else if i == 22 {
        ("и"@, Token::KwAnd)
    } else if i == 23 {
        ("или"@, Token::KwOr)
    } else if i == 24 {
        ("истина"@, Token::True)
    } else if i == 25 {
        ("ложь"@, Token::False)
    } else if i == 26 {
        ("пустота"@, Token::Empty)
    } else {
        (Seq::empty(), Token::Eof)
    }
}

/// The token of the first table entry from `i` on spelled `w`.
pub open spec fn table_keyword(w: Seq<char>, i: int) -> Option<Token>
    decreases keyword_count() - i,
{
    if i < 0 || i >= keyword_count() {
        None
    } else if keyword_entry(i).0 == w {
        Some(keyword_entry(i).1)
    } else {
        table_keyword(w, i + 1)
    }
}

/// Every keyword spelling scans to its own fixed token: a word is a
/// keyword exactly when the keyword table lists it, and its token is the
/// one the table gives.
pub proof fn lemma_keywords_follow_table(w: Seq<char>)
    ensures
        keyword_of(w) == table_keyword(w, 0),
{
    reveal_with_fuel(table_keyword, 29);
}

fn keyword(word: &str) -> (r: Option<Token>)
    ensures
        r == keyword_of(word@),
        r == table_keyword(word@, 0),
{
    proof {
        lemma_keywords_follow_table(word@);
    }
    if str_eq(word, "подключить") {
        Some(Token::KwImport)
    } else if str_eq(word, "из") {
        Some(Token::KwFrom)
    } else if str_eq(word, "функция") {
        Some(Token::KwFunction)
    } else if str_eq(word, "библиотека") {
        Some(Token::KwLibrary)
    } else if str_eq(word, "переменная") {
        Some(Token::KwVariable)
    } else if str_eq(word, "класс") {
        Some(Token::KwClass)
    } else if str_eq(word, "конструктор") {
        Some(Token::KwConstructor)
    } else if str_eq(word, "публичный") {
        Some(Token::KwPublic)
    } else if str_eq(word, "приватный") {
        Some(Token::KwPrivate)
    } else if str_eq(word, "статичный") {
        Some(Token::KwStatic)
    } else if str_eq(word, "константа") {
        Some(Token::KwConst)
    } else if str_eq(word, "если") {
        Some(Token::KwIf)
    } else if str_eq(word, "иначе") {
        Some(Token::KwElse)
    } else if str_eq(word, "пока") {
        Some(Token::KwWhile)
    } else if str_eq(word, "для") {
        Some(Token::KwFor)
    } else if str_eq(word, "поток") {
        Some(Token::KwThread)
    } else if str_eq(word, "попробовать") {
        Some(Token::KwTry)
    } else if str_eq(word, "перехватить") {
        Some(Token::KwCatch)
    } else if str_eq(word, "выбросить") {
        Some(Token::KwRaise)
    } else if str_eq(word, "как") {
        Some(Token::KwAs)
    } else if str_eq(word, "новый") {
        Some(Token::KwNew)
    } else if str_eq(word, "вернуть") {
        Some(Token::KwReturn)
    } else if str_eq(word, "и") {
        Some(Token::KwAnd)
    } else if str_eq(word, "или") {
        Some(Token::KwOr)
    } else if str_eq(word, "истина") {
        Some(Token::True)
    } else if str_eq(word, "ложь") {
        Some(Token::False)
    } else if str_eq(word, "пустота") {
        Some(Token::Empty)
    } else {
        None
    }
}

/// The operator written with the two characters `c d`, if any.
pub open spec fn two_char_token(c: char, d: char) -> Option<Token> {
    if c == '=' && d == '>' {
        Some(Token::FatArrow)
    } else if c == '-' && d == '>' {
        Some(Token::Arrow)
    } else if c == '=' && d == '=' {
        Some(Token::EqEq)
    } else if c == '!' && d == '=' {
        Some(Token::NotEq)
    } else if c == '<' && d == '=' {
        Some(Token::Le)
    } else if c == '>' && d == '=' {
        Some(Token::Ge)
    } else if c == '+' && d == '=' {
        Some(Token::PlusEq)
    } else if c == '-' && d == '=' {
        Some(Token::MinusEq)
    } else if c == '*' && d == '=' {
        Some(Token::StarEq)
    } else if c == '/' && d == '=' {
        Some(Token::SlashEq)
    } else if c == '%' && d == '=' {
        Some(Token::PercentEq)
    } else {
        None
    }
}

fn two_char(c: char, d: char) -> (r: Option<Token>)
    ensures
        r == two_char_token(c, d),
{
    if c == '=' && d == '>' {
        Some(Token::FatArrow)
    } else if c == '-' && d == '>' {
        Some(Token::Arrow)
    } else if c == '=' && d == '=' {
        Some(Token::EqEq)
    } else if c == '!' && d == '=' {
        Some(Token::NotEq)
    } else if c == '<' && d == '=' {
        Some(Token::Le)
    } else if c == '>' && d == '=' {
        Some(Token::Ge)
    } else if c == '+' && d == '=' {
        Some(Token::PlusEq)
    } else if c == '-' && d == '=' {
        Some(Token::MinusEq)
    } else if c == '*' && d == '=' {
        Some(Token::StarEq)
    } else if c == '/' && d == '=' {
        Some(Token::SlashEq)
    } else if c == '%' && d == '=' {
        Some(Token::PercentEq)
    } else {
        None
    }
}

/// The punctuation written with the single character `c`, if any.
/// The number of one-character symbols of the language.
pub open spec fn one_char_count() -> int {
    19
}

/// Entry `i` of the language's table of one-character symbols: the
/// character and the token it is (`{` is `LBrace`, `[` is `LBracket`, ...).
pub open spec fn one_char_entry(i: int) -> (char, Token) {
    if i == 0 {
        (';', Token::Semi)
    } else if i == 1 {
        ('=', Token::Eq)
    } else if i == 2 {
        ('<', Token::Lt)
    } else if i == 3 {
        ('>', Token::Gt)
    } else if i == 4 {
        ('+', Token::Plus)
    } else if i == 5 {
        ('-', Token::Minus)
    } else if i == 6 {
        ('*', Token::Star)
    } else if i == 7 {
        ('/', Token::Slash)
    } else if i == 8 {
        ('%', Token::Percent)
    } else if i == 9 {
        ('!', Token::Bang)
    } else if i == 10 {
        ('.', Token::Dot)
    } else if i == 11 {
        (',', Token::Comma)
    } else if i == 12 {
        (':', Token::Colon)
    } else if i == 13 {
        ('(', Token::LParen)
    } else if i == 14 {
        (')', Token::RParen)
    } else if i == 15 {
        ('{', Token::LBrace)
    } else if i == 16 {
        ('}', Token::RBrace)
    } else if i == 17 {
        ('[', Token::LBracket)
    } else if i == 18 {
        (']', Token::RBracket)
    } else {
        (' ', Token::Eof)
    }
}

/// The number of two-character symbols of the language.
pub open spec fn two_char_count() -> int {
    11
}

/// Entry `i` of the language's table of two-character symbols.
pub open spec fn two_char_entry(i: int) -> (char, char, Token) {
    if i == 0 {
        ('=', '>', Token::FatArrow)
    } else if i == 1 {
        ('-', '>', Token::Arrow)
    } else if i == 2 {
        ('=', '=', Token::EqEq)
    } else if i == 3 {
        ('!', '=', Token::NotEq)
    } else if i == 4 {
        ('<', '=', Token::Le)
    } else if i == 5 {
        ('>', '=', Token::Ge)
    } else if i == 6 {
        ('+', '=', Token::PlusEq)
    } else if i == 7 {
        ('-', '=', Token::MinusEq)
    } else if i == 8 {
        ('*', '=', Token::StarEq)
    } else if i == 9 {
        ('/', '=', Token::SlashEq)
    } else if i == 10 {
        ('%', '=', Token::PercentEq)
    } else {
        (' ', ' ', Token::Eof)
    }
}

/// The token of the first one-character entry from `i` on for `c`.
pub open spec fn table_one_char(c: char, i: int) -> Option<Token>
    decreases one_char_count() - i,
{
    if i < 0 || i >= one_char_count() {
        None
    } else if one_char_entry(i).0 == c {
        Some(one_char_entry(i).1)
    } else {
        table_one_char(c, i + 1)
    }
}

/// The token of the first two-character entry from `i` on for `c d`.
pub open spec fn table_two_char(c: char, d: char, i: int) -> Option<Token>
    decreases two_char_count() - i,
{
    if i < 0 || i >= two_char_count() {
        None
    } else if two_char_entry(i).0 == c && two_char_entry(i).1 == d {
        Some(two_char_entry(i).2)
    } else {
        table_two_char(c, d, i + 1)
    }
}

/// Every symbol scans to its own fixed token: a character or a pair of
/// characters is a symbol exactly when the symbol tables list it, and its
/// token is the one the table gives.
pub proof fn lemma_symbols_follow_table(c: char, d: char)
    ensures
        one_char_token(c) == table_one_char(c, 0),
        two_char_token(c, d) == table_two_char(c, d, 0),
{
    reveal_with_fuel(table_one_char, 21);
    reveal_with_fuel(table_two_char, 13);
}

pub open spec fn one_char_token(c: char) -> Option<Token> {
    if c == ';' {
        Some(Token::Semi)
    } else if c == '=' {
        Some(Token::Eq)
    } else if c == '<' {
        Some(Token::Lt)
    } else if c == '>' {
        Some(Token::Gt)
    } else if c == '+' {
        Some(Token::Plus)
    } else if c == '-' {
        Some(Token::Minus)
    } else if c == '*' {
        Some(Token::Star)
    } else if c == '/' {
        Some(Token::Slash)
    } else if c == '%' {
        Some(Token::Percent)
    } else if c == '!' {
        Some(Token::Bang)
    } else if c == '.' {
        Some(Token::Dot)
    } else if c == ',' {
        Some(Token::Comma)
    } else if c == ':' {
        Some(Token::Colon)
    } else if c == '(' {
        Some(Token::LParen)
    } else if c == ')' {
        Some(Token::RParen)
    } else if c == '{' {
        Some(Token::LBrace)
    } else if c == '}' {
        Some(Token::RBrace)
    } else if c == '[' {
        Some(Token::LBracket)
    } else if c == ']' {
        Some(Token::RBracket)
    } else {
        None
    }
}

fn one_char(c: char) -> (r: Option<Token>)
    ensures
        r == one_char_token(c),
{
    if c == ';' {
        Some(Token::Semi)
    } else if c == '=' {
        Some(Token::Eq)
    } else if c == '<' {
        Some(Token::Lt)
    } else if c == '>' {
        Some(Token::Gt)
    } else if c == '+' {
        Some(Token::Plus)
    } else if c == '-' {
        Some(Token::Minus)
    } else if c == '*' {
        Some(Token::Star)
    } else if c == '/' {
        Some(Token::Slash)
    } else if c == '%' {
        Some(Token::Percent)
    } else if c == '!' {
        Some(Token::Bang)
    } else if c == '.' {
        Some(Token::Dot)
    } else if c == ',' {
        Some(Token::Comma)
    } else if c == ':' {
        Some(Token::Colon)
    } else if c == '(' {
        Some(Token::LParen)
    } else if c == ')' {
        Some(Token::RParen)
    } else if c == '{' {
        Some(Token::LBrace)
    } else if c == '}' {
        Some(Token::RBrace)
    } else if c == '[' {
        Some(Token::LBracket)
    } else if c == ']' {
        Some(Token::RBracket)
    } else {
        None
    }
}

// ---------------------------------------------------------------------------
// Scanning
// ---------------------------------------------------------------------------

/// What a scanned item holds: a token (its variant index, text and value)
/// or an error (its message), with its byte range.
pub struct LexItem {
    pub ok: bool,
    pub start: int,
    pub end: int,
    pub kind: int,
    pub text: Seq<char>,
    pub number: int,
}

/// The text a token carries: the name, the decoded string or the float as
/// written.
pub open spec fn token_text(t: Token) -> Seq<char> {
    match t {
        Token::Ident(s) => s@,
        Token::String(s) => s@,
        Token::Float(s) => s@,
        _ => seq![],
    }
}

/// The value of a number token.
pub open spec fn token_number(t: Token) -> int {
    match t {
        Token::Number(n) => n as int,
        _ => 0,
    }
}

/// Whether a scanned token or error is the item `it`.
pub open spec fn item_agrees(st: SpannedToken, it: LexItem) -> bool {
    match st {
        Ok((s, t, e)) => it.ok && s == it.start && e == it.end && token_kind(t) == it.kind && token_text(t)
            == it.text && token_number(t) == it.number,
        Err(le) => !it.ok && le.start == it.start && le.end == it.end && le.message@ == it.text,
    }
}

/// A token over `cs[i..i + n]`.
pub open spec fn token_item(cs: Seq<char>, i: int, n: int, kind: int, text: Seq<char>, number: int) -> LexItem {
    LexItem { ok: true, start: byte_offset(cs, i), end: byte_offset(cs, i + n), kind, text, number }
}

/// The error for the characters `cs[i..i + n]`.
pub open spec fn error_item(cs: Seq<char>, i: int, n: int) -> LexItem {
    LexItem {
        ok: false,
        start: byte_offset(cs, i),
        end: byte_offset(cs, i + n),
        kind: -1,
        text: "Неожиданный токен '"@ + cs.subrange(i, i + n) + "'"@,
        number: 0,
    }
}

/// The number of characters consumed at `i` and the item they make, if
/// any (blanks and comments make none).
pub open spec fn scan_step(cs: Seq<char>, i: int) -> (int, Option<LexItem>) {
    let c = cs[i];
    if is_blank(c) {
        (run(cs, i, 0), None)
    } else if c == '/' && i + 1 < cs.len() && cs[i + 1] == '/' {
        (2 + run(cs, i + 2, 3), None)
    } else if c == '\n' {
        let n = run(cs, i, 4);
        (n, Some(token_item(cs, i, n, token_kind(Token::Newline), seq![], 0)))
    } else if c == '\r' && i + 1 < cs.len() && cs[i + 1] == '\n' {
        let n = 1 + run(cs, i + 1, 4);
        (n, Some(token_item(cs, i, n, token_kind(Token::Newline), seq![], 0)))
    } else if c == '"' {
        let e = string_end(cs, i + 1);
        if e > i {
            (e - i, Some(token_item(cs, i, e - i, 62, unescape(cs.subrange(i + 1, e - 1), 0), 0)))
        } else {
            (1, Some(error_item(cs, i, 1)))
        }
    } else if is_decimal(c) {
        let d = run(cs, i, 1);
        if i + d + 1 < cs.len() && cs[i + d] == '.' && is_decimal(cs[i + d + 1]) {
            let n = d + 1 + run(cs, i + d + 1, 1);
            (n, Some(token_item(cs, i, n, 63, cs.subrange(i, i + n), 0)))
        } else {
            let v = decimal_value(cs.subrange(i, i + d));
            if v <= i64::MAX {
                (d, Some(token_item(cs, i, d, 64, seq![], v)))
            } else {
                (d, Some(error_item(cs, i, d)))
            }
        }
    } else if ident_start(c) {
        let n = 1 + run(cs, i + 1, 2);
        let w = cs.subrange(i, i + n);
        match keyword_of(w) {
            Some(t) => (n, Some(token_item(cs, i, n, token_kind(t), seq![], 0))),
            None => (n, Some(token_item(cs, i, n, 65, w, 0))),
        }
    } else if i + 1 < cs.len() && two_char_token(c, cs[i + 1]) is Some {
        (2, Some(token_item(cs, i, 2, token_kind(two_char_token(c, cs[i + 1])->0), seq![], 0)))
    } else {
        match one_char_token(c) {
            Some(t) => (1, Some(token_item(cs, i, 1, token_kind(t), seq![], 0))),
            None => (1, Some(error_item(cs, i, 1))),
        }
    }
}

/// The items scanned from `i` to the end.
pub open spec fn lex_items(cs: Seq<char>, i: int) -> Seq<LexItem>
    decreases cs.len() - i,
{
    if i < 0 || i >= cs.len() {
        seq![]
    } else {
        let (n, item) = scan_step(cs, i);
        let rest = if 1 <= n && i + n <= cs.len() {
            lex_items(cs, i + n)
        } else {
            seq![]
        };
        match item {
            Some(it) => seq![it] + rest,
            None => rest,
        }
    }
}

/// Whether scanned tokens are, one for one, the specified items.
pub open spec fn items_agree(r: Seq<SpannedToken>, s: Seq<LexItem>) -> bool {
    r.len() == s.len() && forall|k: int| 0 <= k < r.len() ==> #[trigger] item_agrees(r[k], s[k])
}


/// Byte offsets of every character of `cs` and of its end.
pub open spec fn offsets_of(cs: Seq<char>, offs: Seq<usize>) -> bool {
    offs.len() == cs.len() + 1 && forall|k: int| 0 <= k <= cs.len() ==> #[trigger] offs[k] as int == byte_offset(cs, k)
}

fn token_at(offs: &Vec<usize>, i: usize, n: usize, token: Token) -> (r: SpannedToken)
    requires
        i + n < offs@.len(),
    ensures
        r == Ok::<(usize, Token, usize), LexicalError>((offs@[i as int], token, offs@[i + n])),
{
    let m = offs.len();
    assert(i + n < m);
    Ok((offs[i], token, offs[i + n]))
}

fn unexpected(cs: &Vec<char>, offs: &Vec<usize>, i: usize, n: usize) -> (r: SpannedToken)
    requires
        i + n <= cs@.len(),
        offsets_of(cs@, offs@),
    ensures
        item_agrees(r, error_item(cs@, i as int, n as int)),
{
    let m = cs.len();
    assert(i + n <= m);
    let mut msg = String::from_str("Неожиданный токен '");
    let ghost prefix = msg@;
    let stop = i + n;
    let mut k = i;
    while k < stop
        invariant
            stop == i + n,
            i <= k <= i + n <= cs@.len(),
            msg@ == prefix + cs@.subrange(i as int, k as int),
        decreases i + n - k,
    {
        push_char(&mut msg, cs[k]);
        proof {
            assert(cs@.subrange(i as int, k + 1) =~= cs@.subrange(i as int, k as int).push(cs@[k as int]));
        }
        k = k + 1;
    }
    msg.append("'");
    Err(LexicalError { start: offs[i], end: offs[i + n], message: msg })
}

/// Scans one item at `i`: the number of characters consumed and the token
/// or error they make, if any.
fn scan_one(cs: &Vec<char>, offs: &Vec<usize>, i: usize) -> (r: (usize, Option<SpannedToken>))
    requires
        i < cs@.len(),
        offsets_of(cs@, offs@),
    ensures
        r.0 as int == scan_step(cs@, i as int).0,
        1 <= r.0,
        i + r.0 <= cs@.len(),
        match (r.1, scan_step(cs@, i as int).1) {
            (Some(t), Some(it)) => item_agrees(t, it),
            (None, None) => true,
            _ => false,
        },
{
    let ghost spec = scan_step(cs@, i as int);
    let n_chars = cs.len();
    let c = cs[i];
    if c == ' ' || c == '\t' || c == '\x0c' {
        let n = 1 + run_len(cs, i + 1, 0);
        return (n, None);
    }
    if c == '/' && i + 1 < n_chars && cs[i + 1] == '/' {
        let n = run_len(cs, i + 2, 3);
        return (2 + n, None);
    }
    if c == '\n' {
        let n = 1 + run_len(cs, i + 1, 4);
        return (n, Some(token_at(offs, i, n, Token::Newline)));
    }
    if c == '\r' && i + 1 < n_chars && cs[i + 1] == '\n' {
        let n = 1 + run_len(cs, i + 1, 4);
        return (n, Some(token_at(offs, i, n, Token::Newline)));
    }
    if c == '"' {
        match find_string_end(cs, i + 1) {
            Some(e) => {
                let text = decode_string(cs, i + 1, e - 1);
                return (e - i, Some(token_at(offs, i, e - i, Token::String(text))));
            },
            None => {
                return (1, Some(unexpected(cs, offs, i, 1)));
            },
        }
    }
    if '0' <= c && c <= '9' {
        let d = 1 + run_len(cs, i + 1, 1);
        if i + d < n_chars - 1 && cs[i + d] == '.' && '0' <= cs[i + d + 1] && cs[i + d + 1] <= '9' {
            let n = d + 1 + run_len(cs, i + d + 1, 1);
            let text = string_from_chars(&cs.as_slice()[i..i + n]);
            return (n, Some(token_at(offs, i, n, Token::Float(text))));
        }
        proof {
            assert forall|j: int| i <= j < i + d implies is_decimal(#[trigger] cs@[j]) by {
                lemma_run_class(cs@, i as int, 1, j);
            }
        }
        match parse_decimal(cs, i, i + d) {
            Some(v) => {
                return (d, Some(token_at(offs, i, d, Token::Number(v))));
            },
            None => {
                return (d, Some(unexpected(cs, offs, i, d)));
            },
        }
    }
    if is_alphabetic(c) || c == '_' {
        let n = 1 + run_len(cs, i + 1, 2);
        let word = string_from_chars(&cs.as_slice()[i..i + n]);
        match keyword(word.as_str()) {
            Some(t) => {
                return (n, Some(token_at(offs, i, n, t)));
            },
            None => {
                return (n, Some(token_at(offs, i, n, Token::Ident(word))));
            },
        }
    }
    if i + 1 < n_chars {
        match two_char(c, cs[i + 1]) {
            Some(t) => {
                return (2, Some(token_at(offs, i, 2, t)));
            },
            None => {},
        }
    }
    match one_char(c) {
        Some(t) => (1, Some(token_at(offs, i, 1, t))),
        None => (1, Some(unexpected(cs, offs, i, 1))),
    }
}

/// Every character of a run has the run's class.
pub proof fn lemma_run_class(cs: Seq<char>, i: int, class: int, j: int)
    requires
        0 <= i <= j < i + run(cs, i, class),
    ensures
        in_run_class(class, cs[j]),
    decreases j - i,
{
    if j > i {
        lemma_run_class(cs, i + 1, class, j);
    }
}

/// The raw tokens of `source`, before separators and markers are added.
pub fn scan(source: &str) -> (r: Vec<SpannedToken>)
    ensures
        items_agree(r@, lex_items(source@, 0)),
{
    let cs = chars_of(source);
    proof {
        lemma_byte_len_encode(source@);
    }
    let total = source.as_bytes().len();
    assert(total as int == byte_len(cs@));
    let offs = char_offsets(cs.as_slice());
    let mut out: Vec<SpannedToken> = Vec::new();
    let ghost mut done: Seq<LexItem> = seq![];
    let mut i: usize = 0;
    while i < cs.len()
        invariant
            cs@ == source@,
            offsets_of(cs@, offs@),
            i <= cs@.len(),
            lex_items(cs@, 0) == done + lex_items(cs@, i as int),
            items_agree(out@, done),
        decreases cs@.len() - i,
    {
        let (n, item) = scan_one(&cs, &offs, i);
        let ghost step = scan_step(cs@, i as int);
        match item {
            Some(t) => {
                let ghost it = step.1->0;
                let ghost before = out@;
                out.push(t);
                proof {
                    assert(lex_items(cs@, i as int) == seq![it] + lex_items(cs@, i + n));
                    done = done.push(it);
                    assert forall|k: int| 0 <= k < out@.len() implies #[trigger] item_agrees(out@[k], done[k]) by {
                        if k < before.len() {
                            assert(out@[k] == before[k]);
                        }
                    }
                    assert(lex_items(cs@, 0) == done + lex_items(cs@, i + n));
                }
            },
            None => {
                assert(lex_items(cs@, i as int) == lex_items(cs@, i + n));
            },
        }
        i = i + n;
    }
    assert(lex_items(cs@, i as int) == Seq::<LexItem>::empty());
    assert(done + Seq::<LexItem>::empty() =~= done);
    out
}

} // verus!


