//! The methods of the built-in string class `Строка` on plain strings:
//! length, splitting, case, search, replacement and trimming.
use vstd::prelude::*;
use crate::text::{chars_of, string_from_chars, sub_chars, trim, trim_bounds, join, views, join_strings};

verus! {

/// `длина`: the number of characters of `s`.
pub fn text_length(s: &str) -> (n: usize)
    ensures
        n == s@.len(),
{
    let cs = chars_of(s);
    cs.len()
}

/// `p` occurs in `s` at position `i`.
pub open spec fn match_at(s: Seq<char>, p: Seq<char>, i: int) -> bool {
    0 <= i && i + p.len() <= s.len() && s.subrange(i, i + p.len()) == p
}

/// `i` is the first position at which `p` occurs in `s`.
pub open spec fn first_match(s: Seq<char>, p: Seq<char>, i: int) -> bool {
    match_at(s, p, i) && forall|j: int| 0 <= j < i ==> !match_at(s, p, j)
}

/// The parts of `s` between the occurrences of `sep`, scanned from the left
/// without overlap (`str::split`). An empty separator splits before and
/// after every character.
pub open spec fn split_parts(s: Seq<char>, sep: Seq<char>) -> Seq<Seq<char>>
    decreases s.len(),
{
    if sep.len() == 0 {
        seq![Seq::<char>::empty()] + s.map_values(|c: char| seq![c]) + seq![Seq::<char>::empty()]
    } else if exists|i: int| first_match(s, sep, i) {
        let i = choose|i: int| first_match(s, sep, i);
        seq![s.take(i)] + split_parts(s.skip(i + sep.len()), sep)
    } else {
        seq![s]
    }
}

/// `s` with every occurrence of `old`, scanned from the left without
/// overlap, replaced by `new` (`str::replace`).
pub open spec fn replaced(s: Seq<char>, old: Seq<char>, new: Seq<char>) -> Seq<char> {
    join(split_parts(s, old), new)
}

proof fn lemma_first_match_unique(s: Seq<char>, p: Seq<char>, i: int, j: int)
    requires
        first_match(s, p, i),
        first_match(s, p, j),
    ensures
        i == j,
{
}

/// Whether `p` occurs in `cs` at position `i`.
fn matches_here(cs: &Vec<char>, p: &Vec<char>, i: usize) -> (r: bool)
    ensures
        r == match_at(cs@, p@, i as int),
{
    if i > cs.len() || p.len() > cs.len() - i {
        return false;
    }
    let mut k: usize = 0;
    while k < p.len()
        invariant
            i + p@.len() <= cs@.len(),
            k <= p@.len(),
            forall|q: int| 0 <= q < k ==> cs@[i + q] == p@[q],
        decreases p@.len() - k,
    {
        assert(i + k < cs.len());
        if cs[i + k] != p[k] {
            assert(cs@.subrange(i as int, i + p@.len())[k as int] != p@[k as int]);
            return false;
        }
        k = k + 1;
    }
    assert(cs@.subrange(i as int, i + p@.len()) =~= p@);
    true
}

/// `разделить`: the parts of `s` between the occurrences of `sep`.
pub fn text_split(s: &str, sep: &str) -> (r: Vec<String>)
    ensures
        views(r@) == split_parts(s@, sep@),
{
    let cs = chars_of(s);
    let p = chars_of(sep);
    let mut out: Vec<String> = Vec::new();
    if p.len() == 0 {
        out.push(String::new());
        let mut k: usize = 0;
        while k < cs.len()
            invariant
                k <= cs@.len(),
                views(out@) == seq![Seq::<char>::empty()] + cs@.take(k as int).map_values(
                    |c: char| seq![c],
                ),
            decreases cs@.len() - k,
        {
            let one = sub_chars(&cs, k, k + 1);
            let ghost before = out@;
            out.push(string_from_chars(&one));
            proof {
                assert(one@ =~= seq![cs@[k as int]]);
                assert(cs@.take(k + 1).map_values(|c: char| seq![c]) =~= cs@.take(k as int).map_values(
                    |c: char| seq![c],
                ).push(seq![cs@[k as int]]));
                assert(views(out@) =~= views(before).push(one@));
                assert(views(out@) =~= seq![Seq::<char>::empty()] + cs@.take(k + 1).map_values(
                    |c: char| seq![c],
                ));
            }
            k = k + 1;
        }
        out.push(String::new());
        proof {
            assert(cs@.take(k as int) =~= cs@);
            assert(views(out@) =~= split_parts(s@, sep@));
        }
        return out;
    }
    let mut start: usize = 0;
    let mut i: usize = 0;
    assert(cs@.skip(0) =~= cs@);
    while i < cs.len()
        invariant
            p@ == sep@,
            cs@ == s@,
            p@.len() > 0,
            start <= i <= cs@.len(),
            forall|j: int| 0 <= j < i - start ==> !match_at(cs@.skip(start as int), p@, j),
            split_parts(s@, sep@) == views(out@) + split_parts(cs@.skip(start as int), sep@),
        decreases cs@.len() - i,
    {
        let ghost rest = cs@.skip(start as int);
        if matches_here(&cs, &p, i) {
            let ghost k = i - start;
            proof {
                assert(rest.subrange(k, k + p@.len()) =~= cs@.subrange(i as int, i + p@.len()));
                assert(first_match(rest, sep@, k));
                let c = choose|c: int| first_match(rest, sep@, c);
                lemma_first_match_unique(rest, sep@, c, k);
                assert(rest.take(k) =~= cs@.subrange(start as int, i as int));
                assert(rest.skip(k + p@.len()) =~= cs@.skip(i + p@.len()));
            }
            let part = sub_chars(&cs, start, i);
            out.push(string_from_chars(&part));
            proof {
                assert(views(out@) =~= views(out@.drop_last()).push(part@));
            }
            start = i + p.len();
            i = start;
        } else {
            proof {
                assert forall|j: int| 0 <= j < i + 1 - start implies !match_at(rest, p@, j) by {
                    if j == i - start {
                        if match_at(rest, p@, j) {
                            assert(rest.subrange(j, j + p@.len()) =~= cs@.subrange(
                                i as int,
                                i + p@.len(),
                            ));
                        }
                    }
                }
            }
            i = i + 1;
        }
    }
    let part = sub_chars(&cs, start, cs.len());
    proof {
        let rest = cs@.skip(start as int);
        assert(part@ =~= rest);
        assert(!exists|c: int| first_match(rest, sep@, c)) by {
            if exists|c: int| first_match(rest, sep@, c) {
                let c = choose|c: int| first_match(rest, sep@, c);
                assert(!match_at(rest, p@, c));
            }
        }
    }
    out.push(string_from_chars(&part));
    proof {
        assert(views(out@) =~= views(out@.drop_last()).push(part@));
    }
    out
}

/// `содержит`: whether `sub` occurs in `s`.
pub fn text_contains(s: &str, sub: &str) -> (r: bool)
    ensures
        r == exists|i: int| match_at(s@, sub@, i),
{
    let cs = chars_of(s);
    let p = chars_of(sub);
    let mut i: usize = 0;
    while i < cs.len()
        invariant
            cs@ == s@,
            p@ == sub@,
            i <= cs@.len(),
            forall|j: int| 0 <= j < i ==> !match_at(cs@, p@, j),
        decreases cs@.len() - i,
    {
        if matches_here(&cs, &p, i) {
            return true;
        }
        i = i + 1;
    }
    matches_here(&cs, &p, i)
}

/// `начинается_с`: whether `s` begins with `prefix`.
pub fn text_starts_with(s: &str, prefix: &str) -> (r: bool)
    ensures
        r == prefix@.is_prefix_of(s@),
{
    let cs = chars_of(s);
    let p = chars_of(prefix);
    let r = matches_here(&cs, &p, 0);
    proof {
        if r {
            assert(cs@.subrange(0, p@.len() as int) =~= cs@.take(p@.len() as int));
        }
        if prefix@.is_prefix_of(s@) {
            assert(cs@.subrange(0, p@.len() as int) =~= p@);
        }
    }
    r
}

/// `заканчивается_на`: whether `s` ends with `suffix`.
pub fn text_ends_with(s: &str, suffix: &str) -> (r: bool)
    ensures
        r == suffix@.is_suffix_of(s@),
{
    let cs = chars_of(s);
    let p = chars_of(suffix);
    if p.len() > cs.len() {
        return false;
    }
    let r = matches_here(&cs, &p, cs.len() - p.len());
    proof {
        let n = cs@.len() as int;
        let m = p@.len() as int;
        if r {
            assert(cs@.subrange(n - m, n) =~= cs@.skip(n - m));
        }
        if suffix@.is_suffix_of(s@) {
            assert(cs@.subrange(n - m, n) =~= p@);
        }
    }
    r
}

/// `заменить`: `s` with every occurrence of `old` replaced by `new`.
pub fn text_replace(s: &str, old: &str, new: &str) -> (r: String)
    ensures
        r@ == replaced(s@, old@, new@),
{
    let parts = text_split(s, old);
    join_strings(&parts, new)
}

/// `обрезать`: `s` without leading and trailing whitespace.
pub fn text_trim(s: &str) -> (r: String)
    ensures
        r@ == trim(s@),
{
    let cs = chars_of(s);
    let (a, b) = trim_bounds(&cs);
    string_from_chars(&sub_chars(&cs, a, b))
}

/// What `str::to_uppercase` returns for a string: each character mapped by
/// Unicode's uppercase mapping.
pub uninterp spec fn uppercase(s: Seq<char>) -> Seq<char>;

/// What `str::to_lowercase` returns for a string: each character mapped by
/// Unicode's lowercase mapping (a final sigma taking its final form).
pub uninterp spec fn lowercase(s: Seq<char>) -> Seq<char>;

/// `str::to_uppercase`: believed to return `uppercase` of its argument, a
/// function of the string alone.
#[verifier::external_body]
fn to_uppercase(s: &str) -> (r: String)
    ensures
        r@ == uppercase(s@),
{
    s.to_uppercase()
}

/// `str::to_lowercase`: believed to return `lowercase` of its argument, a
/// function of the string alone.
#[verifier::external_body]
fn to_lowercase(s: &str) -> (r: String)
    ensures
        r@ == lowercase(s@),
{
    s.to_lowercase()
}

/// `верхний`: `s` in upper case.
pub fn text_upper(s: &str) -> (r: String)
    ensures
        r@ == uppercase(s@),
{
    to_uppercase(s)
}

/// `нижний`: `s` in lower case.
pub fn text_lower(s: &str) -> (r: String)
    ensures
        r@ == lowercase(s@),
{
    to_lowercase(s)
}

} // verus!
