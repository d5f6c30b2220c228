//! The built-in regular expression class `РегулярноеВыражение`: a pattern
//! compiled by the `regex` crate and the methods that search, split and
//! replace with it.
use vstd::prelude::*;
use crate::text::views;

verus! {

/// The compiled expression of the `regex` crate, carried opaquely.
#[verifier::external_type_specification]
#[verifier::external_body]
pub struct ExRegex(regex::Regex);

/// The error text `regex::Regex::new` gives for `pattern`, or `None` where
/// the pattern compiles.
pub uninterp spec fn regex_compile_error(pattern: Seq<char>) -> Option<Seq<char>>;

/// What `Regex::is_match` answers for a pattern and a text.
pub uninterp spec fn regex_is_match(pattern: Seq<char>, text: Seq<char>) -> bool;

/// The text of the leftmost-first match (`Regex::find`).
pub uninterp spec fn regex_first_match(pattern: Seq<char>, text: Seq<char>) -> Option<Seq<char>>;

/// The texts of the successive non-overlapping matches (`Regex::find_iter`).
pub uninterp spec fn regex_all_matches(pattern: Seq<char>, text: Seq<char>) -> Seq<Seq<char>>;

/// The groups of the first match, group 0 first, a group that took part in
/// no match being `None` (`Regex::captures`).
pub uninterp spec fn regex_captures(pattern: Seq<char>, text: Seq<char>) -> Option<Seq<Option<Seq<char>>>>;

/// The groups of each successive match (`Regex::captures_iter`).
pub uninterp spec fn regex_all_captures(pattern: Seq<char>, text: Seq<char>) -> Seq<Seq<Option<Seq<char>>>>;

/// The text with its first match replaced, `$` references in the
/// replacement expanded (`Regex::replace`).
pub uninterp spec fn regex_replace_first(pattern: Seq<char>, text: Seq<char>, replacement: Seq<char>) -> Seq<char>;

/// The text with every match replaced (`Regex::replace_all`).
pub uninterp spec fn regex_replace_every(pattern: Seq<char>, text: Seq<char>, replacement: Seq<char>) -> Seq<char>;

/// The parts of the text between matches (`Regex::split`).
pub uninterp spec fn regex_split(pattern: Seq<char>, text: Seq<char>) -> Seq<Seq<char>>;

/// A pattern with the expression compiled from it.
pub struct CompiledRegex {
    pattern: String,
    regex: regex::Regex,
}

/// The view of an optional string.
pub open spec fn opt_view(o: Option<String>) -> Option<Seq<char>> {
    match o {
        Some(s) => Some(s@),
        None => None,
    }
}

/// The views of optional strings.
pub open spec fn opt_views(v: Seq<Option<String>>) -> Seq<Option<Seq<char>>> {
    v.map_values(|o: Option<String>| opt_view(o))
}

/// The message for a pattern that does not compile.
pub open spec fn bad_pattern_message(pattern: Seq<char>, error: Seq<char>) -> Seq<char> {
    "Некорректное регулярное выражение '"@ + pattern + "': "@ + error
}

/// `Regex::new`, the error turned into its display text: believed to
/// succeed exactly where `regex_compile_error` is `None`.
#[verifier::external_body]
fn compile(pattern: &str) -> (r: Result<regex::Regex, String>)
    ensures
        match r {
            Ok(_) => regex_compile_error(pattern@) is None,
            Err(e) => regex_compile_error(pattern@) == Some(e@),
        },
{
    match regex::Regex::new(pattern) {
        Ok(re) => Ok(re),
        Err(e) => Err(e.to_string()),
    }
}

impl CompiledRegex {
    /// `Regex::is_match`, believed to answer `regex_is_match`.
    #[verifier::external_body]
    fn raw_is_match(&self, text: &str) -> (r: bool)
        ensures
            r == regex_is_match(self.pattern@, text@),
    {
        self.regex.is_match(text)
    }

    /// `Regex::find`, the match turned into its text.
    #[verifier::external_body]
    fn raw_find(&self, text: &str) -> (r: Option<String>)
        ensures
            opt_view(r) == regex_first_match(self.pattern@, text@),
    {
        match self.regex.find(text) {
            Some(m) => Some(m.as_str().to_string()),
            None => None,
        }
    }

    /// `Regex::find_iter`, each match turned into its text.
    #[verifier::external_body]
    fn raw_find_iter(&self, text: &str) -> (r: Vec<String>)
        ensures
            views(r@) == regex_all_matches(self.pattern@, text@),
    {
        let mut out = Vec::new();
        for m in self.regex.find_iter(text) {
            out.push(m.as_str().to_string());
        }
        out
    }

    /// `Regex::captures`, each group turned into its text.
    #[verifier::external_body]
    fn raw_captures(&self, text: &str) -> (r: Option<Vec<Option<String>>>)
        ensures
            match (r, regex_captures(self.pattern@, text@)) {
                (Some(v), Some(g)) => opt_views(v@) == g,
                (None, None) => true,
                _ => false,
            },
    {
        match self.regex.captures(text) {
            Some(caps) => {
                let mut groups = Vec::new();
                for g in caps.iter() {
                    groups.push(match g { Some(m) => Some(m.as_str().to_string()), None => None });
                }
                Some(groups)
            },
            None => None,
        }
    }

    /// `Regex::captures_iter`, each group of each match turned into its text.
    #[verifier::external_body]
    fn raw_captures_iter(&self, text: &str) -> (r: Vec<Vec<Option<String>>>)
        ensures
            r@.len() == regex_all_captures(self.pattern@, text@).len(),
            forall|i: int| 0 <= i < r@.len() ==> opt_views(#[trigger] r@[i]@) == regex_all_captures(self.pattern@, text@)[i],
    {
        let mut out = Vec::new();
        for caps in self.regex.captures_iter(text) {
            let mut groups = Vec::new();
            for g in caps.iter() {
                groups.push(match g { Some(m) => Some(m.as_str().to_string()), None => None });
            }
            out.push(groups);
        }
        out
    }

    /// `Regex::replace`, believed to give `regex_replace_first`.
    #[verifier::external_body]
    fn raw_replace(&self, text: &str, replacement: &str) -> (r: String)
        ensures
            r@ == regex_replace_first(self.pattern@, text@, replacement@),
    {
        self.regex.replace(text, replacement).to_string()
    }

    /// `Regex::replace_all`, believed to give `regex_replace_every`.
    #[verifier::external_body]
    fn raw_replace_all(&self, text: &str, replacement: &str) -> (r: String)
        ensures
            r@ == regex_replace_every(self.pattern@, text@, replacement@),
    {
        self.regex.replace_all(text, replacement).to_string()
    }

    /// `Regex::split`, each part turned into a string.
    #[verifier::external_body]
    fn raw_split(&self, text: &str) -> (r: Vec<String>)
        ensures
            views(r@) == regex_split(self.pattern@, text@),
    {
        let mut out = Vec::new();
        for part in self.regex.split(text) {
            out.push(part.to_string());
        }
        out
    }

    /// The pattern the expression was compiled from.
    pub closed spec fn source(&self) -> Seq<char> {
        self.pattern@
    }

    /// Compiles `pattern`, or reports why it does not compile.
    pub fn compile(pattern: &str) -> (r: Result<CompiledRegex, String>)
        ensures
            match r {
                Ok(re) => re.source() == pattern@ && regex_compile_error(pattern@) is None,
                Err(m) => regex_compile_error(pattern@) matches Some(e) && m@ == bad_pattern_message(
                    pattern@,
                    e,
                ),
            },
    {
        match compile(pattern) {
            Ok(regex) => Ok(CompiledRegex { pattern: pattern.to_string(), regex }),
            Err(e) => {
                let mut msg = String::from_str("Некорректное регулярное выражение '");
                msg.append(pattern);
                msg.append("': ");
                msg.append(e.as_str());
                Err(msg)
            },
        }
    }

    /// `шаблон`: the pattern.
    pub fn pattern(&self) -> (r: String)
        ensures
            r@ == self.source(),
    {
        self.pattern.clone()
    }

    /// `совпадает`: whether the expression matches somewhere in `text`.
    pub fn matches(&self, text: &str) -> (r: bool)
        ensures
            r == regex_is_match(self.source(), text@),
    {
        self.raw_is_match(text)
    }

    /// `найти`: the first match.
    pub fn find(&self, text: &str) -> (r: Option<String>)
        ensures
            opt_view(r) == regex_first_match(self.source(), text@),
    {
        self.raw_find(text)
    }

    /// `найти_все`: every match, in order.
    pub fn find_all(&self, text: &str) -> (r: Vec<String>)
        ensures
            views(r@) == regex_all_matches(self.source(), text@),
    {
        self.raw_find_iter(text)
    }

    /// `группы`: the groups of the first match.
    pub fn groups(&self, text: &str) -> (r: Option<Vec<Option<String>>>)
        ensures
            match (r, regex_captures(self.source(), text@)) {
                (Some(v), Some(g)) => opt_views(v@) == g,
                (None, None) => true,
                _ => false,
            },
    {
        self.raw_captures(text)
    }

    /// `группы_все`: the groups of every match.
    pub fn groups_all(&self, text: &str) -> (r: Vec<Vec<Option<String>>>)
        ensures
            r@.len() == regex_all_captures(self.source(), text@).len(),
            forall|i: int|
                0 <= i < r@.len() ==> opt_views(#[trigger] r@[i]@) == regex_all_captures(
                    self.source(),
                    text@,
                )[i],
    {
        self.raw_captures_iter(text)
    }

    /// `заменить`: `text` with its first match replaced.
    pub fn replace(&self, text: &str, replacement: &str) -> (r: String)
        ensures
            r@ == regex_replace_first(self.source(), text@, replacement@),
    {
        self.raw_replace(text, replacement)
    }

    /// `заменить_все`: `text` with every match replaced.
    pub fn replace_all(&self, text: &str, replacement: &str) -> (r: String)
        ensures
            r@ == regex_replace_every(self.source(), text@, replacement@),
    {
        self.raw_replace_all(text, replacement)
    }

    /// `разделить`: the parts of `text` between matches.
    pub fn split(&self, text: &str) -> (r: Vec<String>)
        ensures
            views(r@) == regex_split(self.source(), text@),
    {
        self.raw_split(text)
    }
}

} // verus!
