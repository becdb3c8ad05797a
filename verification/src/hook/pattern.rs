//! Regular-expression matching through the `regex` crate.

use vstd::prelude::*;

verus! {

#[verifier::external_type_specification]
#[verifier::external_body]
pub struct ExRegex(regex::Regex);

/// Whether `regex::RegexBuilder::build` accepts the pattern with the given
/// case-insensitivity flag (it is well formed and within the default size
/// limit).
pub uninterp spec fn regex_compiles(pattern: Seq<char>, ci: bool) -> bool;

/// The text of the leftmost-first match (`Regex::find`), if any, of the
/// pattern compiled with the given case-insensitivity flag.
pub uninterp spec fn regex_first(pattern: Seq<char>, ci: bool, text: Seq<char>) -> Option<Seq<char>>;

/// The texts of the successive non-overlapping matches
/// (`Regex::find_iter`) of the pattern compiled with the given flag.
pub uninterp spec fn regex_all(pattern: Seq<char>, ci: bool, text: Seq<char>) -> Seq<Seq<char>>;

/// For each successive match (`Regex::captures_iter`) of the pattern
/// compiled with the given flag: the text of capture group 1 when it took
/// part in the match, and the text of the whole match.
pub uninterp spec fn regex_captures(pattern: Seq<char>, ci: bool, text: Seq<char>) -> Seq<(Option<Seq<char>>, Seq<char>)>;

/// For each successive match, the text of group 1 when it took part in the
/// match, else of the whole match.
pub open spec fn regex_groups(pattern: Seq<char>, ci: bool, text: Seq<char>) -> Seq<Seq<char>> {
    let c = regex_captures(pattern, ci, text);
    Seq::new(c.len(), |i: int| group_or_match(c[i]))
}

pub open spec fn group_or_match(c: (Option<Seq<char>>, Seq<char>)) -> Seq<char> {
    match c.0 {
        Some(g) => g,
        None => c.1,
    }
}

pub open spec fn capture_views(v: Seq<(Option<String>, String)>) -> Seq<(Option<Seq<char>>, Seq<char>)> {
    Seq::new(
        v.len(),
        |i: int|
            (
                match v[i].0 {
                    Some(g) => Some(g@),
                    None => None,
                },
                v[i].1@,
            ),
    )
}

pub open spec fn string_views(v: Seq<String>) -> Seq<Seq<char>> {
    Seq::new(v.len(), |i: int| v[i]@)
}

/// A compiled regular expression together with the pattern it was
/// compiled from and its case-insensitivity flag.
pub struct Pattern {
    re: regex::Regex,
    text: String,
    ci: bool,
}

impl Pattern {
    /// The pattern text.
    pub closed spec fn pattern(&self) -> Seq<char> {
        self.text@
    }

    /// Whether the pattern was compiled case-insensitively.
    pub closed spec fn insensitive(&self) -> bool {
        self.ci
    }

    /// Compiles `pattern` with `RegexBuilder`, case-insensitively when
    /// asked: `Ok` exactly when the crate accepts it, with the crate's
    /// error message otherwise.
    #[verifier::external_body]
    pub(crate) fn build(pattern: &str, case_insensitive: bool) -> (r: Result<Pattern, String>)
        ensures
            r is Ok <==> regex_compiles(pattern@, case_insensitive),
            r matches Ok(p) ==> p.pattern() == pattern@ && p.insensitive() == case_insensitive,
    {
        match regex::RegexBuilder::new(pattern).case_insensitive(case_insensitive).build() {
            Ok(re) => Ok(Pattern { re, text: pattern.to_string(), ci: case_insensitive }),
            Err(e) => Err(e.to_string()),
        }
    }

    /// Compiles `pattern` with the default configuration (as `Regex::new`
    /// does).
    pub fn compile(pattern: &str) -> (r: Result<Pattern, String>)
        ensures
            r is Ok <==> regex_compiles(pattern@, false),
            r matches Ok(p) ==> p.pattern() == pattern@ && !p.insensitive(),
    {
        Pattern::build(pattern, false)
    }

    /// Whether the pattern matches anywhere in `text` (`Regex::is_match`):
    /// exactly when `Regex::find` finds a match.
    #[verifier::external_body]
    pub(crate) fn is_match(&self, text: &str) -> (b: bool)
        ensures
            b <==> regex_first(self.pattern(), self.insensitive(), text@) is Some,
    {
        self.re.is_match(text)
    }

    /// The first match in `text` (`Regex::find`).
    #[verifier::external_body]
    pub(crate) fn first(&self, text: &str) -> (r: Option<String>)
        ensures
            match r {
                Some(m) => regex_first(self.pattern(), self.insensitive(), text@) == Some(m@),
                None => regex_first(self.pattern(), self.insensitive(), text@) is None,
            },
    {
        self.re.find(text).map(|m| m.as_str().to_string())
    }

    /// Every non-overlapping match in `text` (`Regex::find_iter`).
    #[verifier::external_body]
    pub(crate) fn all(&self, text: &str) -> (r: Vec<String>)
        ensures
            string_views(r@) == regex_all(self.pattern(), self.insensitive(), text@),
    {
        self.re.find_iter(text).map(|m| m.as_str().to_string()).collect()
    }

    /// Group 1, when it took part, and the whole match, of each match in
    /// `text` (`Regex::captures_iter`).
    #[verifier::external_body]
    fn captures(&self, text: &str) -> (r: Vec<(Option<String>, String)>)
        ensures
            capture_views(r@) == regex_captures(self.pattern(), self.insensitive(), text@),
    {
        self.re.captures_iter(text).map(|caps| (caps.get(1).map(|m| m.as_str().to_string()), caps[0].to_string())).collect()
    }

    /// Group 1 (or the whole match) of each match in `text`.
    pub(crate) fn groups(&self, text: &str) -> (r: Vec<String>)
        ensures
            string_views(r@) == regex_groups(self.pattern(), self.insensitive(), text@),
    {
        let caps = self.captures(text);
        let ghost cv = capture_views(caps@);
        let mut r: Vec<String> = Vec::new();
        let mut i: usize = 0;
        while i < caps.len()
            invariant
                i <= caps@.len(),
                cv == capture_views(caps@),
                string_views(r@) == Seq::new(i as nat, |j: int| group_or_match(cv[j])),
            decreases caps.len() - i,
        {
            let ghost before = string_views(r@);
            let g = match &caps[i].0 {
                Some(g) => g.clone(),
                None => caps[i].1.clone(),
            };
            r.push(g);
            assert(string_views(r@) =~= before.push(group_or_match(cv[i as int])));
            assert(string_views(r@) =~= Seq::new((i + 1) as nat, |j: int| group_or_match(cv[j])));
            i = i + 1;
        }
        r
    }
}

} // verus!
