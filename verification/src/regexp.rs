//! Regular expressions, provided by the `regex` crate.
//!
//! What a pattern matches is named, not restated: `regex_first_captures` and
//! `regex_all_captures` stand for what the crate finds, and the managers'
//! contracts speak of those names.
use vstd::prelude::*;

verus! {

#[verifier::external_type_specification]
#[verifier::external_body]
pub struct ExRegex(regex::Regex);

/// The error text with which `regex::Regex::new` refuses a pattern (`None` when it compiles).
pub uninterp spec fn regex_new_error(pattern: Seq<char>) -> Option<Seq<char>>;

/// The error text with which `regex::RegexBuilder` (multi-line, `.` matching
/// newlines) refuses a pattern (`None` when it compiles).
pub uninterp spec fn regex_build_error(pattern: Seq<char>) -> Option<Seq<char>>;

/// The groups (by index, 0 being the whole match) of the leftmost match of a
/// pattern in a text, `None` when there is no match; `dotall` selects the
/// multi-line, `.`-matches-newline build.
pub uninterp spec fn regex_first_captures(pattern: Seq<char>, dotall: bool, text: Seq<char>) -> Option<Seq<Option<Seq<char>>>>;

/// Every successive non-overlapping match of a pattern in a text: its whole text
/// and the named groups `names`, in order.
pub uninterp spec fn regex_all_captures(pattern: Seq<char>, dotall: bool, text: Seq<char>, names: Seq<Seq<char>>) -> Seq<(Seq<char>, Seq<Option<Seq<char>>>)>;

/// The names of a pattern's named groups, in order.
pub uninterp spec fn regex_group_names(pattern: Seq<char>, dotall: bool) -> Seq<Seq<char>>;

/// A compiled pattern, with the text and build it was compiled from.
#[derive(Debug)]
pub struct CompiledRegex {
    re: regex::Regex,
    pattern: String,
    dotall: bool,
}

impl CompiledRegex {
    pub closed spec fn pattern_text(&self) -> Seq<char> {
        self.pattern@
    }

    pub closed spec fn is_dotall(&self) -> bool {
        self.dotall
    }
}

/// Compiles a pattern with default settings.
/// Trusted: calls `regex::Regex::new`; on success the pattern text is kept beside
/// the compiled form, on failure the error's text is returned; both are named by
/// `regex_new_error`.
#[verifier::external_body]
pub(crate) fn compile(pattern: &str) -> (r: Result<CompiledRegex, String>)
    ensures
        match r {
            Ok(re) => re.pattern_text() == pattern@ && !re.is_dotall() && regex_new_error(pattern@) is None,
            Err(e) => regex_new_error(pattern@) == Some(e@),
        },
{
    match regex::Regex::new(pattern) {
        Ok(re) => Ok(CompiledRegex { re, pattern: pattern.to_string(), dotall: false }),
        Err(e) => Err(e.to_string()),
    }
}

/// Compiles a pattern in multi-line mode with `.` matching newlines.
/// Trusted: calls `regex::RegexBuilder::new(..).multi_line(true).dot_matches_new_line(true).build()`;
/// results as for `compile`, named by `regex_build_error`.
#[verifier::external_body]
pub(crate) fn compile_dotall(pattern: &str) -> (r: Result<CompiledRegex, String>)
    ensures
        match r {
            Ok(re) => re.pattern_text() == pattern@ && re.is_dotall() && regex_build_error(pattern@) is None,
            Err(e) => regex_build_error(pattern@) == Some(e@),
        },
{
    match regex::RegexBuilder::new(pattern).multi_line(true).dot_matches_new_line(true).build() {
        Ok(re) => Ok(CompiledRegex { re, pattern: pattern.to_string(), dotall: true }),
        Err(e) => Err(e.to_string()),
    }
}

pub open spec fn opt_strings_view(v: Seq<Option<String>>) -> Seq<Option<Seq<char>>> {
    v.map_values(|o: Option<String>| crate::text::opt_view(o))
}

/// The groups of the leftmost match.
/// Trusted: calls `regex::Regex::captures` and copies each group's text; the
/// result is named by `regex_first_captures`.
#[verifier::external_body]
pub(crate) fn captures(re: &CompiledRegex, text: &str) -> (r: Option<Vec<Option<String>>>)
    ensures
        match r {
            Some(groups) => regex_first_captures(re.pattern_text(), re.is_dotall(), text@) == Some(
                opt_strings_view(groups@),
            ),
            None => regex_first_captures(re.pattern_text(), re.is_dotall(), text@) is None,
        },
{
    re.re.captures(text).map(|c| c.iter().map(|m| m.map(|m| m.as_str().to_string())).collect())
}

pub open spec fn matches_view(v: Seq<(String, Vec<Option<String>>)>) -> Seq<(Seq<char>, Seq<Option<Seq<char>>>)> {
    v.map_values(|m: (String, Vec<Option<String>>)| (m.0@, opt_strings_view(m.1@)))
}

/// Every match with its whole text and the named groups `names`.
/// Trusted: calls `regex::Regex::captures_iter` and, per match, `Captures::get(0)`
/// and `Captures::name` for each of `names`; the result is named by `regex_all_captures`.
#[verifier::external_body]
pub(crate) fn captures_all(re: &CompiledRegex, text: &str, names: &Vec<String>) -> (r: Vec<(String, Vec<Option<String>>)>)
    ensures
        matches_view(r@) == regex_all_captures(re.pattern_text(), re.is_dotall(), text@, crate::text::strings_view(names@)),
{
    re.re.captures_iter(text)
        .map(|c| (c[0].to_string(), names.iter().map(|n| c.name(n).map(|m| m.as_str().to_string())).collect()))
        .collect()
}

/// The names of the pattern's named groups.
/// Trusted: calls `regex::Regex::capture_names` and keeps the named ones; the
/// result is named by `regex_group_names`.
#[verifier::external_body]
pub(crate) fn group_names(re: &CompiledRegex) -> (r: Vec<String>)
    ensures
        crate::text::strings_view(r@) == regex_group_names(re.pattern_text(), re.is_dotall()),
{
    re.re.capture_names().flatten().map(|s| s.to_string()).collect()
}

} // verus!
