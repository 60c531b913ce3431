//! Regular-expression matching, done by the `regex` crate.
use vstd::prelude::*;

verus! {

/// What `Regex::new(pattern)` followed by `replace_all(text, replacement)`
/// gives: `None` when the pattern does not compile.
pub uninterp spec fn spec_regex_replace_all(
    pattern: Seq<char>,
    text: Seq<char>,
    replacement: Seq<char>,
) -> Option<Seq<char>>;

/// What `Regex::new(pattern)` followed by `captures_iter(text)` gives for the
/// first capture group: for each match, in order, the text of that group, or
/// `None` where it took no part in the match; `None` when the pattern does not
/// compile.
pub uninterp spec fn spec_regex_group1_all(pattern: Seq<char>, text: Seq<char>) -> Option<
    Seq<Option<Seq<char>>>,
>;

/// What `Regex::new(pattern)` followed by `captures(text)` gives: `None` when
/// the pattern does not compile, `Some(None)` when nothing matches, else the
/// text of each capture group of the first match (`None` for a group that
/// took no part), group 0 first.
pub uninterp spec fn spec_regex_first_captures(pattern: Seq<char>, text: Seq<char>) -> Option<
    Option<Seq<Option<Seq<char>>>>,
>;

/// Compiles `pattern` with `regex::Regex::new` and replaces every match in
/// `text` by `replacement` with `Regex::replace_all`. The contract names the
/// result; it states nothing of the regex semantics themselves.
#[verifier::external_body]
pub(crate) fn regex_replace_all(pattern: &str, text: &str, replacement: &str) -> (res: Option<String>)
    ensures
        match res {
            Some(r) => spec_regex_replace_all(pattern@, text@, replacement@) == Some(r@),
            None => spec_regex_replace_all(pattern@, text@, replacement@) is None,
        },
{
    match regex::Regex::new(pattern) {
        Ok(re) => Some(re.replace_all(text, replacement).into_owned()),
        Err(_) => None,
    }
}

pub open spec fn string_seq_view(v: Seq<String>) -> Seq<Seq<char>> {
    v.map_values(|s: String| s@)
}

/// Compiles `pattern` with `regex::Regex::new` and takes, with
/// `Regex::captures_iter`, the first capture group of each match (`None`
/// where the group took no part). The contract names the result.
#[verifier::external_body]
pub(crate) fn regex_group1_all(pattern: &str, text: &str) -> (res: Option<Vec<Option<String>>>)
    ensures
        match res {
            Some(v) => spec_regex_group1_all(pattern@, text@) == Some(opt_string_seq_view(v@)),
            None => spec_regex_group1_all(pattern@, text@) is None,
        },
{
    match regex::Regex::new(pattern) {
        Ok(re) => Some(re.captures_iter(text).map(|c| c.get(1).map(|m| m.as_str().to_string())).collect()),
        Err(_) => None,
    }
}

pub open spec fn opt_string_seq_view(v: Seq<Option<String>>) -> Seq<Option<Seq<char>>> {
    v.map_values(|s: Option<String>| match s { Some(x) => Some(x@), None => None })
}

/// Compiles `pattern` with `regex::Regex::new` and takes the capture groups
/// of the first match with `Regex::captures`. The contract names the result.
#[verifier::external_body]
pub(crate) fn regex_first_captures(pattern: &str, text: &str) -> (res: Option<Option<Vec<Option<String>>>>)
    ensures
        match res {
            Some(Some(v)) => spec_regex_first_captures(pattern@, text@) == Some(
                Some(opt_string_seq_view(v@)),
            ),
            Some(None) => spec_regex_first_captures(pattern@, text@) == Some(
                None::<Seq<Option<Seq<char>>>>,
            ),
            None => spec_regex_first_captures(pattern@, text@) is None,
        },
{
    match regex::Regex::new(pattern) {
        Ok(re) => Some(
            re.captures(text).map(|c| c.iter().map(|g| g.map(|m| m.as_str().to_string())).collect()),
        ),
        Err(_) => None,
    }
}

} // verus!
