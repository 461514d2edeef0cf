//! The regular-expression engine and the HTTP value types, as this library
//! relies on them.
use http::{Method, Uri};
use regex::{Regex, RegexSet};
use vstd::prelude::*;

verus! {

#[verifier::external_type_specification]
#[verifier::external_body]
pub struct ExRegex(Regex);

#[verifier::external_type_specification]
#[verifier::external_body]
pub struct ExRegexSet(RegexSet);

#[verifier::external_type_specification]
#[verifier::external_body]
pub struct ExMethod(Method);

#[verifier::external_type_specification]
#[verifier::external_body]
pub struct ExUri(Uri);

/// The expression text that a compiled expression was built from.
pub uninterp spec fn regex_source(re: Regex) -> Seq<char>;

/// The expression texts that an expression set holds, in the order given.
pub uninterp spec fn set_sources(set: RegexSet) -> Seq<Seq<char>>;

/// The characters that have a meaning in an expression.
pub open spec fn is_meta_character(c: char) -> bool {
    c == '\\' || c == '.' || c == '+' || c == '*' || c == '?' || c == '(' || c == ')' || c == '|'
        || c == '[' || c == ']' || c == '{' || c == '}' || c == '^' || c == '$' || c == '#' || c
        == '&' || c == '-' || c == '~'
}

/// `text` with a backslash before each meta character, so that it matches
/// itself literally.
pub open spec fn escaped(text: Seq<char>) -> Seq<char>
    decreases text.len(),
{
    if text.len() == 0 {
        Seq::empty()
    } else {
        let init = escaped(text.drop_last());
        if is_meta_character(text.last()) {
            init.push('\\').push(text.last())
        } else {
            init.push(text.last())
        }
    }
}

/// Whether the engine, with its default options and limits, accepts
/// `source` as an expression.
pub uninterp spec fn regex_accepts(source: Seq<char>) -> bool;

/// Whether the engine, with its default options and limits, accepts the
/// expressions `sources` as one set.
pub uninterp spec fn set_accepts(sources: Seq<Seq<char>>) -> bool;

/// The path of a request target, as `Uri::path` gives it.
pub uninterp spec fn path_of(uri: Uri) -> Seq<char>;

/// Whether the expression `pattern` matches somewhere in `subject`.
pub uninterp spec fn expression_matches(pattern: Seq<char>, subject: Seq<char>) -> bool;

/// The text of the group called `name` in the first match of `pattern` in
/// `subject`; `None` where there is no match or the group took part in none.
pub uninterp spec fn named_group(pattern: Seq<char>, subject: Seq<char>, name: Seq<char>) -> Option<
    Seq<char>,
>;

/// The text of the group numbered `index` in the first match of `pattern` in
/// `subject`; `None` where there is no match or the group took part in none.
pub uninterp spec fn numbered_group(pattern: Seq<char>, subject: Seq<char>, index: nat) -> Option<
    Seq<char>,
>;

/// Relies on `regex::escape`: a backslash before each character for which
/// `regex_syntax::is_meta_character` holds.
#[verifier::external_body]
pub(crate) fn escape_text(text: &str) -> (r: String)
    ensures
        r@ == escaped(text@),
{
    regex::escape(text)
}

/// Relies on `Regex::new`, and on `Regex::as_str` returning the text that the
/// expression was built from. A refusal is handed on as its message.
#[verifier::external_body]
pub(crate) fn new_regex(source: &str) -> (r: Result<Regex, String>)
    ensures
        r is Ok <==> regex_accepts(source@),
        r matches Ok(re) ==> regex_source(re) == source@,
{
    Regex::new(source).map_err(|e| e.to_string())
}

/// Relies on `Regex::as_str`: the text that the expression was built from.
#[verifier::external_body]
pub(crate) fn regex_text(re: &Regex) -> (r: &str)
    ensures
        r@ == regex_source(*re),
{
    re.as_str()
}

/// Relies on `RegexSet::new`, and on `RegexSet::patterns` returning the
/// expressions in the order given.
/// A refusal is handed on as its message.
#[verifier::external_body]
pub(crate) fn new_regex_set(sources: &Vec<&str>) -> (r: Result<RegexSet, String>)
    ensures
        r is Ok <==> set_accepts(sources@.map_values(|t: &str| t@)),
        r matches Ok(set) ==> set_sources(set).len() == sources@.len() && forall|i: int|
            0 <= i < sources@.len() ==> #[trigger] set_sources(set)[i] == sources@[i]@,
{
    RegexSet::new(sources).map_err(|e| e.to_string())
}

/// Relies on `RegexSet::matches` and the iteration of its `SetMatches`: the
/// index of each expression that matches, in ascending order.
#[verifier::external_body]
pub(crate) fn set_matches(set: &RegexSet, subject: &str) -> (r: Vec<usize>)
    ensures
        forall|k: int| 0 <= k < r@.len() ==> #[trigger] r@[k] < set_sources(*set).len(),
        forall|k: int, l: int| 0 <= k < l < r@.len() ==> r@[k] < r@[l],
        forall|i: int|
            0 <= i < set_sources(*set).len() ==> (expression_matches(
                #[trigger] set_sources(*set)[i],
                subject@,
            ) <==> r@.contains(i as usize)),
{
    set.matches(subject).into_iter().collect()
}

/// Relies on `Regex::captures` and `Captures::name`: the text of a named group
/// in the first match.
#[verifier::external_body]
pub(crate) fn capture_named<'h>(re: &Regex, subject: &'h str, name: &str) -> (r: Option<&'h str>)
    ensures
        r matches Some(t) ==> named_group(regex_source(*re), subject@, name@) == Some(t@),
        r is None ==> named_group(regex_source(*re), subject@, name@) is None,
{
    match re.captures(subject) {
        Some(caps) => caps.name(name).map(|m| m.as_str()),
        None => None,
    }
}

/// Relies on `Regex::captures` and `Captures::get`: the text of a numbered
/// group in the first match.
#[verifier::external_body]
pub(crate) fn capture_numbered<'h>(re: &Regex, subject: &'h str, index: usize) -> (r: Option<
    &'h str,
>)
    ensures
        r matches Some(t) ==> numbered_group(regex_source(*re), subject@, index as nat) == Some(
            t@,
        ),
        r is None ==> numbered_group(regex_source(*re), subject@, index as nat) is None,
{
    match re.captures(subject) {
        Some(caps) => caps.get(index).map(|m| m.as_str()),
        None => None,
    }
}

/// Relies on the derived `PartialEq` of `http::Method`: two methods are equal
/// exactly when they are the same value.
#[verifier::external_body]
pub(crate) fn same_method(a: &Method, b: &Method) -> (r: bool)
    ensures
        r == (*a == *b),
{
    a == b
}

/// Relies on `Uri::path`: the path of a request target, without its query.
#[verifier::external_body]
pub(crate) fn uri_path(uri: &Uri) -> (r: &str)
    ensures
        r@ == path_of(*uri),
{
    uri.path()
}

} // verus!
