//! Route patterns and the anchored expressions they compile to.
//!
//! A pattern is a `/`-separated list of segments, with one leading `/`
//! optional. A segment `:name` matches one non-empty segment of the path and
//! binds it to `name`; a segment `*` matches the rest of the path, `/`
//! included, in an unnamed group, and `*name` does the same in a group called
//! `name`. Nothing after a wildcard segment is compiled. Any other segment
//! matches itself literally.
use regex::Regex;
use vstd::prelude::*;

use crate::engine::{escape_text, escaped, new_regex, regex_accepts, regex_source};
use crate::error::Error;
use crate::errors::BuildError;

verus! {

pub open spec fn is_ascii_letter(c: char) -> bool {
    ('a' <= c && c <= 'z') || ('A' <= c && c <= 'Z')
}

pub open spec fn is_ascii_alnum(c: char) -> bool {
    is_ascii_letter(c) || ('0' <= c && c <= '9')
}

/// A parameter name: an ASCII letter, then ASCII letters and digits.
pub open spec fn valid_param_name(name: Seq<char>) -> bool {
    &&& name.len() > 0
    &&& is_ascii_letter(name[0])
    &&& forall|i: int| 1 <= i < name.len() ==> is_ascii_alnum(#[trigger] name[i])
}

/// Whether `name` is a valid parameter name.
pub fn is_valid_param_name(name: &str) -> (r: bool)
    ensures
        r == valid_param_name(name@),
{
    let n = name.unicode_len();
    if n == 0 {
        return false;
    }
    let first = name.get_char(0);
    if !(('a' <= first && first <= 'z') || ('A' <= first && first <= 'Z')) {
        return false;
    }
    let mut i: usize = 1;
    while i < n
        invariant
            1 <= i <= n,
            n == name@.len(),
            is_ascii_letter(name@[0]),
            forall|j: int| 1 <= j < i ==> is_ascii_alnum(#[trigger] name@[j]),
        decreases n - i,
    {
        let c = name.get_char(i);
        if !(('a' <= c && c <= 'z') || ('A' <= c && c <= 'Z') || ('0' <= c && c <= '9')) {
            return false;
        }
        i += 1;
    }
    true
}

/// The pattern with one leading `/` removed.
pub open spec fn strip_leading_slash(route: Seq<char>) -> Seq<char> {
    if route.len() > 0 && route[0] == '/' {
        route.drop_first()
    } else {
        route
    }
}

/// The parts of `text` between the `/` characters; one more than there are `/`.
pub open spec fn split_on_slash(text: Seq<char>) -> Seq<Seq<char>>
    decreases text.len(),
{
    if text.len() == 0 {
        seq![Seq::empty()]
    } else {
        let init = split_on_slash(text.drop_last());
        if text.last() == '/' {
            init.push(Seq::empty())
        } else {
            init.update(init.len() - 1, init.last().push(text.last()))
        }
    }
}

pub proof fn lemma_split_nonempty(text: Seq<char>)
    ensures
        split_on_slash(text).len() >= 1,
    decreases text.len(),
{
    if text.len() > 0 {
        lemma_split_nonempty(text.drop_last());
    }
}

/// The segments of a route pattern.
pub open spec fn route_segments(route: Seq<char>) -> Seq<Seq<char>> {
    split_on_slash(strip_leading_slash(route))
}

pub open spec fn is_dynamic(segment: Seq<char>) -> bool {
    segment.len() > 0 && segment[0] == ':'
}

pub open spec fn is_bare_wildcard(segment: Seq<char>) -> bool {
    segment.len() == 1 && segment[0] == '*'
}

pub open spec fn is_named_wildcard(segment: Seq<char>) -> bool {
    segment.len() > 1 && segment[0] == '*'
}

/// The expression of a `:name` segment: one or more characters other than `/`.
pub open spec fn dynamic_expr(name: Seq<char>) -> Seq<char> {
    "(?P<"@ + escaped(name) + ">[^/]+)"@
}

/// The expression of a bare `*` segment: anything, in an unnamed group.
pub open spec fn wildcard_expr() -> Seq<char> {
    "(.*)"@
}

/// The expression of a `*name` segment: anything, in a group called `name`.
pub open spec fn named_wildcard_expr(name: Seq<char>) -> Seq<char> {
    "(?P<"@ + escaped(name) + ">.*)"@
}

/// The expression of the segments `segments`, joined by `/`, where `groups`
/// capture groups come before them, with the number of the unnamed wildcard
/// group if a bare `*` ends them.
pub open spec fn compile_segments(segments: Seq<Seq<char>>, groups: nat) -> Result<
    (Seq<char>, Option<nat>),
    BuildError,
>
    decreases segments.len(),
{
    if segments.len() == 0 {
        Ok((Seq::empty(), None))
    } else {
        let segment = segments[0];
        let name = segment.drop_first();
        if (is_dynamic(segment) || is_named_wildcard(segment)) && !valid_param_name(name) {
            Err(BuildError::InvalidParamName)
        } else if is_bare_wildcard(segment) {
            Ok((wildcard_expr(), Some(groups + 1)))
        } else if is_named_wildcard(segment) {
            Ok((named_wildcard_expr(name), None))
        } else {
            let expr = if is_dynamic(segment) {
                dynamic_expr(name)
            } else {
                escaped(segment)
            };
            let after = if is_dynamic(segment) {
                groups + 1
            } else {
                groups
            };
            if segments.len() == 1 {
                Ok((expr, None))
            } else {
                match compile_segments(segments.drop_first(), after) {
                    Ok((rest, wildcard)) => Ok((expr + "/"@ + rest, wildcard)),
                    Err(e) => Err(e),
                }
            }
        }
    }
}

/// `acc` followed by the expression of `tail` and the end anchor.
pub open spec fn close_expr(
    acc: Seq<char>,
    tail: Result<(Seq<char>, Option<nat>), BuildError>,
) -> Result<(Seq<char>, Option<nat>), BuildError> {
    match tail {
        Ok((body, wildcard)) => Ok((acc + body + "$"@, wildcard)),
        Err(e) => Err(e),
    }
}

/// The anchored expression of a route pattern, with the number of its unnamed
/// wildcard group, if any.
pub open spec fn route_expression(route: Seq<char>) -> Result<(Seq<char>, Option<nat>), BuildError> {
    close_expr("^/?"@, compile_segments(route_segments(route), 0))
}

pub open spec fn opt_nat(o: Option<usize>) -> Option<nat> {
    match o {
        Some(v) => Some(v as nat),
        None => None,
    }
}

/// A literal segment: neither `:name` nor a wildcard.
pub open spec fn is_literal(segment: Seq<char>) -> bool {
    !(segment.len() > 0 && (segment[0] == ':' || segment[0] == '*'))
}

/// The escaped segments joined by `/`.
pub open spec fn escaped_joined(segments: Seq<Seq<char>>) -> Seq<char>
    decreases segments.len(),
{
    if segments.len() <= 1 {
        if segments.len() == 0 {
            Seq::empty()
        } else {
            escaped(segments[0])
        }
    } else {
        escaped(segments[0]) + "/"@ + escaped_joined(segments.drop_first())
    }
}

proof fn lemma_literal_segments(segments: Seq<Seq<char>>, groups: nat)
    requires
        segments.len() >= 1,
        forall|i: int| 0 <= i < segments.len() ==> is_literal(#[trigger] segments[i]),
    ensures
        compile_segments(segments, groups) == Ok::<_, BuildError>(
            (escaped_joined(segments), None::<nat>),
        ),
    decreases segments.len(),
{
    assert(is_literal(segments[0]));
    if segments.len() > 1 {
        let tail = segments.drop_first();
        assert forall|i: int| 0 <= i < tail.len() implies is_literal(#[trigger] tail[i]) by {
            assert(tail[i] == segments[i + 1]);
        }
        lemma_literal_segments(tail, groups);
    }
}

/// A pattern of literal segments always compiles, has no wildcard group, and
/// its expression is the escaped segments joined by `/`, between the start
/// anchor with an optional `/` and the end anchor.
pub proof fn lemma_literal_route(route: Seq<char>)
    requires
        forall|i: int|
            0 <= i < route_segments(route).len() ==> is_literal(#[trigger] route_segments(route)[i]),
    ensures
        route_expression(route) == Ok::<_, BuildError>(
            ("^/?"@ + escaped_joined(route_segments(route)) + "$"@, None::<nat>),
        ),
{
    lemma_split_nonempty(strip_leading_slash(route));
    lemma_literal_segments(route_segments(route), 0);
}

/// Splits `text` at each `/`.
fn split_segments<'a>(text: &'a str) -> (r: Vec<&'a str>)
    ensures
        r@.len() == split_on_slash(text@).len(),
        forall|k: int| 0 <= k < r@.len() ==> #[trigger] r@[k]@ == split_on_slash(text@)[k],
{
    let n = text.unicode_len();
    let mut segments: Vec<&'a str> = Vec::new();
    let mut start: usize = 0;
    let mut i: usize = 0;
    while i < n
        invariant
            n == text@.len(),
            start <= i <= n,
            segments@.len() + 1 == split_on_slash(text@.subrange(0, i as int)).len(),
            forall|k: int|
                0 <= k < segments@.len() ==> #[trigger] segments@[k]@ == split_on_slash(
                    text@.subrange(0, i as int),
                )[k],
            split_on_slash(text@.subrange(0, i as int)).last() == text@.subrange(
                start as int,
                i as int,
            ),
        decreases n - i,
    {
        let ghost before = split_on_slash(text@.subrange(0, i as int));
        assert(text@.subrange(0, i + 1).drop_last() =~= text@.subrange(0, i as int));
        assert(text@.subrange(0, i + 1).last() == text@[i as int]);
        if text.get_char(i) == '/' {
            segments.push(text.substring_char(start, i));
            start = i + 1;
            assert(text@.subrange(start as int, start as int) =~= Seq::<char>::empty());
        } else {
            assert(text@.subrange(start as int, i + 1) =~= text@.subrange(start as int, i as int).push(
                text@[i as int],
            ));
        }
        i += 1;
    }
    assert(text@.subrange(0, n as int) =~= text@);
    segments.push(text.substring_char(start, n));
    segments
}

/// Appends the expression of a `:name` segment.
pub fn push_dynamic_segment(name: &str, pattern: &mut String)
    ensures
        final(pattern)@ == old(pattern)@ + dynamic_expr(name@),
{
    let quoted = escape_text(name);
    pattern.append("(?P<");
    pattern.append(quoted.as_str());
    pattern.append(">[^/]+)");
    assert(final(pattern)@ =~= old(pattern)@ + dynamic_expr(name@));
}

/// Appends the expression of a `*name` segment.
pub fn push_named_wildcard(name: &str, pattern: &mut String)
    ensures
        final(pattern)@ == old(pattern)@ + named_wildcard_expr(name@),
{
    let quoted = escape_text(name);
    pattern.append("(?P<");
    pattern.append(quoted.as_str());
    pattern.append(">.*)");
    assert(final(pattern)@ =~= old(pattern)@ + named_wildcard_expr(name@));
}

/// Appends the expression of a bare `*` segment.
pub fn push_wildcard(pattern: &mut String)
    ensures
        final(pattern)@ == old(pattern)@ + wildcard_expr(),
{
    pattern.append("(.*)");
}

/// Appends the expression of a literal segment.
pub fn push_static_segment(segment: &str, pattern: &mut String)
    ensures
        final(pattern)@ == old(pattern)@ + escaped(segment@),
{
    let quoted = escape_text(segment);
    pattern.append(quoted.as_str());
}

/// A compiled route pattern: the anchored expression, and the number of the
/// group of its unnamed wildcard, if it ends in a bare `*`.
pub struct CompiledPattern {
    pub source: String,
    pub wildcard_group: Option<usize>,
}

/// Ends a compiled expression with the end anchor.
fn finish(mut pattern: String, wildcard_group: Option<usize>) -> (r: CompiledPattern)
    ensures
        r.source@ == pattern@ + "$"@,
        r.wildcard_group == wildcard_group,
{
    pattern.append("$");
    CompiledPattern { source: pattern, wildcard_group }
}

/// Compiles a route pattern into its anchored expression.
pub fn compile(route: &str) -> (r: Result<CompiledPattern, BuildError>)
    ensures
        r is Ok <==> route_expression(route@) is Ok,
        r matches Ok(c) ==> route_expression(route@) == Ok::<_, BuildError>(
            (c.source@, opt_nat(c.wildcard_group)),
        ),
        r is Err ==> r == Err::<CompiledPattern, _>(BuildError::InvalidParamName),
{
    let n = route.unicode_len();
    let start: usize = if n > 0 && route.get_char(0) == '/' {
        1
    } else {
        0
    };
    let rest = route.substring_char(start, n);
    assert(rest@ =~= strip_leading_slash(route@));
    let segments = split_segments(rest);
    let ghost all = route_segments(route@);
    proof {
        lemma_split_nonempty(rest@);
    }
    let count = segments.len();
    let mut pattern = String::from_str("^/?");
    let mut k: usize = 0;
    let mut groups: usize = 0;
    assert(all.subrange(0, all.len() as int) =~= all);
    loop
        invariant
            segments@.len() == all.len(),
            count == all.len(),
            forall|j: int| 0 <= j < segments@.len() ==> #[trigger] segments@[j]@ == all[j],
            k < all.len(),
            groups <= k,
            route_expression(route@) == close_expr(
                pattern@,
                compile_segments(all.subrange(k as int, all.len() as int), groups as nat),
            ),
        decreases all.len() - k,
    {
        let ghost tail = all.subrange(k as int, all.len() as int);
        assert(tail[0] == segments@[k as int]@);
        assert(tail.drop_first() =~= all.subrange(k + 1, all.len() as int));
        let segment = segments[k];
        let m = segment.unicode_len();
        let dynamic = m > 0 && segment.get_char(0) == ':';
        let star = m > 0 && segment.get_char(0) == '*';
        let ghost before = pattern@;
        let ghost before_groups = groups;
        let ghost mut piece = escaped(segment@);
        if dynamic || (star && m > 1) {
            let name = segment.substring_char(1, m);
            assert(name@ =~= segment@.drop_first());
            if !is_valid_param_name(name) {
                return Err(BuildError::InvalidParamName);
            }
            if star {
                push_named_wildcard(name, &mut pattern);
                assert(before + named_wildcard_expr(name@) + "$"@ =~= before + (
                named_wildcard_expr(name@) + "$"@));
                return Ok(finish(pattern, None));
            }
            push_dynamic_segment(name, &mut pattern);
            proof {
                piece = dynamic_expr(name@);
            }
            groups = groups + 1;
        } else if star {
            push_wildcard(&mut pattern);
            return Ok(finish(pattern, Some(groups + 1)));
        } else {
            push_static_segment(segment, &mut pattern);
        }
        if k + 1 == count {
            return Ok(finish(pattern, None));
        }
        assert(pattern@ == before + piece);
        pattern.append("/");
        k = k + 1;
        proof {
            let next = compile_segments(all.subrange(k as int, all.len() as int), groups as nat);
            assert(compile_segments(tail, before_groups as nat) == match next {
                Ok((rest_expr, w)) => Ok((piece + "/"@ + rest_expr, w)),
                Err(e) => Err(e),
            });
            match next {
                Ok((rest_expr, w)) => {
                    assert(before + (piece + "/"@ + rest_expr) + "$"@ =~= pattern@ + rest_expr
                        + "$"@);
                },
                Err(e) => {},
            }
        }
    }
}

/// Compiles a route pattern into an expression of the engine.
pub fn parse(route: &str) -> (r: Result<Regex, BuildError>)
    ensures
        r matches Ok(re) ==> route_expression(route@) matches Ok((source, _)) && regex_source(re)
            == source,
        route_expression(route@) is Err ==> r == Err::<Regex, _>(BuildError::InvalidParamName),
        r matches Err(e) ==> (e is InvalidParamName <==> route_expression(route@) is Err),
        route_expression(route@) matches Ok((source, _)) ==> (r is Ok <==> regex_accepts(source)),
{
    match compile(route) {
        Ok(c) => match new_regex(c.source.as_str()) {
            Ok(re) => Ok(re),
            Err(message) => Err(BuildError::Matcher(Error::from_message(message))),
        },
        Err(e) => Err(e),
    }
}

} // verus!
