//! The router: registered routes, looked up by method and path.
use http::{Method, Uri};
use regex::RegexSet;
use std::sync::Arc;
use vstd::prelude::*;

use crate::engine::{
    expression_matches, new_regex_set, path_of, regex_accepts, set_accepts, set_matches,
    set_sources, uri_path,
};
use crate::error::Error;
use crate::errors::BuildError;
use crate::layer::{accepts, Layer, RouteView};
use crate::param::Params;
use crate::pattern::route_expression;

verus! {

/// The indices below `n` of the expressions in `patterns` that match
/// `subject`, ascending.
pub open spec fn matching_indices(patterns: Seq<Seq<char>>, subject: Seq<char>, n: nat) -> Seq<
    usize,
>
    decreases n,
{
    if n == 0 {
        Seq::empty()
    } else {
        let below = matching_indices(patterns, subject, (n - 1) as nat);
        if expression_matches(patterns[n - 1], subject) {
            below.push((n - 1) as usize)
        } else {
            below
        }
    }
}

/// The candidates, in order, whose route serves `method`.
pub open spec fn admitted<T>(routes: Seq<RouteView<T>>, candidates: Seq<usize>, method: Method) -> Seq<
    usize,
>
    decreases candidates.len(),
{
    if candidates.len() == 0 {
        Seq::empty()
    } else {
        let rest = admitted(routes, candidates.drop_first(), method);
        if candidates[0] < routes.len() && accepts(routes[candidates[0] as int].method, method) {
            seq![candidates[0]] + rest
        } else {
            rest
        }
    }
}

/// The expressions of the routes, in order.
pub open spec fn sources_of<T>(routes: Seq<RouteView<T>>) -> Seq<Seq<char>> {
    routes.map_values(|r: RouteView<T>| r.source)
}

/// The indices of the routes that serve `method` and whose expression matches
/// `path`, in registration order.
pub open spec fn route_hits<T>(routes: Seq<RouteView<T>>, method: Method, path: Seq<char>) -> Seq<
    usize,
> {
    admitted(routes, matching_indices(sources_of(routes), path, routes.len()), method)
}

/// An ascending sequence of indices below `n` that holds exactly those of the
/// matching expressions is the one `matching_indices` gives.
proof fn lemma_ascending_is_matching(
    patterns: Seq<Seq<char>>,
    subject: Seq<char>,
    n: nat,
    s: Seq<usize>,
)
    requires
        n <= usize::MAX + 1,
        forall|k: int| 0 <= k < s.len() ==> #[trigger] s[k] < n,
        forall|k: int, l: int| 0 <= k < l < s.len() ==> s[k] < s[l],
        forall|i: int|
            0 <= i < n ==> (expression_matches(#[trigger] patterns[i], subject) <==> s.contains(
                i as usize,
            )),
    ensures
        s == matching_indices(patterns, subject, n),
    decreases n,
{
    if n == 0 {
        if s.len() > 0 {
            assert(s[0] < 0);
        }
        assert(s =~= Seq::<usize>::empty());
    } else {
        let top = (n - 1) as usize;
        if expression_matches(patterns[n - 1], subject) {
            assert(s.contains(top));
            let j = choose|j: int| 0 <= j < s.len() && s[j] == top;
            if j < s.len() - 1 {
                assert(s[j] < s[s.len() - 1]);
            }
            let init = s.drop_last();
            assert forall|i: int| 0 <= i < n - 1 implies (expression_matches(
                #[trigger] patterns[i],
                subject,
            ) <==> init.contains(i as usize)) by {
                if s.contains(i as usize) {
                    let m = choose|m: int| 0 <= m < s.len() && s[m] == i as usize;
                    assert(m != s.len() - 1);
                    assert(init[m] == i as usize);
                }
                if init.contains(i as usize) {
                    let m = choose|m: int| 0 <= m < init.len() && init[m] == i as usize;
                    assert(s[m] == i as usize);
                }
            }
            assert forall|k: int| 0 <= k < init.len() implies #[trigger] init[k] < n - 1 by {
                assert(s[k] < s[s.len() - 1]);
            }
            lemma_ascending_is_matching(patterns, subject, (n - 1) as nat, init);
            assert(s =~= init.push(top));
        } else {
            assert forall|k: int| 0 <= k < s.len() implies #[trigger] s[k] < n - 1 by {
                if s[k] == top {
                    assert(s.contains(top));
                }
            }
            lemma_ascending_is_matching(patterns, subject, (n - 1) as nat, s);
        }
    }
}

proof fn lemma_admitted_len<T>(routes: Seq<RouteView<T>>, candidates: Seq<usize>, method: Method)
    ensures
        admitted(routes, candidates, method).len() <= candidates.len(),
    decreases candidates.len(),
{
    if candidates.len() > 0 {
        lemma_admitted_len(routes, candidates.drop_first(), method);
    }
}

proof fn lemma_matching_indices(patterns: Seq<Seq<char>>, subject: Seq<char>, n: nat)
    requires
        n <= usize::MAX + 1,
    ensures
        forall|k: int|
            0 <= k < matching_indices(patterns, subject, n).len() ==> #[trigger] matching_indices(
                patterns,
                subject,
                n,
            )[k] < n,
        forall|k: int, l: int|
            0 <= k < l < matching_indices(patterns, subject, n).len() ==> matching_indices(
                patterns,
                subject,
                n,
            )[k] < matching_indices(patterns, subject, n)[l],
        forall|i: int|
            0 <= i < n ==> (#[trigger] matching_indices(patterns, subject, n).contains(i as usize)
                <==> expression_matches(patterns[i], subject)),
    decreases n,
{
    if n > 0 {
        let below = matching_indices(patterns, subject, (n - 1) as nat);
        lemma_matching_indices(patterns, subject, (n - 1) as nat);
        let all = matching_indices(patterns, subject, n);
        assert forall|i: int| 0 <= i < n implies (#[trigger] all.contains(i as usize)
            <==> expression_matches(patterns[i], subject)) by {
            if i < n - 1 {
                if all.contains(i as usize) {
                    let k = choose|k: int| 0 <= k < all.len() && all[k] == i as usize;
                    if k < below.len() {
                        assert(below[k] == i as usize);
                    }
                }
                if below.contains(i as usize) {
                    let k = choose|k: int| 0 <= k < below.len() && below[k] == i as usize;
                    assert(all[k] == i as usize);
                }
            } else {
                if expression_matches(patterns[i], subject) {
                    assert(all[all.len() - 1] == i as usize);
                }
                if all.contains(i as usize) {
                    let k = choose|k: int| 0 <= k < all.len() && all[k] == i as usize;
                    if k < below.len() {
                        assert(below[k] < n - 1);
                    }
                }
            }
        }
    }
}

proof fn lemma_admitted<T>(routes: Seq<RouteView<T>>, candidates: Seq<usize>, method: Method)
    ensures
        forall|x: usize|
            #[trigger] admitted(routes, candidates, method).contains(x) <==> (candidates.contains(
                x,
            ) && x < routes.len() && accepts(routes[x as int].method, method)),
        (forall|k: int, l: int| 0 <= k < l < candidates.len() ==> candidates[k] < candidates[l])
            ==> (forall|k: int, l: int|
            0 <= k < l < admitted(routes, candidates, method).len() ==> admitted(
                routes,
                candidates,
                method,
            )[k] < admitted(routes, candidates, method)[l]),
    decreases candidates.len(),
{
    if candidates.len() > 0 {
        let tail = candidates.drop_first();
        lemma_admitted(routes, tail, method);
        let rest = admitted(routes, tail, method);
        let all = admitted(routes, candidates, method);
        assert forall|x: usize| #[trigger]
            all.contains(x) <==> (candidates.contains(x) && x < routes.len() && accepts(
                routes[x as int].method,
                method,
            )) by {
            if candidates.contains(x) {
                let k = choose|k: int| 0 <= k < candidates.len() && candidates[k] == x;
                if k > 0 {
                    assert(tail[k - 1] == x);
                }
            }
            if tail.contains(x) {
                let k = choose|k: int| 0 <= k < tail.len() && tail[k] == x;
                assert(candidates[k + 1] == x);
            }
            if all.contains(x) && all.len() > rest.len() {
                let k = choose|k: int| 0 <= k < all.len() && all[k] == x;
                if k > 0 {
                    assert(rest[k - 1] == x);
                }
            }
            if rest.contains(x) && all.len() > rest.len() {
                let k = choose|k: int| 0 <= k < rest.len() && rest[k] == x;
                assert(all[k + 1] == x);
            }
            if all.len() > rest.len() {
                assert(all[0] == candidates[0]);
            }
        }
        if forall|k: int, l: int| 0 <= k < l < candidates.len() ==> candidates[k] < candidates[l] {
            assert forall|k: int, l: int| 0 <= k < l < tail.len() implies tail[k] < tail[l] by {
                assert(candidates[k + 1] < candidates[l + 1]);
            }
            if all.len() > rest.len() {
                assert forall|k: int, l: int| 0 <= k < l < all.len() implies all[k] < all[l] by {
                    if k == 0 {
                        assert(rest.contains(all[l]));
                        let j = choose|j: int| 0 <= j < tail.len() && tail[j] == all[l];
                        assert(candidates[0] < candidates[j + 1]);
                    } else {
                        assert(all[k] == rest[k - 1] && all[l] == rest[l - 1]);
                    }
                }
            }
        }
    }
}

/// A lookup yields exactly the routes that serve the method and whose
/// expression matches the path, each once, in registration order.
pub proof fn lemma_route_hits<T>(routes: Seq<RouteView<T>>, method: Method, path: Seq<char>)
    requires
        routes.len() <= usize::MAX,
    ensures
        forall|x: usize|
            #[trigger] route_hits(routes, method, path).contains(x) <==> (x < routes.len()
                && accepts(routes[x as int].method, method) && expression_matches(
                routes[x as int].source,
                path,
            )),
        forall|k: int, l: int|
            0 <= k < l < route_hits(routes, method, path).len() ==> route_hits(
                routes,
                method,
                path,
            )[k] < route_hits(routes, method, path)[l],
{
    let n = routes.len();
    let sources = sources_of(routes);
    lemma_matching_indices(sources, path, n);
    lemma_admitted(routes, matching_indices(sources, path, n), method);
    assert forall|x: usize| #[trigger]
        route_hits(routes, method, path).contains(x) <==> (x < routes.len() && accepts(
            routes[x as int].method,
            method,
        ) && expression_matches(routes[x as int].source, path)) by {
        if x < n {
            assert(sources[x as int] == routes[x as int].source);
            assert((x as int) as usize == x);
        }
        if matching_indices(sources, path, n).contains(x) {
            let k = choose|k: int|
                0 <= k < matching_indices(sources, path, n).len() && matching_indices(
                    sources,
                    path,
                    n,
                )[k] == x;
            assert(matching_indices(sources, path, n)[k] < n);
        }
    }
}

proof fn lemma_matching_len(patterns: Seq<Seq<char>>, subject: Seq<char>, n: nat)
    ensures
        matching_indices(patterns, subject, n).len() <= n,
    decreases n,
{
    if n > 0 {
        lemma_matching_len(patterns, subject, (n - 1) as nat);
    }
}

/// Two lookups of the same method and path on one router, each collected
/// with `into_vec`, yield the same routes in the same order, with the same
/// path.
pub proof fn lemma_lookup_repeatable<T>(
    router: Router<T>,
    method: Method,
    path: Seq<char>,
    first: Seq<Match<T>>,
    second: Seq<Match<T>>,
)
    requires
        first.len() == route_hits(router.routes(), method, path).len(),
        forall|k: int|
            0 <= k < first.len() ==> {
                &&& #[trigger] first[k].index() == route_hits(router.routes(), method, path)[k]
                &&& first[k].routes() == router.routes()
                &&& first[k].subject() == path
            },
        second.len() == route_hits(router.routes(), method, path).len(),
        forall|k: int|
            0 <= k < second.len() ==> {
                &&& #[trigger] second[k].index() == route_hits(router.routes(), method, path)[k]
                &&& second[k].routes() == router.routes()
                &&& second[k].subject() == path
            },
    ensures
        first.len() == second.len(),
        forall|k: int|
            #![trigger first[k]]
            0 <= k < first.len() ==> {
                &&& first[k].index() == second[k].index()
                &&& first[k].routes() == second[k].routes()
                &&& first[k].subject() == second[k].subject()
            },
{
    assert forall|k: int| #![trigger first[k]] 0 <= k < first.len() implies {
        &&& first[k].index() == second[k].index()
        &&& first[k].routes() == second[k].routes()
        &&& first[k].subject() == second[k].subject()
    } by {
        assert(first[k].index() == route_hits(router.routes(), method, path)[k]);
        assert(second[k].index() == route_hits(router.routes(), method, path)[k]);
    }
}

/// Registered routes, looked up by method and path.
pub struct Router<T> {
    regex_set: RegexSet,
    layers: Arc<Vec<Layer<T>>>,
}

impl<T> Router<T> {
    #[verifier::type_invariant]
    closed spec fn inv(&self) -> bool {
        &&& set_sources(self.regex_set).len() == self.layers@.len()
        &&& self.layers@.len() <= usize::MAX
        &&& forall|i: int|
            0 <= i < self.layers@.len() ==> #[trigger] set_sources(self.regex_set)[i]
                == self.layers@[i]@.source
    }

    /// The registered routes, in registration order.
    pub closed spec fn routes(&self) -> Seq<RouteView<T>> {
        self.layers@.map_values(|l: Layer<T>| l@)
    }

    /// A builder with no routes.
    pub fn builder() -> (r: Builder<T>)
        ensures
            r.routes() == Seq::<RouteView<T>>::empty(),
            r.failure() is None,
    {
        Builder::new()
    }

    /// The routes that serve `method` and match the path of `uri`.
    pub fn matches(&self, method: Method, uri: &Uri) -> (r: Matches<T>)
        ensures
            r.subject() == path_of(*uri),
            r.routes() == self.routes(),
            r.pending() == route_hits(self.routes(), method, path_of(*uri)),
            r.candidates() == matching_indices(
                sources_of(self.routes()),
                path_of(*uri),
                self.routes().len(),
            ),
    {
        self.matches_path(method, uri_path(uri))
    }

    /// The routes that serve `method` and whose pattern matches `path`, in
    /// registration order. What is yielded depends on the routes, the method
    /// and the path alone, so the same lookup repeated yields the same.
    pub fn matches_path(&self, method: Method, path: &str) -> (r: Matches<T>)
        ensures
            r.subject() == path@,
            r.routes() == self.routes(),
            r.pending() == route_hits(self.routes(), method, path@),
            r.candidates() == matching_indices(
                sources_of(self.routes()),
                path@,
                self.routes().len(),
            ),
            forall|x: usize|
                #[trigger] r.pending().contains(x) <==> (x < self.routes().len() && accepts(
                    self.routes()[x as int].method,
                    method,
                ) && expression_matches(self.routes()[x as int].source, path@)),
            forall|k: int, l: int|
                0 <= k < l < r.pending().len() ==> r.pending()[k] < r.pending()[l],
    {
        proof {
            use_type_invariant(self);
            lemma_route_hits(self.routes(), method, path@);
            lemma_matching_len(
                set_sources(self.regex_set),
                path@,
                set_sources(self.regex_set).len(),
            );
        }
        let candidates = set_matches(&self.regex_set, path);
        proof {
            assert(sources_of(self.routes()) =~= set_sources(self.regex_set));
            lemma_ascending_is_matching(
                set_sources(self.regex_set),
                path@,
                set_sources(self.regex_set).len(),
                candidates@,
            );
            assert(candidates@.subrange(0, candidates@.len() as int) =~= candidates@);
        }
        Matches {
            method,
            subject: String::from_str(path),
            candidates,
            pos: 0,
            layers: self.layers.clone(),
        }
    }
}

/// One matching route, with the path it matched.
pub struct Match<T> {
    subject: String,
    idx: usize,
    layers: Arc<Vec<Layer<T>>>,
}

impl<T> Match<T> {
    #[verifier::type_invariant]
    closed spec fn inv(&self) -> bool {
        self.idx < self.layers@.len()
    }

    /// The routes of the router that was looked up.
    pub closed spec fn routes(&self) -> Seq<RouteView<T>> {
        self.layers@.map_values(|l: Layer<T>| l@)
    }

    /// The index of the matching route.
    pub closed spec fn index(&self) -> usize {
        self.idx
    }

    /// The path that was looked up.
    pub closed spec fn subject(&self) -> Seq<char> {
        self.subject@
    }

    /// The handler of the matching route.
    pub fn handler(&self) -> (r: &T)
        ensures
            self.index() < self.routes().len(),
            *r == self.routes()[self.index() as int].handler,
    {
        proof {
            use_type_invariant(self);
        }
        self.layers[self.idx].handler()
    }

    /// The parameters of the match.
    pub fn params(&self) -> (r: Params<'_>)
        ensures
            self.index() < self.routes().len(),
            r.source() == self.routes()[self.index() as int].source,
            r.subject() == self.subject(),
            r.wildcard_group() matches Some(g) ==> self.routes()[self.index() as int].wildcard_group
                == Some(g as nat),
            r.wildcard_group() is None ==> self.routes()[self.index() as int].wildcard_group is None,
    {
        proof {
            use_type_invariant(self);
        }
        let layer = &self.layers[self.idx];
        Params::new(&layer.regex, self.subject.as_str(), layer.wildcard_group)
    }
}

/// The matches of one lookup, in registration order.
pub struct Matches<T> {
    method: Method,
    subject: String,
    candidates: Vec<usize>,
    pos: usize,
    layers: Arc<Vec<Layer<T>>>,
}

impl<T> Matches<T> {
    #[verifier::type_invariant]
    closed spec fn inv(&self) -> bool {
        &&& self.pos <= self.candidates@.len()
        &&& self.candidates@.len() <= self.layers@.len()
        &&& forall|k: int|
            0 <= k < self.candidates@.len() ==> #[trigger] self.candidates@[k] < self.layers@.len()
    }

    /// The routes of the router that was looked up.
    pub closed spec fn routes(&self) -> Seq<RouteView<T>> {
        self.layers@.map_values(|l: Layer<T>| l@)
    }

    /// The path that was looked up.
    pub closed spec fn subject(&self) -> Seq<char> {
        self.subject@
    }

    /// The method that was looked up.
    pub closed spec fn method(&self) -> Method {
        self.method
    }

    /// The indices of the routes still to be yielded, in order.
    pub open spec fn pending(&self) -> Seq<usize> {
        admitted(self.routes(), self.candidates(), self.method())
    }

    /// The routes whose expression matches the path that are still to be
    /// examined against the method, in order.
    pub closed spec fn candidates(&self) -> Seq<usize> {
        self.candidates@.subrange(self.pos as int, self.candidates@.len() as int)
    }

    /// The next match, if any is left.
    pub fn next(&mut self) -> (r: Option<Match<T>>)
        ensures
            final(self).routes() == old(self).routes(),
            final(self).subject() == old(self).subject(),
            final(self).method() == old(self).method(),
            final(self).candidates() == old(self).candidates().subrange(
                old(self).candidates().len() - final(self).candidates().len(),
                old(self).candidates().len() as int,
            ),
            r is None <==> old(self).pending().len() == 0,
            r is None ==> final(self).pending() == old(self).pending(),
            r matches Some(m) ==> {
                &&& m.index() == old(self).pending()[0]
                &&& m.routes() == old(self).routes()
                &&& m.subject() == old(self).subject()
                &&& final(self).pending() == old(self).pending().drop_first()
            },
    {
        proof {
            use_type_invariant(&*self);
        }
        let n = self.candidates.len();
        loop
            invariant
                self.pos <= n == self.candidates@.len(),
                forall|k: int|
                    0 <= k < self.candidates@.len() ==> #[trigger] self.candidates@[k]
                        < self.layers@.len(),
                self.routes() == old(self).routes(),
                self.subject() == old(self).subject(),
                self.method == old(self).method,
                self.candidates@ == old(self).candidates@,
                self.candidates@.len() <= self.layers@.len(),
                old(self).pos <= self.pos,
                self.pending() == old(self).pending(),
            decreases n - self.pos,
        {
            let ghost rest = self.candidates@.subrange(self.pos as int, n as int);
            assert(self.candidates() =~= old(self).candidates().subrange(
                old(self).candidates().len() - self.candidates().len(),
                old(self).candidates().len() as int,
            ));
            if self.pos == n {
                return None;
            }
            let idx = self.candidates[self.pos];
            assert(rest.drop_first() =~= self.candidates@.subrange(self.pos + 1, n as int));
            self.pos = self.pos + 1;
            assert(self.candidates() =~= old(self).candidates().subrange(
                old(self).candidates().len() - self.candidates().len(),
                old(self).candidates().len() as int,
            ));
            let layer = &self.layers[idx];
            if layer.is_match(&self.method) {
                proof {
                    assert(self.routes()[idx as int] == self.layers@[idx as int]@);
                }
                return Some(
                    Match { subject: self.subject.clone(), idx, layers: self.layers.clone() },
                );
            }
            proof {
                assert(self.routes()[idx as int] == self.layers@[idx as int]@);
            }
        }
    }

    /// All the matches that are left, in order.
    pub fn into_vec(self) -> (r: Vec<Match<T>>)
        ensures
            r@.len() == self.pending().len(),
            forall|k: int|
                0 <= k < r@.len() ==> {
                    &&& #[trigger] r@[k].index() == self.pending()[k]
                    &&& r@[k].routes() == self.routes()
                    &&& r@[k].subject() == self.subject()
                },
    {
        let mut rest = self;
        let mut out: Vec<Match<T>> = Vec::new();
        loop
            invariant
                out@.len() + rest.pending().len() == self.pending().len(),
                rest.pending() == self.pending().subrange(
                    out@.len() as int,
                    self.pending().len() as int,
                ),
                rest.routes() == self.routes(),
                rest.subject() == self.subject(),
                forall|k: int|
                    0 <= k < out@.len() ==> {
                        &&& #[trigger] out@[k].index() == self.pending()[k]
                        &&& out@[k].routes() == self.routes()
                        &&& out@[k].subject() == self.subject()
                    },
            decreases rest.pending().len(),
        {
            match rest.next() {
                Some(m) => {
                    out.push(m);
                    assert(rest.pending() =~= self.pending().subrange(
                        out@.len() as int,
                        self.pending().len() as int,
                    ));
                },
                None => {
                    return out;
                },
            }
        }
    }

    /// No fewer than zero matches are left, and no more than the candidates
    /// still to be examined.
    pub fn size_hint(&self) -> (r: (usize, Option<usize>))
        ensures
            r.0 == 0,
            r.1 == Some(self.candidates().len() as usize),
            self.pending().len() <= self.candidates().len() <= self.routes().len(),
    {
        proof {
            use_type_invariant(self);
            lemma_admitted_len(self.routes(), self.candidates(), self.method);
        }
        (0, Some(self.candidates.len() - self.pos))
    }
}

/// Whether a builder that held `routes` and `failure` holds `next_routes` and
/// `next_failure` after registering `handler` on `path` for `method`: the
/// first failure is kept; a pattern that does not compile adds no route and,
/// if nothing failed before, is the failure; one that compiles adds its route,
/// unless the engine refuses its expression, which then counts as a failure
/// of the engine.
pub open spec fn registers<T>(
    routes: Seq<RouteView<T>>,
    failure: Option<BuildError>,
    next_routes: Seq<RouteView<T>>,
    next_failure: Option<BuildError>,
    method: Option<Method>,
    path: Seq<char>,
    handler: T,
) -> bool {
    &&& failure is Some ==> next_failure == failure
    &&& match route_expression(path) {
        Err(_) => next_routes == routes && (failure is None ==> next_failure == Some(
            BuildError::InvalidParamName,
        )),
        Ok((source, wildcard_group)) => if regex_accepts(source) {
            next_routes == routes.push(RouteView { method, source, wildcard_group, handler })
                && next_failure == failure
        } else {
            next_routes == routes && next_failure is Some && (failure is None
                ==> next_failure->0 is Matcher)
        },
    }
}

/// Gathers routes for a router; the first failure is kept and reported by
/// `build`.
pub struct Builder<T> {
    error: Option<BuildError>,
    layers: Vec<Layer<T>>,
}

impl<T> Builder<T> {
    /// The routes registered so far.
    pub closed spec fn routes(&self) -> Seq<RouteView<T>> {
        self.layers@.map_values(|l: Layer<T>| l@)
    }

    /// The first failure, if any.
    pub closed spec fn failure(&self) -> Option<BuildError> {
        self.error
    }

    /// A builder with no routes.
    pub fn new() -> (r: Builder<T>)
        ensures
            r.routes() == Seq::<RouteView<T>>::empty(),
            r.failure() is None,
    {
        let r = Builder { error: None, layers: Vec::new() };
        assert(r.routes() =~= Seq::<RouteView<T>>::empty());
        r
    }

    fn push_layer(&mut self, method: Option<Method>, path: &str, handler: T)
        ensures
            registers(
                old(self).routes(),
                old(self).failure(),
                final(self).routes(),
                final(self).failure(),
                method,
                path@,
                handler,
            ),
    {
        match Layer::from_parts(method, path, handler) {
            Ok(layer) => {
                self.layers.push(layer);
                assert(self.routes() =~= old(self).routes().push(layer@));
            },
            Err(err) => {
                if self.error.is_none() {
                    self.error = Some(err);
                }
            },
        }
    }

    /// Registers `handler` on `path` for requests with `method`.
    pub fn route(self, method: Method, path: &str, handler: T) -> (r: Self)
        ensures
            registers(
                self.routes(),
                self.failure(),
                r.routes(),
                r.failure(),
                Some(method),
                path@,
                handler,
            ),
    {
        let mut builder = self;
        builder.push_layer(Some(method), path, handler);
        builder
    }

    /// Registers `handler` on `path` for requests with any method.
    pub fn route_any(self, path: &str, handler: T) -> (r: Self)
        ensures
            registers(self.routes(), self.failure(), r.routes(), r.failure(), None, path@, handler),
    {
        let mut builder = self;
        builder.push_layer(None, path, handler);
        builder
    }

    /// The router of the registered routes, or the first failure.
    pub fn build(self) -> (r: Result<Router<T>, BuildError>)
        ensures
            self.failure() matches Some(e) ==> r == Err::<Router<T>, _>(e),
            self.failure() is None ==> (r is Ok <==> set_accepts(sources_of(self.routes()))),
            self.failure() is None ==> match r {
                Ok(router) => router.routes() == self.routes(),
                Err(e) => e is Matcher,
            },
    {
        if let Some(e) = self.error {
            return Err(e);
        }
        let layers = self.layers;
        let set = {
            let mut sources: Vec<&str> = Vec::new();
            let mut i: usize = 0;
            while i < layers.len()
                invariant
                    i <= layers@.len(),
                    sources@.len() == i,
                    forall|k: int| 0 <= k < i ==> #[trigger] sources@[k]@ == layers@[k]@.source,
                decreases layers@.len() - i,
            {
                sources.push(layers[i].pattern());
                i = i + 1;
            }
            assert(sources@.map_values(|t: &str| t@) =~= sources_of(self.routes()));
            new_regex_set(&sources)
        };
        match set {
            Ok(regex_set) => {
                let router = Router { regex_set, layers: Arc::new(layers) };
                assert(router.routes() =~= self.routes());
                Ok(router)
            },
            Err(message) => Err(BuildError::Matcher(Error::from_message(message))),
        }
    }
}

} // verus!
