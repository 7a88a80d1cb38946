//! The route table: routes in registration order, resolved first match first.

use vstd::prelude::*;
use crate::compile::{CompileError, PathUtils};
use crate::matcher::{regex_accepts, regex_captures, regex_is_match, CompiledPattern};
use crate::params::{bind_groups, bind_params, Params};
use crate::pattern::{regex_source, variable_names};
use crate::variables::{variable_positions, VariableMap};

verus! {

/// A registered pattern: its text, the handler it leads to, the index of its
/// variables and its compiled matcher.
#[derive(Clone, Debug)]
pub struct Route<H> {
    pub path: String,
    pub handler: H,
    pub variables: VariableMap,
    pub matcher: CompiledPattern,
}

impl<H> Route<H> {
    /// The regular expression text of this route's matcher.
    pub open spec fn matcher_text(&self) -> Seq<char> {
        self.matcher.text()
    }
}

/// `r` is what registering `pattern` with `handler` builds.
pub open spec fn built_from<H>(r: Route<H>, pattern: Seq<char>, handler: H) -> bool {
    &&& r.path@ == pattern
    &&& r.handler == handler
    &&& r.variables@ == variable_positions(variable_names(pattern))
    &&& r.matcher_text() == regex_source(pattern)
}

/// The route's matcher accepts the whole of `path`.
pub open spec fn route_matches<H>(r: Route<H>, path: Seq<char>) -> bool {
    regex_is_match(r.matcher_text(), path)
}

/// The first index at or after `i` whose route matches `path`.
pub open spec fn first_match_from<H>(routes: Seq<Route<H>>, path: Seq<char>, i: int) -> Option<
    nat,
>
    decreases routes.len() - i,
{
    if i < 0 || i >= routes.len() {
        None
    } else if route_matches(routes[i], path) {
        Some(i as nat)
    } else {
        first_match_from(routes, path, i + 1)
    }
}

/// The index of the first registered route that matches `path`.
pub open spec fn first_match<H>(routes: Seq<Route<H>>, path: Seq<char>) -> Option<nat> {
    first_match_from(routes, path, 0)
}

/// The bindings that `path` gives to the variables of `r`.
pub open spec fn route_params<H>(r: Route<H>, path: Seq<char>) -> Seq<(Seq<char>, Seq<char>)> {
    bind_groups(r.variables@, regex_captures(r.matcher_text(), path))
}

/// `r` is what resolving `path` against `routes` gives: nothing where no
/// route matches; else the first matching route, its index, and the values
/// that `path` gives to its variables.
pub open spec fn resolves<'a, H>(
    routes: Seq<Route<H>>,
    path: Seq<char>,
    r: Option<RouteResult<'a, H>>,
) -> bool {
    match r {
        None => first_match(routes, path) is None,
        Some(res) => {
            &&& first_match(routes, path) == Some(res.index as nat)
            &&& *res.route == routes[res.index as int]
            &&& res.params@ == route_params(routes[res.index as int], path)
        },
    }
}

/// A successful resolution: the matched route, its index in the table, and
/// the values of its variables.
pub struct RouteResult<'a, H> {
    pub index: usize,
    pub route: &'a Route<H>,
    pub params: Params,
}

/// Holds routes and resolves concrete paths against them.
#[derive(Clone, Debug)]
pub struct Router<H> {
    pub routes: Vec<Route<H>>,
}

impl<H> Router<H> {
    /// An empty table.
    pub fn new() -> (r: Router<H>)
        ensures
            r.routes@ == Seq::<Route<H>>::empty(),
    {
        Router { routes: Vec::new() }
    }

    /// Compiles `path` and appends it, with `handler`, to the end of the
    /// table. Where its regular expression does not compile, the table is
    /// left as it was and the error names the pattern.
    pub fn add_route(&mut self, path: String, handler: H) -> (r: Result<(), CompileError>)
        ensures
            r is Ok <==> regex_accepts(regex_source(path@)),
            r is Ok ==> final(self).routes@.len() == old(self).routes@.len() + 1
                && final(self).routes@.drop_last() == old(self).routes@ && built_from(
                final(self).routes@.last(),
                path@,
                handler,
            ),
            r matches Err(e) ==> final(self).routes@ == old(self).routes@ && e.pattern@ == path@,
    {
        let matcher = match PathUtils::create_regex(path.as_str()) {
            Ok(m) => m,
            Err(e) => {
                return Err(e);
            },
        };
        let variables = PathUtils::get_variable_info(path.as_str());
        let route = Route { path, handler, variables, matcher };
        self.routes.push(route);
        assert(self.routes@.drop_last() =~= old(self).routes@);
        Ok(())
    }

    /// Resolves `path`: the first route, in registration order, whose matcher
    /// accepts the whole path, with the values of its variables; `None` where
    /// no route matches.
    pub fn match_route<'a>(&'a self, path: String) -> (r: Option<RouteResult<'a, H>>)
        ensures
            resolves(self.routes@, path@, r),
    {
        let mut i: usize = 0;
        while i < self.routes.len()
            invariant
                i <= self.routes@.len(),
                first_match(self.routes@, path@) == first_match_from(self.routes@, path@, i as int),
            decreases self.routes@.len() - i,
        {
            let route = &self.routes[i];
            if route.matcher.is_match(path.as_str()) {
                let groups = route.matcher.captures(path.as_str());
                let params = bind_params(&route.variables, &groups);
                return Some(RouteResult { index: i, route, params });
            }
            i += 1;
        }
        None
    }
}

} // verus!
