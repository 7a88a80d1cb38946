//! Properties that hold across the operations of the library.

use vstd::prelude::*;
use crate::pattern::{regex_source, translate_from, variable_names};
use crate::table::{first_match, first_match_from, resolves, route_matches, Route, RouteResult};
use crate::variables::{
    assign, has_key, keys_of, keys_unique, lemma_key_pos, key_pos, variable_positions,
};

verus! {

/// The index built from a sequence of names, entry by entry: no name twice,
/// exactly the names that occur, and each with the position of its last
/// occurrence.
proof fn lemma_positions_of_names(names: Seq<Seq<char>>)
    ensures
        keys_unique(variable_positions(names)),
        forall|k: Seq<char>| has_key(variable_positions(names), k) <==> names.contains(k),
        forall|j: int|
            0 <= j < variable_positions(names).len() ==> {
                let e = #[trigger] variable_positions(names)[j];
                &&& e.1 < names.len()
                &&& names[e.1 as int] == e.0
                &&& forall|t: int| e.1 < t < names.len() ==> names[t] != e.0
            },
    decreases names.len(),
{
    if names.len() > 0 {
        let dl = names.drop_last();
        let x = names.last();
        let n = (names.len() - 1) as nat;
        lemma_positions_of_names(dl);
        let prev = variable_positions(dl);
        let m = variable_positions(names);
        assert(m == assign(prev, x, n));
        lemma_key_pos(prev, x);
        assert forall|t: int| 0 <= t < dl.len() implies names[t] == dl[t] by {}
        assert forall|k: Seq<char>| names.contains(k) <==> (dl.contains(k) || k == x) by {
            if names.contains(k) {
                let i = choose|i: int| 0 <= i < names.len() && names[i] == k;
                if i < n {
                    assert(dl[i] == k);
                }
            }
            if dl.contains(k) {
                let i = choose|i: int| 0 <= i < dl.len() && dl[i] == k;
                assert(names[i] == k);
            }
            if k == x {
                assert(names[n as int] == k);
            }
        }
        match key_pos(prev, x) {
            Some(j) => {
                assert(m == prev.update(j as int, (x, n)));
                assert forall|t: int| 0 <= t < m.len() implies m[t].0 == prev[t].0 by {}
                assert forall|k: Seq<char>| has_key(m, k) <==> names.contains(k) by {
                    if has_key(m, k) {
                        let i = choose|i: int| 0 <= i < m.len() && m[i].0 == k;
                        assert(prev[i].0 == k);
                    }
                    if has_key(prev, k) {
                        let i = choose|i: int| 0 <= i < prev.len() && prev[i].0 == k;
                        assert(m[i].0 == k);
                    }
                }
                assert forall|i: int| 0 <= i < m.len() implies {
                    let e = #[trigger] m[i];
                    &&& e.1 < names.len()
                    &&& names[e.1 as int] == e.0
                    &&& forall|t: int| e.1 < t < names.len() ==> names[t] != e.0
                } by {
                    if i != j {
                        assert(m[i] == prev[i]);
                        assert(prev[i].0 != x);
                    }
                }
            },
            None => {
                assert(m == prev.push((x, n)));
                assert(!dl.contains(x)) by {
                    if dl.contains(x) {
                        let i = choose|i: int| 0 <= i < dl.len() && dl[i] == x;
                        let w = choose|w: int|
                            0 <= w < prev.len() && prev[w].0 == dl[#[trigger] prev[w].1 as int]
                                && prev[w].0 == x;
                    }
                }
                assert forall|k: Seq<char>| has_key(m, k) <==> names.contains(k) by {
                    if has_key(m, k) {
                        let i = choose|i: int| 0 <= i < m.len() && m[i].0 == k;
                        if i < prev.len() {
                            assert(prev[i].0 == k);
                        }
                    }
                    if has_key(prev, k) {
                        let i = choose|i: int| 0 <= i < prev.len() && prev[i].0 == k;
                        assert(m[i].0 == k);
                    }
                    if k == x {
                        assert(m[prev.len() as int].0 == k);
                    }
                }
                assert forall|i: int| 0 <= i < m.len() implies {
                    let e = #[trigger] m[i];
                    &&& e.1 < names.len()
                    &&& names[e.1 as int] == e.0
                    &&& forall|t: int| e.1 < t < names.len() ==> names[t] != e.0
                } by {
                    if i < prev.len() {
                        assert(m[i] == prev[i]);
                        assert(has_key(prev, prev[i].0));
                        assert(dl.contains(prev[i].0));
                    }
                }
            },
        }
    }
}

proof fn lemma_first_index_push(dl: Seq<Seq<char>>, x: Seq<char>, k: Seq<char>)
    ensures
        dl.contains(k) ==> dl.push(x).index_of_first(k) == dl.index_of_first(k),
        !dl.contains(k) && k == x ==> dl.push(x).index_of_first(k) == Some(dl.len() as int),
{
    let names = dl.push(x);
    dl.index_of_first_ensures(k);
    names.index_of_first_ensures(k);
    if dl.contains(k) {
        let i1 = dl.index_of_first(k)->Some_0;
        assert(names[i1] == k);
        assert(names.contains(k));
        let i2 = names.index_of_first(k)->Some_0;
        if i2 < i1 {
            assert(dl[i2] == names[i2]);
        }
    } else if k == x {
        assert(names[dl.len() as int] == k);
        let i2 = names.index_of_first(k)->Some_0;
        if i2 < dl.len() {
            assert(dl[i2] == names[i2]);
        }
    }
}

/// The entries of the index built from `names` come in the order in which
/// their names first occur.
proof fn lemma_positions_order(names: Seq<Seq<char>>)
    ensures
        forall|a: int, b: int|
            0 <= a < b < variable_positions(names).len() ==> (names.index_of_first(
                #[trigger] variable_positions(names)[a].0,
            )->Some_0) < (names.index_of_first(#[trigger] variable_positions(names)[b].0)->Some_0),
    decreases names.len(),
{
    if names.len() > 0 {
        let dl = names.drop_last();
        let x = names.last();
        let n = (names.len() - 1) as nat;
        assert(dl.push(x) =~= names);
        lemma_positions_order(dl);
        lemma_positions_of_names(dl);
        let prev = variable_positions(dl);
        let m = variable_positions(names);
        lemma_key_pos(prev, x);
        assert forall|i: int| 0 <= i < prev.len() implies dl.contains(#[trigger] prev[i].0) by {
            assert(has_key(prev, prev[i].0));
        }
        assert forall|a: int, b: int| 0 <= a < b < m.len() implies (names.index_of_first(
            #[trigger] m[a].0,
        )->Some_0) < (names.index_of_first(#[trigger] m[b].0)->Some_0) by {
            lemma_first_index_push(dl, x, m[a].0);
            lemma_first_index_push(dl, x, m[b].0);
            match key_pos(prev, x) {
                Some(j) => {
                    assert(m == prev.update(j as int, (x, n)));
                    assert(m[a].0 == prev[a].0);
                    assert(m[b].0 == prev[b].0);
                    assert(dl.contains(prev[a].0));
                    assert(dl.contains(prev[b].0));
                },
                None => {
                    assert(m == prev.push((x, n)));
                    assert(m[a] == prev[a]);
                    assert(dl.contains(prev[a].0));
                    dl.index_of_first_ensures(prev[a].0);
                    if b < prev.len() {
                        assert(m[b] == prev[b]);
                        assert(dl.contains(prev[b].0));
                    } else {
                        assert(!dl.contains(x)) by {
                            if dl.contains(x) {
                                assert(has_key(prev, x));
                            }
                        }
                    }
                },
            }
        }
    }
}

/// The variable index of a pattern has exactly one entry per distinct
/// variable name of the pattern, and so as many entries as there are distinct
/// names; each entry holds the ordinal, among all variable tokens from left
/// to right, of the last token with that name. Entries come in the order in
/// which their names first occur.
pub proof fn lemma_variable_index(pattern: Seq<char>)
    ensures
        keys_unique(variable_positions(variable_names(pattern))),
        forall|k: Seq<char>|
            has_key(variable_positions(variable_names(pattern)), k) <==> variable_names(
                pattern,
            ).contains(k),
        variable_positions(variable_names(pattern)).len() == variable_names(
            pattern,
        ).to_set().len(),
        forall|j: int|
            0 <= j < variable_positions(variable_names(pattern)).len() ==> {
                let e = #[trigger] variable_positions(variable_names(pattern))[j];
                let names = variable_names(pattern);
                &&& e.1 < names.len()
                &&& names[e.1 as int] == e.0
                &&& forall|t: int| e.1 < t < names.len() ==> names[t] != e.0
            },
        forall|a: int, b: int|
            0 <= a < b < variable_positions(variable_names(pattern)).len() ==> (variable_names(
                pattern,
            ).index_of_first(
                #[trigger] variable_positions(variable_names(pattern))[a].0,
            )->Some_0) < (variable_names(pattern).index_of_first(
                #[trigger] variable_positions(variable_names(pattern))[b].0,
            )->Some_0),
{
    let names = variable_names(pattern);
    let m = variable_positions(names);
    lemma_positions_of_names(names);
    lemma_positions_order(names);
    let ks = keys_of(m);
    assert(ks.no_duplicates());
    assert(ks.to_set() =~= names.to_set()) by {
        assert forall|k: Seq<char>| ks.to_set().contains(k) <==> names.to_set().contains(k) by {
            if ks.contains(k) {
                let i = choose|i: int| 0 <= i < ks.len() && ks[i] == k;
                assert(m[i].0 == k);
            }
            if has_key(m, k) {
                let i = choose|i: int| 0 <= i < m.len() && m[i].0 == k;
                assert(ks[i] == k);
            }
        }
    }
    ks.unique_seq_to_set();
}

/// The regular expression of a pattern is anchored: it opens with `^` and
/// closes with `$`, so that it can only match a whole path.
pub proof fn lemma_regex_anchored(pattern: Seq<char>)
    ensures
        regex_source(pattern).len() >= 2,
        regex_source(pattern)[0] == '^',
        regex_source(pattern).last() == '$',
{
    reveal_strlit("^");
    reveal_strlit("$");
    let body = translate_from(pattern, 0);
    assert(regex_source(pattern) == "^"@ + body + "$"@);
}

proof fn lemma_first_match_from<H>(routes: Seq<Route<H>>, path: Seq<char>, s: int, i: int)
    requires
        0 <= s <= i < routes.len(),
        route_matches(routes[i], path),
    ensures
        first_match_from(routes, path, s) matches Some(k) && s <= k <= i,
    decreases i - s,
{
    if !route_matches(routes[s], path) {
        lemma_first_match_from(routes, path, s + 1, i);
    }
}

/// Registration order decides: where the routes at `i` and `j`, `i` before
/// `j`, both match a path, resolution picks the route at `i` or an earlier
/// one, never the one at `j`.
pub proof fn lemma_first_registered_wins<H>(
    routes: Seq<Route<H>>,
    path: Seq<char>,
    i: int,
    j: int,
)
    requires
        0 <= i < j < routes.len(),
        route_matches(routes[i], path),
        route_matches(routes[j], path),
    ensures
        first_match(routes, path) matches Some(k) && k <= i && k != j,
{
    lemma_first_match_from(routes, path, 0, i);
}

/// Nothing resolves against an empty table.
pub proof fn lemma_empty_table_not_found<'a, H>(path: Seq<char>, r: Option<RouteResult<'a, H>>)
    requires
        resolves(Seq::<Route<H>>::empty(), path, r),
    ensures
        r is None,
{
}

/// Resolution is a function of the table and the path: two resolutions of
/// one path against one table give the same route, index and bindings.
pub proof fn lemma_resolution_idempotent<'a, 'b, H>(
    routes: Seq<Route<H>>,
    path: Seq<char>,
    r1: Option<RouteResult<'a, H>>,
    r2: Option<RouteResult<'b, H>>,
)
    requires
        resolves(routes, path, r1),
        resolves(routes, path, r2),
    ensures
        r1 is Some <==> r2 is Some,
        r1 is Some ==> r1->Some_0.index == r2->Some_0.index && *r1->Some_0.route
            == *r2->Some_0.route && r1->Some_0.params@ == r2->Some_0.params@,
{
}

} // verus!
