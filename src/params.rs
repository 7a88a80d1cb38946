//! The values bound to a route's variables by a concrete path.

use vstd::prelude::*;
use crate::variables::{key_pos_from, lookup, VariableMap};

verus! {

/// Group `i` of a match, or the empty text where that group is absent.
pub open spec fn group_or_empty(groups: Seq<Option<Seq<char>>>, i: int) -> Seq<char> {
    if 0 <= i < groups.len() && groups[i] is Some {
        groups[i]->Some_0
    } else {
        Seq::empty()
    }
}

/// Binds each variable to the group just after its position (group 0 being
/// the whole match); no bindings where there are no groups at all.
pub open spec fn bind_groups(
    variables: Seq<(Seq<char>, nat)>,
    groups: Option<Seq<Option<Seq<char>>>>,
) -> Seq<(Seq<char>, Seq<char>)> {
    match groups {
        None => Seq::empty(),
        Some(g) => variables.map_values(
            |e: (Seq<char>, nat)| (e.0, group_or_empty(g, e.1 as int + 1)),
        ),
    }
}

/// An ordered map from variable name to the text it matched.
#[derive(Clone, Debug, PartialEq, Eq)]
pub struct Params {
    entries: Vec<(String, String)>,
}

impl View for Params {
    type V = Seq<(Seq<char>, Seq<char>)>;

    closed spec fn view(&self) -> Seq<(Seq<char>, Seq<char>)> {
        self.entries@.map_values(|e: (String, String)| (e.0@, e.1@))
    }
}

impl Params {
    /// The number of bound variables.
    pub fn len(&self) -> (r: usize)
        ensures
            r == self@.len(),
    {
        self.entries.len()
    }

    pub fn is_empty(&self) -> (r: bool)
        ensures
            r == (self@.len() == 0),
    {
        self.entries.len() == 0
    }

    /// The text bound to `name`.
    pub fn get(&self, name: &str) -> (r: Option<&String>)
        ensures
            r matches Some(v) ==> lookup(self@, name@) == Some(v@),
            r is None ==> lookup(self@, name@) is None,
    {
        let key = name.to_owned();
        let mut j: usize = 0;
        while j < self.entries.len()
            invariant
                j <= self@.len(),
                self@.len() == self.entries@.len(),
                key@ == name@,
                lookup(self@, name@) == match key_pos_from(
                    self@,
                    name@,
                    j as int,
                ) {
                    Some(t) => Some(self@[t as int].1),
                    None => None,
                },
            decreases self.entries@.len() - j,
        {
            assert(self@[j as int] == (self.entries@[j as int].0@, self.entries@[j as int].1@));
            if self.entries[j].0 == key {
                return Some(&self.entries[j].1);
            }
            j += 1;
        }
        None
    }
}

/// Binds the variables of a route to the groups of a match: the variable at
/// position `i` takes group `i + 1`, or the empty text where that group is
/// absent. Where there is no match at all, nothing is bound.
pub fn bind_params(variables: &VariableMap, groups: &Option<Vec<Option<String>>>) -> (r: Params)
    ensures
        r@ == bind_groups(variables@, groups.deep_view()),
{
    let mut p = Params { entries: Vec::new() };
    match groups {
        None => {
            assert(p@ =~= bind_groups(variables@, groups.deep_view()));
            p
        },
        Some(g) => {
            let ghost gv = g.deep_view();
            let ghost want = bind_groups(variables@, groups.deep_view());
            let n = variables.len();
            let mut i: usize = 0;
            while i < n
                invariant
                    n == variables@.len(),
                    i <= n,
                    gv == g.deep_view(),
                    want == variables@.map_values(
                        |e: (Seq<char>, nat)| (e.0, group_or_empty(gv, e.1 as int + 1)),
                    ),
                    p@ == want.take(i as int),
                decreases n - i,
            {
                let (name, pos) = variables.entry(i);
                let value = if g.len() > 0 && pos < g.len() - 1 {
                    match &g[pos + 1] {
                        Some(s) => s.clone(),
                        None => String::new(),
                    }
                } else {
                    String::new()
                };
                assert(value@ == group_or_empty(gv, pos as int + 1));
                let ghost before = p@;
                p.entries.push((name.to_owned(), value));
                assert(p@ =~= before.push((name@, value@)));
                assert(want.take(i + 1) =~= want.take(i as int).push(want[i as int]));
                i += 1;
            }
            assert(want.take(n as int) =~= want);
            p
        },
    }
}

} // verus!
