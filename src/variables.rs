//! Ordered maps keyed by variable name, and the name-to-position index of a
//! pattern.

use vstd::prelude::*;

verus! {

/// The first index at or after `i` whose key is `k`.
pub open spec fn key_pos_from<V>(m: Seq<(Seq<char>, V)>, k: Seq<char>, i: int) -> Option<nat>
    decreases m.len() - i,
{
    if i < 0 || i >= m.len() {
        None
    } else if m[i].0 == k {
        Some(i as nat)
    } else {
        key_pos_from(m, k, i + 1)
    }
}

/// The first index whose key is `k`.
pub open spec fn key_pos<V>(m: Seq<(Seq<char>, V)>, k: Seq<char>) -> Option<nat> {
    key_pos_from(m, k, 0)
}

/// The value stored under `k`, if any.
pub open spec fn lookup<V>(m: Seq<(Seq<char>, V)>, k: Seq<char>) -> Option<V> {
    match key_pos(m, k) {
        Some(j) => Some(m[j as int].1),
        None => None,
    }
}

pub open spec fn has_key<V>(m: Seq<(Seq<char>, V)>, k: Seq<char>) -> bool {
    exists|j: int| 0 <= j < m.len() && m[j].0 == k
}

/// No key occurs twice.
pub open spec fn keys_unique<V>(m: Seq<(Seq<char>, V)>) -> bool {
    forall|a: int, b: int| 0 <= a < b < m.len() ==> m[a].0 != m[b].0
}

/// The keys in order.
pub open spec fn keys_of<V>(m: Seq<(Seq<char>, V)>) -> Seq<Seq<char>> {
    m.map_values(|e: (Seq<char>, V)| e.0)
}

/// Stores `v` under `k`: the existing entry is overwritten in place, or a new
/// entry is appended.
pub open spec fn assign(m: Seq<(Seq<char>, nat)>, k: Seq<char>, v: nat) -> Seq<(Seq<char>, nat)> {
    match key_pos(m, k) {
        Some(j) => m.update(j as int, (k, v)),
        None => m.push((k, v)),
    }
}

/// The index of a sequence of variable names: each name gets the position of
/// its last occurrence, and names keep the order of their first occurrence.
pub open spec fn variable_positions(names: Seq<Seq<char>>) -> Seq<(Seq<char>, nat)>
    decreases names.len(),
{
    if names.len() == 0 {
        Seq::empty()
    } else {
        assign(variable_positions(names.drop_last()), names.last(), (names.len() - 1) as nat)
    }
}

pub proof fn lemma_key_pos_from<V>(m: Seq<(Seq<char>, V)>, k: Seq<char>, i: int)
    requires
        0 <= i <= m.len(),
    ensures
        key_pos_from(m, k, i) matches Some(j) ==> i <= j < m.len() && m[j as int].0 == k && (
        forall|t: int| i <= t < j ==> m[t].0 != k),
        key_pos_from(m, k, i) is None ==> forall|t: int| i <= t < m.len() ==> m[t].0 != k,
    decreases m.len() - i,
{
    if i < m.len() {
        lemma_key_pos_from(m, k, i + 1);
    }
}

pub proof fn lemma_key_pos<V>(m: Seq<(Seq<char>, V)>, k: Seq<char>)
    ensures
        key_pos(m, k) matches Some(j) ==> j < m.len() && m[j as int].0 == k && (forall|t: int|
            0 <= t < j ==> m[t].0 != k),
        key_pos(m, k) is None <==> !has_key(m, k),
{
    lemma_key_pos_from(m, k, 0);
}

/// An ordered map from variable name to a capture position.
#[derive(Clone, Debug, PartialEq, Eq)]
pub struct VariableMap {
    entries: Vec<(String, usize)>,
}

impl View for VariableMap {
    type V = Seq<(Seq<char>, nat)>;

    closed spec fn view(&self) -> Seq<(Seq<char>, nat)> {
        self.entries@.map_values(|e: (String, usize)| (e.0@, e.1 as nat))
    }
}

impl VariableMap {
    pub fn new() -> (r: VariableMap)
        ensures
            r@ == Seq::<(Seq<char>, nat)>::empty(),
    {
        let r = VariableMap { entries: Vec::new() };
        assert(r@ =~= Seq::<(Seq<char>, nat)>::empty());
        r
    }

    /// The number of names.
    pub fn len(&self) -> (r: usize)
        ensures
            r == self@.len(),
    {
        self.entries.len()
    }

    /// The position stored under `name`.
    pub fn get(&self, name: &str) -> (r: Option<usize>)
        ensures
            r matches Some(v) ==> lookup(self@, name@) == Some(v as nat),
            r is None ==> lookup(self@, name@) is None,
    {
        let key = name.to_owned();
        let mut j: usize = 0;
        while j < self.entries.len()
            invariant
                j <= self@.len(),
                self@.len() == self.entries@.len(),
                key@ == name@,
                key_pos(self@, name@) == key_pos_from(self@, name@, j as int),
            decreases self.entries@.len() - j,
        {
            assert(self@[j as int] == (self.entries@[j as int].0@, self.entries@[j as int].1 as nat));
            if self.entries[j].0 == key {
                return Some(self.entries[j].1);
            }
            j += 1;
        }
        None
    }

    /// The entry at `i`, in the order of first occurrence.
    pub fn entry(&self, i: usize) -> (r: (&str, usize))
        requires
            i < self@.len(),
        ensures
            r.0@ == self@[i as int].0,
            r.1 as nat == self@[i as int].1,
    {
        (self.entries[i].0.as_str(), self.entries[i].1)
    }

    /// Stores `v` under `k`, in place of an existing entry for `k` or at the end.
    pub fn assign(&mut self, k: String, v: usize)
        ensures
            final(self)@ == assign(old(self)@, k@, v as nat),
    {
        let mut j: usize = 0;
        while j < self.entries.len()
            invariant
                j <= self@.len(),
                self@.len() == self.entries@.len(),
                self == old(self),
                key_pos(self@, k@) == key_pos_from(self@, k@, j as int),
            decreases self.entries@.len() - j,
        {
            assert(self@[j as int] == (self.entries@[j as int].0@, self.entries@[j as int].1 as nat));
            if self.entries[j].0 == k {
                self.entries[j] = (k, v);
                assert(self@ =~= assign(old(self)@, k@, v as nat));
                return;
            }
            j += 1;
        }
        self.entries.push((k, v));
        assert(self@ =~= assign(old(self)@, k@, v as nat));
    }
}

} // verus!
