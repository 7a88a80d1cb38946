//! The pattern language: literal text with `:name` variable tokens.

use vstd::prelude::*;

verus! {

/// Characters that make up a variable name: ASCII letters, digits, `_` and `-`.
pub open spec fn is_name_char(c: char) -> bool {
    ('a' <= c && c <= 'z') || ('A' <= c && c <= 'Z') || ('0' <= c && c <= '9') || c == '_' || c
        == '-'
}

/// The index just past the run of name characters that starts at `j`.
pub open spec fn name_end(p: Seq<char>, j: int) -> int
    decreases p.len() - j,
{
    if 0 <= j < p.len() && is_name_char(p[j]) {
        name_end(p, j + 1)
    } else {
        j
    }
}

/// A variable token starts at `i`: a `:` followed by at least one name character.
pub open spec fn token_at(p: Seq<char>, i: int) -> bool {
    0 <= i && i + 1 < p.len() && p[i] == ':' && is_name_char(p[i + 1])
}

pub proof fn lemma_name_end(p: Seq<char>, j: int)
    requires
        0 <= j <= p.len(),
    ensures
        j <= name_end(p, j) <= p.len(),
        forall|t: int| j <= t < name_end(p, j) ==> is_name_char(#[trigger] p[t]),
        name_end(p, j) == p.len() || !is_name_char(p[name_end(p, j)]),
    decreases p.len() - j,
{
    if j < p.len() && is_name_char(p[j]) {
        lemma_name_end(p, j + 1);
    }
}

/// The names of the variable tokens found from position `i` on, left to right.
pub open spec fn names_from(p: Seq<char>, i: int) -> Seq<Seq<char>>
    decreases p.len() - i,
{
    if i < 0 || i >= p.len() {
        Seq::empty()
    } else if token_at(p, i) {
        proof {
            lemma_name_end(p, i + 1);
        }
        seq![p.subrange(i + 1, name_end(p, i + 1))] + names_from(p, name_end(p, i + 1))
    } else {
        names_from(p, i + 1)
    }
}

/// The names of all variable tokens of a pattern, one per token, in order.
pub open spec fn variable_names(p: Seq<char>) -> Seq<Seq<char>> {
    names_from(p, 0)
}

/// The capture group that stands for one variable token.
pub open spec fn group_text() -> Seq<char> {
    "([a-zA-Z0-9_-]+)"@
}

/// The pattern from position `i` on, with each token replaced by a capture group.
pub open spec fn translate_from(p: Seq<char>, i: int) -> Seq<char>
    decreases p.len() - i,
{
    if i < 0 || i >= p.len() {
        Seq::empty()
    } else if token_at(p, i) {
        proof {
            lemma_name_end(p, i + 1);
        }
        group_text() + translate_from(p, name_end(p, i + 1))
    } else {
        seq![p[i]] + translate_from(p, i + 1)
    }
}

/// The regular expression text of a pattern, anchored at both ends.
pub open spec fn regex_source(p: Seq<char>) -> Seq<char> {
    "^"@ + translate_from(p, 0) + "$"@
}

pub fn is_name_char_exec(c: char) -> (r: bool)
    ensures
        r == is_name_char(c),
{
    ('a' <= c && c <= 'z') || ('A' <= c && c <= 'Z') || ('0' <= c && c <= '9') || c == '_' || c
        == '-'
}

fn chars_of(s: &str) -> (r: Vec<char>)
    ensures
        r@ == s@,
{
    let n = s.unicode_len();
    let mut v: Vec<char> = Vec::new();
    let mut i: usize = 0;
    while i < n
        invariant
            n == s@.len(),
            i <= n,
            v@ == s@.subrange(0, i as int),
        decreases n - i,
    {
        v.push(s.get_char(i));
        i += 1;
    }
    assert(v@ =~= s@);
    v
}

fn scan_name(cs: &Vec<char>, j: usize) -> (e: usize)
    requires
        j <= cs@.len(),
    ensures
        e == name_end(cs@, j as int),
{
    let mut e = j;
    while e < cs.len() && is_name_char_exec(cs[e])
        invariant
            j <= e <= cs@.len(),
            name_end(cs@, e as int) == name_end(cs@, j as int),
        decreases cs@.len() - e,
    {
        e += 1;
    }
    e
}

/// The names of the variable tokens of `p`, one per token, in order.
pub fn scan_variable_names(p: &str) -> (r: Vec<String>)
    ensures
        r.deep_view() == variable_names(p@),
{
    let cs = chars_of(p);
    let n = cs.len();
    let mut names: Vec<String> = Vec::new();
    let mut i: usize = 0;
    while i < n
        invariant
            cs@ == p@,
            n == cs@.len(),
            i <= n,
            variable_names(p@) == names.deep_view() + names_from(p@, i as int),
        decreases n - i,
    {
        if cs[i] == ':' && i + 1 < n && is_name_char_exec(cs[i + 1]) {
            proof {
                lemma_name_end(p@, i + 1);
            }
            let e = scan_name(&cs, i + 1);
            let name = p.substring_char(i + 1, e).to_owned();
            let ghost before = names.deep_view();
            names.push(name);
            proof {
                assert(names.deep_view() =~= before.push(name@));
                assert(names_from(p@, i as int) == seq![name@] + names_from(p@, e as int));
                assert(before + names_from(p@, i as int) =~= names.deep_view() + names_from(
                    p@,
                    e as int,
                ));
            }
            i = e;
        } else {
            i += 1;
        }
    }
    assert(names.deep_view() =~= variable_names(p@));
    names
}

/// The regular expression text of `p`: `^`, the pattern with each variable
/// token replaced by a capture group for a non-empty run of name characters,
/// and `$`.
pub fn build_regex_source(p: &str) -> (r: String)
    ensures
        r@ == regex_source(p@),
{
    let cs = chars_of(p);
    let n = cs.len();
    let mut body = String::new();
    let mut i: usize = 0;
    while i < n
        invariant
            cs@ == p@,
            n == cs@.len(),
            i <= n,
            translate_from(p@, 0) == body@ + translate_from(p@, i as int),
        decreases n - i,
    {
        let ghost before = body@;
        if cs[i] == ':' && i + 1 < n && is_name_char_exec(cs[i + 1]) {
            proof {
                lemma_name_end(p@, i + 1);
            }
            let e = scan_name(&cs, i + 1);
            body.append("([a-zA-Z0-9_-]+)");
            assert(before + translate_from(p@, i as int) =~= body@ + translate_from(p@, e as int));
            i = e;
        } else {
            body.append(p.substring_char(i, i + 1));
            assert(p@.subrange(i as int, i + 1) =~= seq![p@[i as int]]);
            assert(before + translate_from(p@, i as int) =~= body@ + translate_from(
                p@,
                i + 1,
            ));
            i += 1;
        }
    }
    assert(body@ =~= translate_from(p@, 0));
    let mut src = String::new();
    src.append("^");
    src.append(body.as_str());
    src.append("$");
    src
}

} // verus!
