//! Turning a declarative pattern into a matcher and a variable index.

use vstd::prelude::*;
use crate::matcher::{regex_accepts, CompiledPattern};
use crate::pattern::{build_regex_source, regex_source, scan_variable_names, variable_names};
use crate::variables::{variable_positions, VariableMap};

verus! {

/// A pattern whose regular expression the `regex` crate rejected.
#[derive(Clone, Debug, PartialEq, Eq)]
pub struct CompileError {
    /// The pattern that failed.
    pub pattern: String,
}

/// Helpers that operate on a pattern.
pub struct PathUtils;

impl PathUtils {
    /// Compiles `route_path` into a matcher anchored at both ends, in which
    /// each variable token stands for a non-empty run of name characters.
    pub fn create_regex(route_path: &str) -> (r: Result<CompiledPattern, CompileError>)
        ensures
            r is Ok <==> regex_accepts(regex_source(route_path@)),
            r matches Ok(m) ==> m.text() == regex_source(route_path@),
            r matches Err(e) ==> e.pattern@ == route_path@,
    {
        let src = build_regex_source(route_path);
        match CompiledPattern::compile(src) {
            Some(m) => Ok(m),
            None => Err(CompileError { pattern: route_path.to_owned() }),
        }
    }

    /// The index of the variables of `route_path`: each distinct name with the
    /// ordinal, among all tokens, of its last occurrence.
    pub fn get_variable_info(route_path: &str) -> (r: VariableMap)
        ensures
            r@ == variable_positions(variable_names(route_path@)),
    {
        let names = scan_variable_names(route_path);
        let ghost all = names.deep_view();
        let mut m = VariableMap::new();
        let mut i: usize = 0;
        while i < names.len()
            invariant
                i <= names@.len(),
                all == names.deep_view(),
                all.len() == names@.len(),
                m@ == variable_positions(all.take(i as int)),
            decreases names@.len() - i,
        {
            proof {
                assert(all.take(i + 1).drop_last() =~= all.take(i as int));
                assert(all[i as int] == names@[i as int]@);
            }
            m.assign(names[i].clone(), i);
            i += 1;
        }
        assert(all.take(i as int) =~= all);
        m
    }
}

} // verus!
