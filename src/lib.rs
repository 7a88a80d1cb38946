//! Path routing: declarative path patterns with `:name` variables, compiled
//! to regular expressions and resolved in registration order.

pub mod compile;
pub mod laws;
pub mod matcher;
pub mod params;
pub mod pattern;
pub mod table;
pub mod variables;

pub use compile::{CompileError, PathUtils};
pub use matcher::CompiledPattern;
pub use variables::VariableMap;
pub use params::{bind_params, Params};
pub use table::{Route, RouteResult, Router};
