//! Re-formats tree-sitter style test fixture files: each fixture pairs a named input snippet
//! with the expected parse tree as an S-expression. Name delimiters are resized, inputs are
//! trimmed and trees are re-indented.
use vstd::prelude::*;

pub mod fixture;
pub mod s_exp_formatter;
pub mod text;

pub use fixture::{format_fixture_file, parse_fixtures, Fixture, TestFile};
pub use s_exp_formatter::format_s_expr;

verus! {

} // verus!
