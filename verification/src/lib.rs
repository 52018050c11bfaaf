//! Parser, renderer and query/mutation engine for the DataWindow export
//! syntax: nested `kind(key=value ...)` clauses with tilde-escaped strings,
//! a dotted-path `describe`/`modify` selector language, and a canonical
//! CRLF renderer that inverts the grammar's escaping rules.

pub mod ast;
pub mod grammar;
pub mod key;
pub mod laws;
pub mod model;
pub mod parser;
pub mod render;
pub mod selector;
pub mod text;
pub mod value;

pub use crate::ast::{DWSyntax, Item, ItemTable, ItemTableColumn};
pub use crate::key::{IntoKey, Key};
pub use crate::parser::ParseError;
pub use crate::value::{PropMap, Value};

use vstd::prelude::*;

verus! {

/// Parse a document; a failure is rendered as a line/column message.
pub fn parse(input: &str) -> (r: Result<DWSyntax, String>)
    ensures
        match r {
            Ok(d) => crate::grammar::spec_document(input@) == Some(d.model()) && d.wf(),
            Err(_) => crate::grammar::spec_document(input@) is None,
        },
{
    DWSyntax::parse(input)
}

} // verus!
