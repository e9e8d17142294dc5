//! Model and text emitter for a generator of markup-element declarations.
//!
//! The library turns scraped reference pages (handed in as plain values) into
//! a model of elements and their attributes, and renders that model as source
//! declarations: one record per element and a tagged union over all of them.
use vstd::prelude::*;

pub mod text;
pub mod naming;
pub mod attrs;
pub mod doc;
pub mod extract;
pub mod emit;
pub mod model;

verus! {

} // verus!
