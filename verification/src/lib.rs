//! Rewrites the quoted include directives of a source text: each referenced
//! path is resolved against a list of search directories and the resolved
//! path is renamed by the first mapping rule whose source prefix it has.

pub mod text;
pub mod directive;
pub mod transformer;
pub mod laws;
