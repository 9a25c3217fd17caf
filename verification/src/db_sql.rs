//! SQL front end: parsed statements, their translation into unresolved plans,
//! and binding of those plans against the catalog.
pub mod bind;
pub mod parse;
pub mod syntax;

pub use bind::{bind, try_bind, BindError};
pub use parse::ParsedStatement;
pub mod translate;
