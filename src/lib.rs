//! The core of a small language server: a store of open documents, a line-based
//! analyzer that recognizes `fn` declarations, hover and completion answered
//! against a document's current version, and debounced diagnostics publication.
//! The protocol transport itself is left to the caller.
use vstd::prelude::*;

pub mod analyzer;
pub mod capabilities;
pub mod dispatcher;
pub mod publisher;
pub mod session;
pub mod store;

verus! {

} // verus!
