//! A small todo-list store: records with ids and creation instants, an ordered
//! collection with add / list / complete / delete, and the structured document
//! that the collection is persisted as.
use vstd::prelude::*;

pub mod document;
pub mod store;
pub mod timestamp;
pub mod todo;

pub use document::{FileContents, Json, ParseFailure};
pub use store::{NotFound, TodoList};
pub use timestamp::Timestamp;
pub use todo::Todo;

verus! {

} // verus!
