//! A single todo record.
use vstd::prelude::*;
use crate::timestamp::{now_utc, Timestamp};

verus! {

/// Whether `c` is a lowercase hexadecimal digit.
pub open spec fn is_lower_hex(c: char) -> bool {
    ('0' <= c && c <= '9') || ('a' <= c && c <= 'f')
}

/// Whether `s` is a version-4 UUID in its canonical hyphenated lowercase form,
/// as in `67e55044-10b1-426f-9247-bb680e5fe0c8`.
pub open spec fn is_uuid_v4_text(s: Seq<char>) -> bool {
    &&& s.len() == 36
    &&& forall|i: int|
        0 <= i < 36 ==> if i == 8 || i == 13 || i == 18 || i == 23 {
            #[trigger] s[i] == '-'
        } else {
            is_lower_hex(s[i])
        }
    &&& s[14] == '4'
    &&& (s[19] == '8' || s[19] == '9' || s[19] == 'a' || s[19] == 'b')
}

/// Relies on uuid's `Uuid::new_v4`, which sets the version nibble to 4 and the
/// variant bits to `10`, and on its `Display`, which writes the hyphenated
/// lowercase form (`format_hyphenated`).
#[verifier::external_body]
fn fresh_uuid() -> (r: String)
    ensures
        is_uuid_v4_text(r@),
{
    uuid::Uuid::new_v4().to_string()
}

/// What a record holds, as mathematical values.
pub struct TodoView {
    pub id: Seq<char>,
    pub title: Seq<char>,
    pub description: Option<Seq<char>>,
    pub completed: bool,
    pub created_at: Timestamp,
}

/// The view of an optional string.
pub open spec fn opt_view(o: Option<String>) -> Option<Seq<char>> {
    match o {
        Some(s) => Some(s@),
        None => None,
    }
}

/// One task: its id, title and optional description, whether it is done, and
/// when it was created.
#[derive(Clone, Debug)]
pub struct Todo {
    pub id: String,
    pub title: String,
    pub description: Option<String>,
    pub completed: bool,
    pub created_at: Timestamp,
}

impl View for Todo {
    type V = TodoView;

    open spec fn view(&self) -> TodoView {
        TodoView {
            id: self.id@,
            title: self.title@,
            description: opt_view(self.description),
            completed: self.completed,
            created_at: self.created_at,
        }
    }
}

/// Clones an optional string, keeping its view.
pub fn clone_opt(o: &Option<String>) -> (r: Option<String>)
    ensures
        opt_view(r) == opt_view(*o),
{
    match o {
        Some(s) => Some(s.clone()),
        None => None,
    }
}

impl Todo {
    /// Well-formed: the creation instant is well formed.
    pub open spec fn wf(&self) -> bool {
        self.created_at.wf()
    }

    /// A new, not yet completed record with a fresh random id, created now.
    pub fn new(title: String, description: Option<String>) -> (r: Todo)
        ensures
            r.wf(),
            is_uuid_v4_text(r@.id),
            r@.title == title@,
            r@.description == opt_view(description),
            !r@.completed,
    {
        let id = fresh_uuid();
        let created_at = now_utc();
        Todo::from_parts(id, title, description, created_at)
    }

    /// A not yet completed record with the given id and creation instant.
    pub fn from_parts(id: String, title: String, description: Option<String>, created_at: Timestamp) -> (r: Todo)
        ensures
            r@ == (TodoView {
                id: id@,
                title: title@,
                description: opt_view(description),
                completed: false,
                created_at,
            }),
    {
        Todo { id, title, description, completed: false, created_at }
    }

    /// Marks the record as done; nothing else changes.
    pub fn mark_completed(&mut self)
        ensures
            final(self)@ == (TodoView { completed: true, ..old(self)@ }),
    {
        self.completed = true;
    }

    /// A copy of the record.
    pub fn duplicate(&self) -> (r: Todo)
        ensures
            r@ == self@,
    {
        Todo {
            id: self.id.clone(),
            title: self.title.clone(),
            description: clone_opt(&self.description),
            completed: self.completed,
            created_at: self.created_at,
        }
    }
}

} // verus!
