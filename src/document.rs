//! The persisted form of a store: a structured document (a JSON value) whose
//! top-level object holds the key `todos`, an array of record objects with the
//! keys `id`, `title`, `description`, `completed` and `created_at`.
use vstd::prelude::*;
use crate::store::TodoList;
use crate::timestamp::{
    format_timestamp, parse_timestamp, rfc3339_reading, rfc3339_text, reading_as_timestamp,
    Timestamp,
};
use crate::todo::{opt_view, Todo, TodoView};

verus! {

/// A structured value. Numbers are kept as their text; object members keep
/// their order.
#[derive(Debug)]
pub enum Json {
    Null,
    Bool(bool),
    Number(String),
    Str(String),
    Array(Vec<Json>),
    Object(Vec<(String, Json)>),
}

/// The content of a file that is to hold a store, as read from disk.
#[derive(Debug)]
pub enum FileContents {
    /// There is no file.
    Absent,
    /// The file is there but does not hold a structured value.
    Malformed,
    /// The file holds this structured value.
    Parsed(Json),
}

/// The stored document is not a store.
#[derive(Clone, Copy, Debug, PartialEq, Eq, Structural)]
pub struct ParseFailure;

/// The value of the first member of an object named `key`.
pub open spec fn member(fields: Seq<(String, Json)>, key: Seq<char>) -> Option<Json>
    decreases fields.len(),
{
    if fields.len() == 0 {
        None
    } else if fields[0].0@ == key {
        Some(fields[0].1)
    } else {
        member(fields.drop_first(), key)
    }
}

/// The text of a string value.
pub open spec fn text_of(j: Option<Json>) -> Option<Seq<char>> {
    match j {
        Some(Json::Str(s)) => Some(s@),
        _ => None,
    }
}

/// A description as stored: absent or `null` for none, or a string.
pub open spec fn description_of(j: Option<Json>) -> Option<Option<Seq<char>>> {
    match j {
        None => Some(None),
        Some(Json::Null) => Some(None),
        Some(Json::Str(s)) => Some(Some(s@)),
        _ => None,
    }
}

/// A completion flag as stored.
pub open spec fn flag_of(j: Option<Json>) -> Option<bool> {
    match j {
        Some(Json::Bool(b)) => Some(b),
        _ => None,
    }
}

/// A creation instant as stored: RFC 3339 text naming a well-formed instant.
pub open spec fn instant_of(j: Option<Json>) -> Option<Timestamp> {
    match text_of(j) {
        Some(s) => reading_as_timestamp(rfc3339_reading(s)),
        None => None,
    }
}

/// The record that a stored record object denotes, if it is one.
pub open spec fn record_of(j: Json) -> Option<TodoView> {
    match j {
        Json::Object(fields) => {
            let f = fields@;
            if text_of(member(f, "id"@)) is Some && text_of(member(f, "title"@)) is Some
                && description_of(member(f, "description"@)) is Some && flag_of(
                member(f, "completed"@),
            ) is Some && instant_of(member(f, "created_at"@)) is Some {
                Some(
                    TodoView {
                        id: text_of(member(f, "id"@)).unwrap(),
                        title: text_of(member(f, "title"@)).unwrap(),
                        description: description_of(member(f, "description"@)).unwrap(),
                        completed: flag_of(member(f, "completed"@)).unwrap(),
                        created_at: instant_of(member(f, "created_at"@)).unwrap(),
                    },
                )
            } else {
                None
            }
        },
        _ => None,
    }
}

/// The records that a stored array denotes, if every item is a record object.
pub open spec fn records_in(items: Seq<Json>) -> Option<Seq<TodoView>> {
    if forall|i: int| 0 <= i < items.len() ==> (#[trigger] record_of(items[i])) is Some {
        Some(Seq::new(items.len(), |i: int| record_of(items[i]).unwrap()))
    } else {
        None
    }
}

/// The records that a stored document denotes, if it is a store: an object
/// whose `todos` member is an array of record objects. Other members are
/// ignored.
pub open spec fn records_of(j: Json) -> Option<Seq<TodoView>> {
    match j {
        Json::Object(fields) => match member(fields@, "todos"@) {
            Some(Json::Array(items)) => records_in(items@),
            _ => None,
        },
        _ => None,
    }
}

/// `j` is the string `s`.
pub open spec fn is_text(j: Json, s: Seq<char>) -> bool {
    match j {
        Json::Str(x) => x@ == s,
        _ => false,
    }
}

/// `j` is the RFC 3339 text of `t`, which reads back as `t` where the year
/// has four digits.
pub open spec fn is_instant_text(j: Json, t: Timestamp) -> bool {
    &&& is_text(j, rfc3339_text(t.secs as int, t.nanos as int))
    &&& t.in_rfc3339_years() ==> instant_of(Some(j)) == Some(t)
}

/// `j` is the record object written for `t`: its five members in the order
/// `id`, `title`, `description` (`null` for none), `completed`, `created_at`.
pub open spec fn is_record_object(j: Json, t: TodoView) -> bool {
    match j {
        Json::Object(fields) => {
            let f = fields@;
            &&& f.len() == 5
            &&& f[0].0@ == "id"@ && is_text(f[0].1, t.id)
            &&& f[1].0@ == "title"@ && is_text(f[1].1, t.title)
            &&& f[2].0@ == "description"@ && match t.description {
                Some(d) => is_text(f[2].1, d),
                None => f[2].1 is Null,
            }
            &&& f[3].0@ == "completed"@ && f[3].1 == Json::Bool(t.completed)
            &&& f[4].0@ == "created_at"@ && is_instant_text(f[4].1, t.created_at)
        },
        _ => false,
    }
}

/// `j` is the document written for the records `s`: an object with the one
/// member `todos`, an array holding the record object of each record in order.
pub open spec fn is_document_of(j: Json, s: Seq<TodoView>) -> bool {
    match j {
        Json::Object(fields) => {
            &&& fields@.len() == 1
            &&& fields@[0].0@ == "todos"@
            &&& match fields@[0].1 {
                Json::Array(items) => {
                    &&& items@.len() == s.len()
                    &&& forall|i: int| 0 <= i < s.len() ==> is_record_object(#[trigger] items@[i], s[i])
                },
                _ => false,
            }
        },
        _ => false,
    }
}

/// The value of the first member of `fields` named `key`.
pub fn find_member<'a>(fields: &'a Vec<(String, Json)>, key: &str) -> (r: Option<&'a Json>)
    ensures
        match r {
            Some(v) => member(fields@, key@) == Some(*v),
            None => member(fields@, key@) is None,
        },
{
    let k = key.to_owned();
    let mut i: usize = 0;
    assert(fields@.skip(0) =~= fields@);
    while i < fields.len()
        invariant
            i <= fields@.len(),
            k@ == key@,
            member(fields@, key@) == member(fields@.skip(i as int), key@),
        decreases fields@.len() - i,
    {
        assert(fields@.skip(i as int)[0] == fields@[i as int]);
        if fields[i].0 == k {
            return Some(&fields[i].1);
        }
        assert(fields@.skip(i as int).drop_first() =~= fields@.skip(i + 1));
        i = i + 1;
    }
    None
}

/// The text of the member `key`, if it is a string.
fn text_member(fields: &Vec<(String, Json)>, key: &str) -> (r: Option<String>)
    ensures
        opt_view(r) == text_of(member(fields@, key@)),
{
    match find_member(fields, key) {
        Some(Json::Str(s)) => Some(s.clone()),
        _ => None,
    }
}

/// The description member: absent or `null` for none, or a string.
fn description_member(fields: &Vec<(String, Json)>) -> (r: Result<Option<String>, ParseFailure>)
    ensures
        match r {
            Ok(d) => description_of(member(fields@, "description"@)) == Some(opt_view(d)),
            Err(_) => description_of(member(fields@, "description"@)) is None,
        },
{
    match find_member(fields, "description") {
        None => Ok(None),
        Some(Json::Null) => Ok(None),
        Some(Json::Str(s)) => Ok(Some(s.clone())),
        _ => Err(ParseFailure),
    }
}

/// The completion flag member, if it is a boolean.
fn flag_member(fields: &Vec<(String, Json)>) -> (r: Option<bool>)
    ensures
        r == flag_of(member(fields@, "completed"@)),
{
    match find_member(fields, "completed") {
        Some(Json::Bool(b)) => Some(*b),
        _ => None,
    }
}

/// The creation instant member, if it is RFC 3339 text of a well-formed instant.
fn instant_member(fields: &Vec<(String, Json)>) -> (r: Option<Timestamp>)
    ensures
        r == instant_of(member(fields@, "created_at"@)),
{
    match find_member(fields, "created_at") {
        Some(Json::Str(s)) => parse_timestamp(s.as_str()),
        _ => None,
    }
}

/// Reads one stored record object.
pub fn record_from_json(j: &Json) -> (r: Result<Todo, ParseFailure>)
    ensures
        match r {
            Ok(t) => record_of(*j) == Some(t@) && t.wf(),
            Err(_) => record_of(*j) is None,
        },
{
    let fields = match j {
        Json::Object(f) => f,
        _ => {
            return Err(ParseFailure);
        },
    };
    let id = match text_member(fields, "id") {
        Some(s) => s,
        None => {
            return Err(ParseFailure);
        },
    };
    let title = match text_member(fields, "title") {
        Some(s) => s,
        None => {
            return Err(ParseFailure);
        },
    };
    let description = match description_member(fields) {
        Ok(d) => d,
        Err(e) => {
            return Err(e);
        },
    };
    let completed = match flag_member(fields) {
        Some(b) => b,
        None => {
            return Err(ParseFailure);
        },
    };
    let created_at = match instant_member(fields) {
        Some(t) => t,
        None => {
            return Err(ParseFailure);
        },
    };
    Ok(Todo { id, title, description, completed, created_at })
}

/// Writes one record as its record object.
pub fn record_to_json(t: &Todo) -> (r: Json)
    requires
        t.wf(),
    ensures
        is_record_object(r, t@),
{
    let mut fields: Vec<(String, Json)> = Vec::new();
    fields.push((String::from_str("id"), Json::Str(t.id.clone())));
    fields.push((String::from_str("title"), Json::Str(t.title.clone())));
    let description = match &t.description {
        Some(d) => Json::Str(d.clone()),
        None => Json::Null,
    };
    fields.push((String::from_str("description"), description));
    fields.push((String::from_str("completed"), Json::Bool(t.completed)));
    let created_at = format_timestamp(t.created_at);
    fields.push((String::from_str("created_at"), Json::Str(created_at)));
    Json::Object(fields)
}

impl TodoList {
    /// The document that persists the store.
    pub fn to_document(&self) -> (r: Json)
        requires
            self.wf(),
        ensures
            is_document_of(r, self@),
    {
        let todos = self.list_todos();
        let mut items: Vec<Json> = Vec::new();
        let mut i: usize = 0;
        while i < todos.len()
            invariant
                i <= todos@.len(),
                todos@.map_values(|t: Todo| t@) == self@,
                forall|k: int| 0 <= k < todos@.len() ==> (#[trigger] todos@[k]).wf(),
                items@.len() == i,
                forall|k: int| 0 <= k < i ==> is_record_object(#[trigger] items@[k], self@[k]),
            decreases todos@.len() - i,
        {
            assert(self@[i as int] == todos@[i as int]@);
            items.push(record_to_json(&todos[i]));
            i = i + 1;
        }
        let mut fields: Vec<(String, Json)> = Vec::new();
        fields.push((String::from_str("todos"), Json::Array(items)));
        Json::Object(fields)
    }

    /// The store that a document persists; `ParseFailure` where the document
    /// is not a store.
    pub fn from_document(j: &Json) -> (r: Result<TodoList, ParseFailure>)
        ensures
            match r {
                Ok(l) => records_of(*j) == Some(l@) && l.wf(),
                Err(_) => records_of(*j) is None,
            },
    {
        let fields = match j {
            Json::Object(f) => f,
            _ => {
                return Err(ParseFailure);
            },
        };
        let items = match find_member(fields, "todos") {
            Some(Json::Array(a)) => a,
            _ => {
                return Err(ParseFailure);
            },
        };
        let mut todos: Vec<Todo> = Vec::new();
        let mut i: usize = 0;
        while i < items.len()
            invariant
                i <= items@.len(),
                *j == Json::Object(*fields),
                member(fields@, "todos"@) == Some(Json::Array(*items)),
                forall|k: int| 0 <= k < i ==> (#[trigger] record_of(items@[k])) is Some,
                todos@.len() == i,
                forall|k: int| 0 <= k < i ==> Some((#[trigger] todos@[k])@) == record_of(items@[k]),
                forall|k: int| 0 <= k < i ==> (#[trigger] todos@[k]).wf(),
            decreases items@.len() - i,
        {
            match record_from_json(&items[i]) {
                Ok(t) => {
                    todos.push(t);
                },
                Err(e) => {
                    assert(record_of(items@[i as int]) is None);
                    assert(records_in(items@) is None);
                    return Err(e);
                },
            }
            i = i + 1;
        }
        let r = TodoList::from_todos(todos);
        assert(r@ =~= Seq::new(items@.len(), |k: int| record_of(items@[k]).unwrap()));
        Ok(r)
    }

    /// The store that a file holds: empty where there is no file, and
    /// `ParseFailure` where its content is not a store.
    pub fn load_from_contents(contents: &FileContents) -> (r: Result<TodoList, ParseFailure>)
        ensures
            match *contents {
                FileContents::Absent => r matches Ok(l) && l@ == Seq::<TodoView>::empty() && l.wf(),
                FileContents::Malformed => r is Err,
                FileContents::Parsed(j) => match r {
                    Ok(l) => records_of(j) == Some(l@) && l.wf(),
                    Err(_) => records_of(j) is None,
                },
            },
    {
        match contents {
            FileContents::Absent => Ok(TodoList::new()),
            FileContents::Malformed => Err(ParseFailure),
            FileContents::Parsed(j) => TodoList::from_document(j),
        }
    }
}

/// The first member named `key` is the one at position `i` when no earlier
/// member has that name.
pub proof fn lemma_member_at(fields: Seq<(String, Json)>, key: Seq<char>, i: int)
    requires
        0 <= i < fields.len(),
        fields[i].0@ == key,
        forall|k: int| 0 <= k < i ==> (#[trigger] fields[k]).0@ != key,
    ensures
        member(fields, key) == Some(fields[i].1),
    decreases i,
{
    if i > 0 {
        let rest = fields.drop_first();
        assert forall|k: int| 0 <= k < i - 1 implies (#[trigger] rest[k]).0@ != key by {
            assert(rest[k] == fields[k + 1]);
        }
        assert(fields[0].0@ != key);
        lemma_member_at(rest, key, i - 1);
    }
}

/// The record object written for a record reads back as that record, where
/// its creation year has four digits.
pub proof fn lemma_record_round_trip(j: Json, t: TodoView)
    requires
        is_record_object(j, t),
        t.created_at.in_rfc3339_years(),
    ensures
        record_of(j) == Some(t),
{
    reveal_strlit("id");
    reveal_strlit("title");
    reveal_strlit("description");
    reveal_strlit("completed");
    reveal_strlit("created_at");
    if let Json::Object(fields) = j {
        let f = fields@;
        assert("id"@.len() == 2 && "title"@.len() == 5 && "description"@.len() == 11);
        assert("completed"@.len() == 9 && "created_at"@.len() == 10);
        lemma_member_at(f, "id"@, 0);
        lemma_member_at(f, "title"@, 1);
        lemma_member_at(f, "description"@, 2);
        lemma_member_at(f, "completed"@, 3);
        lemma_member_at(f, "created_at"@, 4);
    }
}

/// Writing a store and reading the document back gives the same records
/// (ids, titles, descriptions, completion flags and creation instants) in the
/// same order, the empty store included, where every creation year has four
/// digits.
pub proof fn lemma_document_round_trip(j: Json, s: Seq<TodoView>)
    requires
        is_document_of(j, s),
        forall|i: int| 0 <= i < s.len() ==> (#[trigger] s[i]).created_at.in_rfc3339_years(),
    ensures
        records_of(j) == Some(s),
{
    if let Json::Object(fields) = j {
        lemma_member_at(fields@, "todos"@, 0);
        if let Json::Array(items) = fields@[0].1 {
            assert forall|i: int| 0 <= i < items@.len() implies (#[trigger] record_of(items@[i]))
                == Some(s[i]) by {
                lemma_record_round_trip(items@[i], s[i]);
            }
            assert(Seq::new(items@.len(), |i: int| record_of(items@[i]).unwrap()) =~= s);
        }
    }
}

/// A document in which some record object lacks one of the keys `id`,
/// `title`, `completed` or `created_at` is not a store.
pub proof fn lemma_missing_key_refused(j: Json, i: int)
    requires
        match j {
            Json::Object(fields) => match member(fields@, "todos"@) {
                Some(Json::Array(items)) => 0 <= i < items@.len() && match items@[i] {
                    Json::Object(f) => {
                        ||| member(f@, "id"@) is None
                        ||| member(f@, "title"@) is None
                        ||| member(f@, "completed"@) is None
                        ||| member(f@, "created_at"@) is None
                    },
                    _ => false,
                },
                _ => false,
            },
            _ => false,
        },
    ensures
        records_of(j) is None,
{
    if let Json::Object(fields) = j {
        if let Some(Json::Array(items)) = member(fields@, "todos"@) {
            assert(record_of(items@[i]) is None);
        }
    }
}

} // verus!
