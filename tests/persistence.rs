use rusttodo::document::{find_member, record_from_json, record_to_json};
use rusttodo::timestamp::{format_timestamp, parse_timestamp};
use rusttodo::{FileContents, Json, ParseFailure, Timestamp, Todo, TodoList};

fn s(x: &str) -> String {
    x.to_string()
}

fn record_json(id: Option<&str>, title: &str, desc: Option<Json>, completed: Json, created: &str) -> Json {
    let mut f = Vec::new();
    if let Some(i) = id {
        f.push((s("id"), Json::Str(s(i))));
    }
    f.push((s("title"), Json::Str(s(title))));
    if let Some(d) = desc {
        f.push((s("description"), d));
    }
    f.push((s("completed"), completed));
    f.push((s("created_at"), Json::Str(s(created))));
    Json::Object(f)
}

fn doc(items: Vec<Json>) -> Json {
    Json::Object(vec![(s("todos"), Json::Array(items))])
}

fn records(list: &TodoList) -> Vec<(String, String, Option<String>, bool, Timestamp)> {
    list.list_todos()
        .iter()
        .map(|t| (t.id.clone(), t.title.clone(), t.description.clone(), t.completed, t.created_at))
        .collect()
}

#[test]
fn absent_file_gives_empty_store() {
    let list = TodoList::load_from_contents(&FileContents::Absent).unwrap();
    assert!(list.list_todos().is_empty());
}

#[test]
fn malformed_file_is_parse_failure() {
    assert_eq!(TodoList::load_from_contents(&FileContents::Malformed).err(), Some(ParseFailure));
}

#[test]
fn round_trip_keeps_records() {
    let mut list = TodoList::new();
    let a = list.add_todo(s("Buy milk"), None).id;
    list.add_todo(s("Call"), Some(s("mum")));
    list.add_todo(s(""), Some(s("")));
    list.complete_todo(&a).unwrap();
    let d = list.to_document();
    let back = TodoList::load_from_contents(&FileContents::Parsed(d)).unwrap();
    assert_eq!(records(&back), records(&list));
}

#[test]
fn round_trip_empty_store() {
    let list = TodoList::new();
    let d = list.to_document();
    match &d {
        Json::Object(f) => {
            assert_eq!(f.len(), 1);
            assert_eq!(f[0].0, "todos");
            assert!(matches!(&f[0].1, Json::Array(a) if a.is_empty()));
        }
        _ => panic!("document must be an object"),
    }
    let back = TodoList::from_document(&d).unwrap();
    assert!(back.list_todos().is_empty());
}

#[test]
fn record_object_layout() {
    let t = Todo::from_parts(s("abc"), s("T"), None, Timestamp { secs: 1704067200, nanos: 500_000_000 });
    match record_to_json(&t) {
        Json::Object(f) => {
            let keys: Vec<&str> = f.iter().map(|p| p.0.as_str()).collect();
            assert_eq!(keys, vec!["id", "title", "description", "completed", "created_at"]);
            assert!(matches!(&f[0].1, Json::Str(x) if x == "abc"));
            assert!(matches!(&f[1].1, Json::Str(x) if x == "T"));
            assert!(matches!(&f[2].1, Json::Null));
            assert!(matches!(&f[3].1, Json::Bool(false)));
            assert!(matches!(&f[4].1, Json::Str(x) if x == "2024-01-01T00:00:00.500Z"));
        }
        _ => panic!("record must be an object"),
    }
}

#[test]
fn missing_id_is_parse_failure() {
    let d = doc(vec![record_json(None, "t", None, Json::Bool(false), "2024-01-01T00:00:00Z")]);
    assert_eq!(TodoList::from_document(&d).err(), Some(ParseFailure));
}

#[test]
fn missing_other_required_keys_fail() {
    let no_title = Json::Object(vec![
        (s("id"), Json::Str(s("i"))),
        (s("completed"), Json::Bool(true)),
        (s("created_at"), Json::Str(s("2024-01-01T00:00:00Z"))),
    ]);
    assert!(record_from_json(&no_title).is_err());
    let no_completed = Json::Object(vec![
        (s("id"), Json::Str(s("i"))),
        (s("title"), Json::Str(s("t"))),
        (s("created_at"), Json::Str(s("2024-01-01T00:00:00Z"))),
    ]);
    assert!(record_from_json(&no_completed).is_err());
    let no_created = Json::Object(vec![
        (s("id"), Json::Str(s("i"))),
        (s("title"), Json::Str(s("t"))),
        (s("completed"), Json::Bool(true)),
    ]);
    assert!(record_from_json(&no_created).is_err());
}

#[test]
fn absent_or_null_description_is_none() {
    let d = doc(vec![
        record_json(Some("a"), "t", None, Json::Bool(true), "2024-01-01T00:00:00Z"),
        record_json(Some("b"), "u", Some(Json::Null), Json::Bool(false), "2024-01-01T00:00:01Z"),
        record_json(Some("c"), "v", Some(Json::Str(s("w"))), Json::Bool(false), "2024-01-01T00:00:02Z"),
    ]);
    let list = TodoList::from_document(&d).unwrap();
    let r = records(&list);
    assert_eq!(r[0], (s("a"), s("t"), None, true, Timestamp { secs: 1704067200, nanos: 0 }));
    assert_eq!(r[1], (s("b"), s("u"), None, false, Timestamp { secs: 1704067201, nanos: 0 }));
    assert_eq!(r[2], (s("c"), s("v"), Some(s("w")), false, Timestamp { secs: 1704067202, nanos: 0 }));
}

#[test]
fn wrong_types_fail() {
    let bad_flag = doc(vec![record_json(Some("a"), "t", None, Json::Str(s("true")), "2024-01-01T00:00:00Z")]);
    assert!(TodoList::from_document(&bad_flag).is_err());
    let bad_desc = doc(vec![record_json(Some("a"), "t", Some(Json::Number(s("3"))), Json::Bool(true), "2024-01-01T00:00:00Z")]);
    assert!(TodoList::from_document(&bad_desc).is_err());
    let bad_time = doc(vec![record_json(Some("a"), "t", None, Json::Bool(true), "yesterday")]);
    assert!(TodoList::from_document(&bad_time).is_err());
    assert!(TodoList::from_document(&Json::Array(vec![])).is_err());
    assert!(TodoList::from_document(&Json::Object(vec![])).is_err());
    assert!(TodoList::from_document(&Json::Object(vec![(s("todos"), Json::Null)])).is_err());
    assert!(TodoList::from_document(&doc(vec![Json::Null])).is_err());
}

#[test]
fn unknown_keys_are_ignored() {
    let mut rec = record_json(Some("a"), "t", None, Json::Bool(true), "2024-01-01T00:00:00Z");
    if let Json::Object(f) = &mut rec {
        f.push((s("priority"), Json::Number(s("2"))));
    }
    let d = Json::Object(vec![(s("version"), Json::Number(s("1"))), (s("todos"), Json::Array(vec![rec]))]);
    let list = TodoList::from_document(&d).unwrap();
    assert_eq!(list.len(), 1);
    assert_eq!(list.list_todos()[0].id, "a");
}

#[test]
fn first_member_wins() {
    let f = vec![(s("k"), Json::Bool(true)), (s("k"), Json::Bool(false))];
    assert!(matches!(find_member(&f, "k"), Some(Json::Bool(true))));
    assert!(find_member(&f, "z").is_none());
}

#[test]
fn timestamp_text_exact() {
    assert_eq!(format_timestamp(Timestamp { secs: 0, nanos: 0 }), "1970-01-01T00:00:00Z");
    assert_eq!(format_timestamp(Timestamp { secs: 1704067200, nanos: 123_456_789 }), "2024-01-01T00:00:00.123456789Z");
    assert_eq!(format_timestamp(Timestamp { secs: -62167219200, nanos: 0 }), "0000-01-01T00:00:00Z");
    assert_eq!(
        format_timestamp(Timestamp { secs: 8210266876799, nanos: 1_000_000 }),
        "+262142-12-31T23:59:59.001Z"
    );
}

#[test]
fn timestamp_reading() {
    assert_eq!(parse_timestamp("2024-01-01T00:00:00.250Z"), Some(Timestamp { secs: 1704067200, nanos: 250_000_000 }));
    assert_eq!(parse_timestamp("2024-01-01T01:00:00+01:00"), Some(Timestamp { secs: 1704067200, nanos: 0 }));
    assert_eq!(parse_timestamp("not a time"), None);
    assert_eq!(parse_timestamp("0000-01-01T00:00:00+01:00"), None);
    assert_eq!(parse_timestamp("2016-12-31T23:59:60Z"), None);
    let t = Timestamp { secs: 253402300799, nanos: 999_999_999 };
    assert_eq!(parse_timestamp(&format_timestamp(t)), Some(t));
}

#[test]
fn timestamp_from_parts_bounds() {
    assert_eq!(Timestamp::from_parts(10, 999_999_999), Some(Timestamp { secs: 10, nanos: 999_999_999 }));
    assert_eq!(Timestamp::from_parts(10, 1_000_000_000), None);
    assert_eq!(Timestamp::from_parts(-62167219201, 0), None);
    assert_eq!(Timestamp::from_parts(8210266876799, 0), Some(Timestamp { secs: 8210266876799, nanos: 0 }));
    assert_eq!(Timestamp::from_parts(8210266876800, 0), None);
}
