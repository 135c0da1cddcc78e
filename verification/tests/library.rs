use bson::{Bson, Document};
use todo_api::fields::{empty_string_as_none, optional_i32, parse_i32, IntParseError};
use todo_api::ids::{is_object_id, parse_object_id, ObjectIdError, QueryError};
use todo_api::queries::{
    id_filter, item_update_doc, items_by_state_query, items_query, list_update_doc,
    new_item_doc, new_list_doc, object_id_filter, state_update_doc, update_batch_state_plan,
    CHILD_COLLECTION, PARENT_COLLECTION,
};
use todo_api::routes::{new_list_name, RouteError};
use todo_api::types::{
    ItemExisting, ItemNew, ItemState, ItemsParams, ListExisting, ListNew, StateParams,
};

const ID: &str = "64b7f0c2a1b2c3d4e5f60718";
const ID_BYTES: [u8; 12] = [0x64, 0xb7, 0xf0, 0xc2, 0xa1, 0xb2, 0xc3, 0xd4, 0xe5, 0xf6, 0x07, 0x18];

fn render_value(v: &Bson) -> String {
    match v {
        Bson::Null => "null".to_string(),
        Bson::String(s) => format!("{:?}", s),
        Bson::ObjectId(o) => format!("oid({})", o.to_hex()),
        Bson::Document(d) => render(&d),
        other => format!("unexpected {:?}", other),
    }
}

fn render(d: &Document) -> String {
    let parts: Vec<String> = d.iter().map(|(k, v)| format!("{}: {}", k, render_value(v))).collect();
    format!("{{{}}}", parts.join(", "))
}

fn s(x: &str) -> Option<String> {
    Some(x.to_string())
}

fn full_item(id: Option<String>) -> ItemExisting {
    ItemExisting {
        id,
        name: s("milk"),
        state: Some(ItemState::InProgress),
        description: s("two litres"),
        due_date: s("2024-01-02"),
        completed_date: s("2024-01-03"),
        created_date: s("2024-01-01"),
        updated_date: s("2024-01-01"),
    }
}

#[test]
fn item_state_names() {
    assert_eq!(ItemState::Todo.to_string(), "todo");
    assert_eq!(ItemState::InProgress.to_string(), "inprogress");
    assert_eq!(ItemState::Done.to_string(), "done");
}

#[test]
fn item_state_names_distinct() {
    let all = [ItemState::Todo, ItemState::InProgress, ItemState::Done];
    for a in all.iter() {
        for b in all.iter() {
            assert_eq!(a.to_string() == b.to_string(), a == b);
        }
    }
}

#[test]
fn empty_string_is_none() {
    assert_eq!(empty_string_as_none(Some(String::new())), None);
    assert_eq!(empty_string_as_none(None), None);
    assert_eq!(empty_string_as_none(s("a")), s("a"));
    assert_eq!(empty_string_as_none(s(" ")), s(" "));
}

#[test]
fn empty_string_as_none_idempotent() {
    for v in [None, Some(String::new()), s("x")] {
        let once = empty_string_as_none(v);
        let twice = empty_string_as_none(once.clone());
        assert_eq!(once, twice);
    }
}

#[test]
fn parse_i32_values() {
    assert_eq!(parse_i32("0"), Ok(0));
    assert_eq!(parse_i32("42"), Ok(42));
    assert_eq!(parse_i32("+42"), Ok(42));
    assert_eq!(parse_i32("-42"), Ok(-42));
    assert_eq!(parse_i32("007"), Ok(7));
    assert_eq!(parse_i32("2147483647"), Ok(i32::MAX));
    assert_eq!(parse_i32("-2147483648"), Ok(i32::MIN));
}

#[test]
fn parse_i32_errors() {
    assert_eq!(parse_i32(""), Err(IntParseError::Empty));
    assert_eq!(parse_i32("-"), Err(IntParseError::InvalidDigit));
    assert_eq!(parse_i32("+"), Err(IntParseError::InvalidDigit));
    assert_eq!(parse_i32("12a"), Err(IntParseError::InvalidDigit));
    assert_eq!(parse_i32(" 1"), Err(IntParseError::InvalidDigit));
    assert_eq!(parse_i32("--1"), Err(IntParseError::InvalidDigit));
    assert_eq!(parse_i32("2147483648"), Err(IntParseError::PosOverflow));
    assert_eq!(parse_i32("-2147483649"), Err(IntParseError::NegOverflow));
    assert_eq!(parse_i32("99999999999x"), Err(IntParseError::PosOverflow));
    assert_eq!(parse_i32("1é"), Err(IntParseError::InvalidDigit));
}

#[test]
fn parse_i32_agrees_with_std() {
    let cases = [
        "", "-", "+", "0", "-0", "+7", "12a", "a12", "2147483647", "2147483648", "-2147483648",
        "-2147483649", "99999999999x", "x99999999999", "１", "٣", "+-1",
    ];
    for c in cases.iter() {
        let ours = parse_i32(c);
        let std_result = c.parse::<i32>();
        match (ours, std_result) {
            (Ok(a), Ok(b)) => assert_eq!(a, b, "{}", c),
            (Err(e), Err(f)) => assert_eq!(e.message(), f.to_string(), "{}", c),
            (a, b) => panic!("{}: {:?} vs {:?}", c, a, b),
        }
    }
}

#[test]
fn optional_i32_field() {
    assert_eq!(optional_i32(None), Ok(None));
    assert_eq!(optional_i32(Some(String::new())), Ok(None));
    assert_eq!(optional_i32(s("-5")), Ok(Some(-5)));
    assert_eq!(optional_i32(s("five")), Err(IntParseError::InvalidDigit));
}

#[test]
fn object_id_parsing() {
    assert_eq!(parse_object_id(ID).unwrap(), ID_BYTES);
    assert_eq!(parse_object_id("64B7F0C2A1B2C3D4E5F60718").unwrap(), ID_BYTES);
    assert!(is_object_id(ID));
    assert!(!is_object_id("64b7f0c2a1b2c3d4e5f6071"));
    assert!(!is_object_id("64b7f0c2a1b2c3d4e5f6071g"));
    assert!(!is_object_id(""));
}

#[test]
fn object_id_errors() {
    match parse_object_id("64b7f0c2a1b2c3d4e5f6071") {
        Err(QueryError::InvalidId(ObjectIdError::InvalidHexStringLength { length, hex })) => {
            assert_eq!(length, 23);
            assert_eq!(hex, "64b7f0c2a1b2c3d4e5f6071");
        }
        other => panic!("{:?}", other),
    }
    match parse_object_id("64b7f0c2a1b2c3d4e5f607") {
        Err(QueryError::InvalidId(ObjectIdError::InvalidHexStringLength { length, .. })) => {
            assert_eq!(length, 22)
        }
        other => panic!("{:?}", other),
    }
    match parse_object_id("64b7f0c2a1b2c3d4e5f6071g") {
        Err(QueryError::InvalidId(ObjectIdError::InvalidHexStringCharacter { c, index, hex })) => {
            assert_eq!(c, 'g');
            assert_eq!(index, 23);
            assert_eq!(hex, "64b7f0c2a1b2c3d4e5f6071g");
        }
        other => panic!("{:?}", other),
    }
    match parse_object_id("zz") {
        Err(QueryError::InvalidId(ObjectIdError::InvalidHexStringCharacter { c, index, .. })) => {
            assert_eq!((c, index), ('z', 0))
        }
        other => panic!("{:?}", other),
    }
    // a two-byte character: the first byte is reported, read as a character
    match parse_object_id("\u{e9}4b7f0c2a1b2c3d4e5f6071") {
        Err(QueryError::InvalidId(ObjectIdError::InvalidHexStringCharacter { c, index, .. })) => {
            assert_eq!((c, index), ('\u{c3}', 0))
        }
        other => panic!("{:?}", other),
    }
}

#[test]
fn id_filter_document() {
    let d = id_filter(ID).unwrap();
    assert_eq!(render(&d), "{_id: oid(64b7f0c2a1b2c3d4e5f60718)}");
    assert!(matches!(id_filter("nope"), Err(QueryError::InvalidId(_))));
    let d = object_id_filter(ID);
    assert_eq!(render(&d), "{_id: oid(64b7f0c2a1b2c3d4e5f60718)}");
}

#[test]
fn new_list_document() {
    let d = new_list_doc("groceries".to_string(), "now");
    assert_eq!(render(&d), r#"{name: "groceries", createdDate: "now", updatedDate: "now"}"#);
}

#[test]
fn list_update_document() {
    let list = ListExisting {
        name: s("renamed"),
        _id: None,
        createdDate: None,
        updatedDate: None,
    };
    let d = list_update_doc(&list, "t1");
    assert_eq!(render(&d), r#"{$set: {name: "renamed", updatedDate: "t1"}}"#);
}

#[test]
fn items_query_document() {
    let params = ItemsParams { query: s("milk"), skip: Some(5), top: Some(10) };
    let q = items_query(ID, &params);
    assert_eq!(q.limit, Some(10));
    assert_eq!(q.skip, Some(5));
    assert_eq!(
        render(&q.filter),
        r#"{listid: oid(64b7f0c2a1b2c3d4e5f60718), $text: {$search: "milk"}}"#
    );
    let none = ItemsParams { query: None, skip: None, top: None };
    let q = items_query(ID, &none);
    assert_eq!(q.limit, None);
    assert_eq!(render(&q.filter), "{listid: oid(64b7f0c2a1b2c3d4e5f60718), $text: {$search: null}}");
}

#[test]
fn items_by_state_document() {
    let params = StateParams { query: s("milk"), skip: None, top: Some(3) };
    let q = items_by_state_query("done", &params);
    assert_eq!(q.limit, Some(3));
    assert_eq!(q.skip, None);
    assert_eq!(render(&q.filter), r#"{state: "done", $text: {$search: "milk"}}"#);
}

#[test]
fn new_item_name_holds_description() {
    let item = ItemNew {
        name: s("milk"),
        state: Some(ItemState::Done),
        description: s("two litres"),
        due_date: s("tomorrow"),
        completed_date: None,
    };
    let d = new_item_doc(ID, &item, "now").unwrap();
    assert_eq!(d.get_str("name").unwrap(), "two litres");
    assert_eq!(d.len(), 6);
    assert_eq!(
        render(&d),
        r#"{name: "two litres", listid: oid(64b7f0c2a1b2c3d4e5f60718), state: "todo", dueDate: "now", createdDate: "now", updatedDate: "now"}"#
    );
}

#[test]
fn new_item_without_fields() {
    let item = ItemNew { name: None, state: None, description: None, due_date: None, completed_date: None };
    let d = new_item_doc(ID, &item, "now").unwrap();
    assert_eq!(
        render(&d),
        r#"{name: "", listid: oid(64b7f0c2a1b2c3d4e5f60718), state: "todo", dueDate: "now", createdDate: "now", updatedDate: "now"}"#
    );
    assert!(matches!(new_item_doc("bad", &item, "now"), Err(QueryError::InvalidId(_))));
}

#[test]
fn item_update_document() {
    let d = item_update_doc(&full_item(None), "t9");
    assert_eq!(
        render(&d),
        r#"{name: "milk", description: "two litres", state: "inprogress", dueDate: "2024-01-02", completedDate: "2024-01-03", createdDate: "2024-01-01", updatedDate: "t9"}"#
    );
}

#[test]
fn state_update_document() {
    let d = state_update_doc("done", "t2");
    assert_eq!(render(&d), r#"{$set: {state: "done", updatedDate: "t2"}}"#);
}

#[test]
fn batch_all_valid() {
    let items = vec![full_item(s(ID)), full_item(s("000000000000000000000001"))];
    let plan = update_batch_state_plan("done", &items, "t");
    assert!(plan.error.is_none());
    let rendered: Vec<(String, String)> =
        plan.updates.iter().map(|(f, u)| (render(f), render(u))).collect();
    assert_eq!(
        rendered,
        vec![
            (
                "{_id: oid(64b7f0c2a1b2c3d4e5f60718)}".to_string(),
                r#"{$set: {state: "done", updatedDate: "t"}}"#.to_string()
            ),
            (
                "{_id: oid(000000000000000000000001)}".to_string(),
                r#"{$set: {state: "done", updatedDate: "t"}}"#.to_string()
            ),
        ]
    );
}

#[test]
fn batch_stops_at_missing_id() {
    let items = vec![full_item(s(ID)), full_item(None), full_item(s(ID))];
    let plan = update_batch_state_plan("todo", &items, "t");
    assert_eq!(plan.updates.len(), 1);
    assert!(matches!(plan.error, Some(QueryError::MissingId)));
}

#[test]
fn batch_stops_at_invalid_id() {
    let items = vec![full_item(s("xyz")), full_item(s(ID))];
    let plan = update_batch_state_plan("todo", &items, "t");
    assert_eq!(plan.updates.len(), 0);
    assert!(matches!(plan.error, Some(QueryError::InvalidId(_))));
}

#[test]
fn batch_empty() {
    let plan = update_batch_state_plan("todo", &Vec::new(), "t");
    assert!(plan.updates.is_empty());
    assert!(plan.error.is_none());
}

#[test]
fn add_list_requires_name() {
    assert_eq!(new_list_name(&ListNew { name: s("a") }), Ok("a".to_string()));
    assert_eq!(new_list_name(&ListNew { name: None }), Err(RouteError::BadRequest));
    assert_eq!(RouteError::BadRequest.status_code(), 400);
}

#[test]
fn item_update_ignores_id_and_update_date() {
    let a = full_item(s(ID));
    let mut b = full_item(None);
    b.updated_date = s("another day");
    assert_eq!(render(&item_update_doc(&a, "t")), render(&item_update_doc(&b, "t")));
}

#[test]
fn collection_names() {
    assert_eq!(PARENT_COLLECTION, "TodoList");
    assert_eq!(CHILD_COLLECTION, "TodoItem");
}

#[test]
fn object_id_errors_agree_with_bson() {
    let cases = ["", "1", "zz", "64b7f0c2a1b2c3d4e5f6071g", "\u{e9}4b7f0c2a1b2c3d4e5f6071", "abcd"];
    for c in cases.iter() {
        let ours = match parse_object_id(c) {
            Err(QueryError::InvalidId(e)) => format!("{:?}", e),
            other => panic!("{:?}", other),
        };
        let theirs = format!("{:?}", bson::oid::ObjectId::parse_str(c).unwrap_err());
        assert_eq!(ours, theirs);
    }
}
