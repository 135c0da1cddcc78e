//! The filter and update documents that each operation of the service sends
//! to the database.

use vstd::prelude::*;
use vstd::string::StringExecFns;

use crate::document::{
    document_entries, insert_entry, insert_value, lemma_key_index_unique, new_document, unique_keys,
    FieldModel, Value,
};
use bson::Document;
use crate::ids::{
    is_object_id_hex, object_id_bytes, parse_object_id, reports_parse_failure, QueryError,
};
use crate::types::{ItemExisting, ItemNew, ItemState, ItemsParams, ListExisting, StateParams};

verus! {

/// The collection that holds the lists.
pub const PARENT_COLLECTION: &'static str = "TodoList";

/// The collection that holds the items of all lists.
pub const CHILD_COLLECTION: &'static str = "TodoItem";

/// A search: the filter, and how many matches to return and to skip.
#[derive(Debug)]
pub struct FindQuery {
    pub filter: Document,
    pub limit: Option<i64>,
    pub skip: Option<u64>,
}

/// An optional string, empty when absent.
pub open spec fn or_empty(opt: Option<String>) -> Seq<char> {
    match opt {
        Some(s) => s@,
        None => Seq::empty(),
    }
}

/// An optional string as a field: null when absent.
pub open spec fn str_or_null(opt: Option<String>) -> FieldModel {
    match opt {
        Some(s) => FieldModel::Str(s@),
        None => FieldModel::Null,
    }
}

/// The filter that selects the document whose identifier `id` spells.
pub open spec fn id_filter_model(id: Seq<char>) -> Seq<(Seq<char>, FieldModel)> {
    seq![("_id"@, FieldModel::ObjectId(object_id_bytes(id)))]
}

/// A new list named `name`, created and updated at `now`.
pub open spec fn new_list_model(name: Seq<char>, now: Seq<char>) -> Seq<(Seq<char>, FieldModel)> {
    seq![
        ("name"@, FieldModel::Str(name)),
        ("createdDate"@, FieldModel::Str(now)),
        ("updatedDate"@, FieldModel::Str(now)),
    ]
}

/// The update that renames a list to `name` at `now`.
pub open spec fn list_update_model(name: Seq<char>, now: Seq<char>) -> Seq<(Seq<char>, FieldModel)> {
    seq![
        ("$set"@, FieldModel::Document(
            seq![("name"@, FieldModel::Str(name)), ("updatedDate"@, FieldModel::Str(now))],
        )),
    ]
}

/// Inserting a key that no entry has appends it.
proof fn lemma_insert_fresh(m: Seq<(Seq<char>, FieldModel)>, k: Seq<char>, v: FieldModel)
    requires
        forall|i: int| 0 <= i < m.len() ==> #[trigger] m[i].0 != k,
    ensures
        insert_entry(m, k, v) == m.push((k, v)),
{
}

/// A key of a string literal.
fn key(s: &str) -> (k: String)
    ensures
        k@ == s@,
{
    String::from_str(s)
}

/// A string field.
fn text(s: &str) -> (v: Value)
    ensures
        v@ == FieldModel::Str(s@),
{
    Value::Str(String::from_str(s))
}

/// A document of one entry.
fn single(k: &str, v: Value) -> (d: Document)
    ensures
        document_entries(d) == seq![(k@, v@)],
        unique_keys(document_entries(d)),
{
    let mut d = new_document();
    let ghost vm = v@;
    insert_value(&mut d, key(k), v);
    proof {
        lemma_insert_fresh(Seq::empty(), k@, vm);
        assert(document_entries(d) =~= seq![(k@, vm)]);
    }
    d
}

/// The filter that selects the document with identifier `id`; an error when
/// `id` is not 24 hexadecimal digits.
pub fn id_filter(id: &str) -> (r: Result<Document, QueryError>)
    ensures
        r is Ok <==> is_object_id_hex(id@),
        r matches Ok(d) ==> document_entries(d) == id_filter_model(id@),
        r matches Err(e) ==> (e matches QueryError::InvalidId(p) && reports_parse_failure(id@, p)),
{
    match parse_object_id(id) {
        Ok(bytes) => Ok(single("_id", Value::ObjectId(bytes))),
        Err(e) => Err(e),
    }
}

/// The bytes of an identifier already known to be 24 hexadecimal digits.
fn valid_object_id(id: &str) -> (b: [u8; 12])
    requires
        is_object_id_hex(id@),
    ensures
        b@ == object_id_bytes(id@),
{
    match parse_object_id(id) {
        Ok(b) => b,
        Err(_) => {
            proof {
                assert(false);
            }
            [0u8; 12]
        },
    }
}

/// The filter that selects the document with identifier `id`, which must be
/// 24 hexadecimal digits (callers check it with `is_object_id`).
pub fn object_id_filter(id: &str) -> (d: Document)
    requires
        is_object_id_hex(id@),
    ensures
        document_entries(d) == id_filter_model(id@),
{
    single("_id", Value::ObjectId(valid_object_id(id)))
}

/// A new list named `name`, with creation and update dates `now`.
pub fn new_list_doc(name: String, now: &str) -> (d: Document)
    ensures
        document_entries(d) == new_list_model(name@, now@),
{
    let ghost n = name@;
    let mut d = single("name", Value::Str(name));
    proof {
        reveal_strlit("name");
        reveal_strlit("createdDate");
        reveal_strlit("updatedDate");
        lemma_insert_fresh(document_entries(d), "createdDate"@, FieldModel::Str(now@));
    }
    insert_value(&mut d, key("createdDate"), text(now));
    let ghost m1 = document_entries(d);
    proof {
        assert("createdDate"@[0] != "updatedDate"@[0]);
        lemma_insert_fresh(m1, "updatedDate"@, FieldModel::Str(now@));
    }
    insert_value(&mut d, key("updatedDate"), text(now));
    assert(document_entries(d) =~= new_list_model(n, now@));
    d
}

/// The update that renames a list to its new name at `now`.
pub fn list_update_doc(list: &ListExisting, now: &str) -> (d: Document)
    requires
        list.name is Some,
    ensures
        document_entries(d) == list_update_model(list.name->0@, now@),
{
    let name = match &list.name {
        Some(n) => n.clone(),
        None => String::new(),
    };
    let mut inner = single("name", Value::Str(name));
    proof {
        reveal_strlit("name");
        reveal_strlit("updatedDate");
        assert(document_entries(inner)[0].0 == "name"@);
        assert("name"@.len() != "updatedDate"@.len());
        lemma_insert_fresh(document_entries(inner), "updatedDate"@, FieldModel::Str(now@));
    }
    insert_value(&mut inner, key("updatedDate"), text(now));
    assert(document_entries(inner) =~= seq![
        ("name"@, FieldModel::Str(list.name->0@)),
        ("updatedDate"@, FieldModel::Str(now@)),
    ]);
    let d = single("$set", Value::Document(inner));
    assert(document_entries(d) =~= list_update_model(list.name->0@, now@));
    d
}


/// The lengths and first characters of the keys, which tell them apart.
proof fn lemma_key_shapes()
    ensures
        "_id"@.len() == 3,
        "name"@.len() == 4,
        "$set"@.len() == 4,
        "$text"@.len() == 5,
        "state"@.len() == 5,
        "listid"@.len() == 6,
        "dueDate"@.len() == 7,
        "$search"@.len() == 7,
        "createdDate"@.len() == 11,
        "updatedDate"@.len() == 11,
        "description"@.len() == 11,
        "completedDate"@.len() == 13,
        "name"@[0] == 'n',
        "$set"@[0] == '$',
        "$text"@[0] == '$',
        "state"@[0] == 's',
        "createdDate"@[0] == 'c',
        "updatedDate"@[0] == 'u',
        "description"@[0] == 'd',
{
    reveal_strlit("_id");
    reveal_strlit("name");
    reveal_strlit("$set");
    reveal_strlit("$text");
    reveal_strlit("state");
    reveal_strlit("listid");
    reveal_strlit("dueDate");
    reveal_strlit("$search");
    reveal_strlit("createdDate");
    reveal_strlit("updatedDate");
    reveal_strlit("description");
    reveal_strlit("completedDate");
}

/// The `$text` search for `query`: a search for null when absent.
pub open spec fn text_search_model(query: Option<String>) -> FieldModel {
    FieldModel::Document(seq![("$search"@, str_or_null(query))])
}

/// The filter of the items of the list whose identifier `list_id` spells,
/// matching the text search `query`.
pub open spec fn items_filter_model(list_id: Seq<char>, query: Option<String>) -> Seq<
    (Seq<char>, FieldModel),
> {
    seq![
        ("listid"@, FieldModel::ObjectId(object_id_bytes(list_id))),
        ("$text"@, text_search_model(query)),
    ]
}

/// The filter of the items in state `state` matching the text search `query`.
pub open spec fn state_filter_model(state: Seq<char>, query: Option<String>) -> Seq<
    (Seq<char>, FieldModel),
> {
    seq![("state"@, FieldModel::Str(state)), ("$text"@, text_search_model(query))]
}

/// A new item of the list whose identifier `list_id` spells. The item's
/// `name` field holds its description (or is empty), its state is `todo`, and
/// its due, creation and update dates are `now`.
pub open spec fn new_item_model(list_id: Seq<char>, item: ItemNew, now: Seq<char>) -> Seq<
    (Seq<char>, FieldModel),
> {
    seq![
        ("name"@, FieldModel::Str(or_empty(item.description))),
        ("listid"@, FieldModel::ObjectId(object_id_bytes(list_id))),
        ("state"@, FieldModel::Str("todo"@)),
        ("dueDate"@, FieldModel::Str(now)),
        ("createdDate"@, FieldModel::Str(now)),
        ("updatedDate"@, FieldModel::Str(now)),
    ]
}

/// The replacement of an item by the fields of `item`, updated at `now`.
pub open spec fn item_update_model(item: ItemExisting, now: Seq<char>) -> Seq<
    (Seq<char>, FieldModel),
> {
    seq![
        ("name"@, FieldModel::Str(item.name->0@)),
        ("description"@, FieldModel::Str(item.description->0@)),
        ("state"@, FieldModel::Str(item.state->0.stored_name())),
        ("dueDate"@, FieldModel::Str(item.due_date->0@)),
        ("completedDate"@, FieldModel::Str(item.completed_date->0@)),
        ("createdDate"@, FieldModel::Str(item.created_date->0@)),
        ("updatedDate"@, FieldModel::Str(now)),
    ]
}

/// The update that moves an item to state `state` at `now`.
pub open spec fn state_update_model(state: Seq<char>, now: Seq<char>) -> Seq<
    (Seq<char>, FieldModel),
> {
    seq![
        ("$set"@, FieldModel::Document(
            seq![("state"@, FieldModel::Str(state)), ("updatedDate"@, FieldModel::Str(now))],
        )),
    ]
}

/// A copy of an optional string.
fn clone_opt(opt: &Option<String>) -> (r: Option<String>)
    ensures
        or_empty(r) == or_empty(*opt),
        str_or_null(r) == str_or_null(*opt),
        r is Some <==> opt is Some,
{
    match opt {
        Some(s) => Some(s.clone()),
        None => None,
    }
}

/// An optional string, empty when absent.
fn string_or_empty(opt: &Option<String>) -> (s: String)
    ensures
        s@ == or_empty(*opt),
{
    match opt {
        Some(s) => s.clone(),
        None => String::new(),
    }
}

/// The `$text` search for `query`.
fn text_search(query: &Option<String>) -> (v: Value)
    ensures
        v@ == text_search_model(*query),
{
    let q = match clone_opt(query) {
        Some(s) => Value::Str(s),
        None => Value::Null,
    };
    Value::Document(single("$search", q))
}

/// Appends an entry under a key that the document does not hold yet.
fn push_fresh(d: &mut Document, k: &str, v: Value)
    requires
        unique_keys(document_entries(*old(d))),
        forall|i: int|
            0 <= i < document_entries(*old(d)).len() ==> #[trigger] document_entries(*old(d))[i].0
                != k@,
    ensures
        document_entries(*final(d)) == document_entries(*old(d)).push((k@, v@)),
        unique_keys(document_entries(*final(d))),
{
    let ghost vm = v@;
    proof {
        lemma_insert_fresh(document_entries(*d), k@, vm);
    }
    insert_value(d, key(k), v);
}

/// The search for the items of the list whose identifier `list_id` spells,
/// with the paging of `params`; `list_id` must be 24 hexadecimal digits.
pub fn items_query(list_id: &str, params: &ItemsParams) -> (q: FindQuery)
    requires
        is_object_id_hex(list_id@),
    ensures
        document_entries(q.filter) == items_filter_model(list_id@, params.query),
        q.limit == params.top,
        q.skip == params.skip,
{
    let bytes = valid_object_id(list_id);
    let mut filter = single("listid", Value::ObjectId(bytes));
    proof {
        lemma_key_shapes();
    }
    push_fresh(&mut filter, "$text", text_search(&params.query));
    assert(document_entries(filter) =~= items_filter_model(list_id@, params.query));
    FindQuery { filter, limit: params.top, skip: params.skip }
}

/// The search for the items in state `state`, with the paging of `params`.
pub fn items_by_state_query(state: &str, params: &StateParams) -> (q: FindQuery)
    ensures
        document_entries(q.filter) == state_filter_model(state@, params.query),
        q.limit == params.top,
        q.skip == params.skip,
{
    let mut filter = single("state", text(state));
    proof {
        lemma_key_shapes();
    }
    push_fresh(&mut filter, "$text", text_search(&params.query));
    assert(document_entries(filter) =~= state_filter_model(state@, params.query));
    FindQuery { filter, limit: params.top, skip: params.skip }
}

/// A new item of the list whose identifier `list_id` spells, made at `now`;
/// an error when `list_id` is not 24 hexadecimal digits.
///
/// The fields are written in turn: `name` (the item's name), `listid`,
/// `state`, then `name` again with the description, which takes the place of
/// the first; so the stored `name` is the description.
pub fn new_item_doc(list_id: &str, item: &ItemNew, now: &str) -> (r: Result<Document, QueryError>)
    ensures
        r is Ok <==> is_object_id_hex(list_id@),
        r matches Ok(d) ==> document_entries(d) == new_item_model(list_id@, *item, now@),
        r matches Err(e) ==> (e matches QueryError::InvalidId(p) && reports_parse_failure(
            list_id@,
            p,
        )),
{
    let bytes = match parse_object_id(list_id) {
        Ok(b) => b,
        Err(e) => {
            return Err(e);
        },
    };
    proof {
        lemma_key_shapes();
    }
    let mut d = single("name", Value::Str(string_or_empty(&item.name)));
    push_fresh(&mut d, "listid", Value::ObjectId(bytes));
    push_fresh(&mut d, "state", text("todo"));
    let ghost before = document_entries(d);
    let description = Value::Str(string_or_empty(&item.description));
    let ghost dm = description@;
    insert_value(&mut d, key("name"), description);
    proof {
        lemma_key_index_unique(before, "name"@, 0);
        assert(document_entries(d) == before.update(0, ("name"@, dm)));
    }
    push_fresh(&mut d, "dueDate", text(now));
    push_fresh(&mut d, "createdDate", text(now));
    push_fresh(&mut d, "updatedDate", text(now));
    assert(document_entries(d) =~= new_item_model(list_id@, *item, now@));
    Ok(d)
}

/// The replacement of an item by the fields of `item`, updated at `now`.
pub fn item_update_doc(item: &ItemExisting, now: &str) -> (d: Document)
    requires
        item.name is Some,
        item.description is Some,
        item.state is Some,
        item.due_date is Some,
        item.completed_date is Some,
        item.created_date is Some,
    ensures
        document_entries(d) == item_update_model(*item, now@),
{
    proof {
        lemma_key_shapes();
    }
    let state = match item.state {
        Some(s) => s,
        None => ItemState::Todo,
    };
    let mut d = single("name", Value::Str(string_or_empty(&item.name)));
    push_fresh(&mut d, "description", Value::Str(string_or_empty(&item.description)));
    push_fresh(&mut d, "state", Value::Str(state.to_string()));
    push_fresh(&mut d, "dueDate", Value::Str(string_or_empty(&item.due_date)));
    push_fresh(&mut d, "completedDate", Value::Str(string_or_empty(&item.completed_date)));
    push_fresh(&mut d, "createdDate", Value::Str(string_or_empty(&item.created_date)));
    push_fresh(&mut d, "updatedDate", text(now));
    assert(document_entries(d) =~= item_update_model(*item, now@));
    d
}

/// The update that moves an item to state `state` at `now`.
pub fn state_update_doc(state: &str, now: &str) -> (d: Document)
    ensures
        document_entries(d) == state_update_model(state@, now@),
{
    proof {
        lemma_key_shapes();
    }
    let mut inner = single("state", text(state));
    push_fresh(&mut inner, "updatedDate", text(now));
    assert(document_entries(inner) =~= seq![
        ("state"@, FieldModel::Str(state@)),
        ("updatedDate"@, FieldModel::Str(now@)),
    ]);
    let d = single("$set", Value::Document(inner));
    assert(document_entries(d) =~= state_update_model(state@, now@));
    d
}


/// An item of a batch names an item to update: it has an identifier, and the
/// identifier spells an object identifier.
pub open spec fn names_an_item(item: ItemExisting) -> bool {
    item.id matches Some(id) && is_object_id_hex(id@)
}

/// The updates of a batch state change, in order, and why the batch stopped
/// early, if it did.
#[derive(Debug)]
pub struct BatchPlan {
    /// Filter and update of each item that is updated.
    pub updates: Vec<(Document, Document)>,
    /// Why the item after the last update could not be updated.
    pub error: Option<QueryError>,
}

/// The updates that move the items of a batch to state `state` at `now`. The
/// items are taken in order; the first item that does not name an item (no
/// identifier, or one that is not 24 hexadecimal digits) ends the batch with
/// an error, and the items before it are updated.
pub fn update_batch_state_plan(state: &str, items: &Vec<ItemExisting>, now: &str) -> (p: BatchPlan)
    ensures
        p.updates@.len() <= items@.len(),
        forall|i: int|
            0 <= i < p.updates@.len() ==> {
                &&& names_an_item(#[trigger] items@[i])
                &&& document_entries(p.updates@[i].0) == id_filter_model(items@[i].id->0@)
                &&& document_entries(p.updates@[i].1) == state_update_model(state@, now@)
            },
        p.error is None <==> p.updates@.len() == items@.len(),
        p.updates@.len() < items@.len() ==> {
            let bad = items@[p.updates@.len() as int];
            &&& !names_an_item(bad)
            &&& bad.id is None ==> (p.error matches Some(e) && e is MissingId)
            &&& bad.id is Some ==> (p.error matches Some(QueryError::InvalidId(e))
                && reports_parse_failure(bad.id->0@, e))
        },
{
    let mut updates: Vec<(Document, Document)> = Vec::new();
    let n = items.len();
    let mut i: usize = 0;
    while i < n
        invariant
            n == items@.len(),
            i <= n,
            updates@.len() == i,
            forall|j: int|
                0 <= j < i ==> {
                    &&& names_an_item(#[trigger] items@[j])
                    &&& document_entries(updates@[j].0) == id_filter_model(items@[j].id->0@)
                    &&& document_entries(updates@[j].1) == state_update_model(state@, now@)
                },
        decreases n - i,
    {
        let filter = match &items[i].id {
            None => {
                return BatchPlan { updates, error: Some(QueryError::MissingId) };
            },
            Some(id) => match id_filter(id.as_str()) {
                Ok(f) => f,
                Err(e) => {
                    return BatchPlan { updates, error: Some(e) };
                },
            },
        };
        updates.push((filter, state_update_doc(state, now)));
        i = i + 1;
    }
    BatchPlan { updates, error: None }
}

/// Replacing an item: the document does not depend on the item's own
/// identifier or update date (the target is chosen by the filter, and the
/// update date is `now`).
pub proof fn lemma_item_update_ignores_id_and_update_date(
    a: ItemExisting,
    b: ItemExisting,
    now: Seq<char>,
)
    requires
        a.name == b.name,
        a.description == b.description,
        a.state == b.state,
        a.due_date == b.due_date,
        a.completed_date == b.completed_date,
        a.created_date == b.created_date,
    ensures
        item_update_model(a, now) == item_update_model(b, now),
{
}

} // verus!
