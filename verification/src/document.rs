//! BSON documents, the shape in which filters and updates are handed to the
//! database, and their model: entries in the order of their first insertion,
//! no key twice; inserting a key that is present replaces its value in place.

use vstd::prelude::*;

verus! {

/// The mathematical value of a document field.
pub enum FieldModel {
    Null,
    Str(Seq<char>),
    ObjectId(Seq<u8>),
    Document(Seq<(Seq<char>, FieldModel)>),
}

#[verifier::external_type_specification]
#[verifier::external_body]
pub struct ExDocument(bson::Document);

/// What a BSON document holds: its entries in order, each key with the model
/// of its value (null, string, object identifier bytes, nested document).
pub uninterp spec fn document_entries(d: bson::Document) -> Seq<(Seq<char>, FieldModel)>;

/// A field value to store in a document.
#[derive(Debug)]
pub enum Value {
    Null,
    Str(String),
    ObjectId([u8; 12]),
    Document(bson::Document),
}

impl View for Value {
    type V = FieldModel;

    open spec fn view(&self) -> FieldModel {
        match self {
            Value::Null => FieldModel::Null,
            Value::Str(s) => FieldModel::Str(s@),
            Value::ObjectId(b) => FieldModel::ObjectId(b@),
            Value::Document(d) => FieldModel::Document(document_entries(*d)),
        }
    }
}

/// Calls `bson::Document::new`, which gives a document with no entries.
#[verifier::external_body]
pub(crate) fn new_document() -> (d: bson::Document)
    ensures
        document_entries(d) == Seq::<(Seq<char>, FieldModel)>::empty(),
{
    bson::Document::new()
}

/// Calls `bson::Document::insert`, which stores a value under a key in the
/// document's index map: an entry with that key keeps its place and takes
/// the new value, otherwise the entry is appended last; keys stay unique.
/// The value is first turned into the matching `Bson` variant (a string, an
/// object identifier made from its bytes by `ObjectId::from_bytes`, null, or
/// the nested document). What `insert` hands back is dropped.
#[verifier::external_body]
pub(crate) fn insert_value(d: &mut bson::Document, key: String, value: Value)
    requires
        unique_keys(document_entries(*old(d))),
    ensures
        document_entries(*final(d)) == insert_entry(document_entries(*old(d)), key@, value@),
        unique_keys(document_entries(*final(d))),
{
    let v = match value {
        Value::Null => bson::Bson::Null,
        Value::Str(s) => bson::Bson::String(s),
        Value::ObjectId(b) => bson::Bson::ObjectId(bson::oid::ObjectId::from_bytes(b)),
        Value::Document(inner) => bson::Bson::Document(inner),
    };
    d.insert(key, v);
}

/// No two entries of `m` share a key.
pub open spec fn unique_keys(m: Seq<(Seq<char>, FieldModel)>) -> bool {
    forall|i: int, j: int| 0 <= i < j < m.len() ==> #[trigger] m[i].0 != #[trigger] m[j].0
}

/// Some entry of `m` has the key `k`.
pub open spec fn has_key(m: Seq<(Seq<char>, FieldModel)>, k: Seq<char>) -> bool {
    exists|i: int| 0 <= i < m.len() && #[trigger] m[i].0 == k
}

/// The position of an entry of `m` with key `k` (meaningful when `has_key(m, k)`).
pub open spec fn key_index(m: Seq<(Seq<char>, FieldModel)>, k: Seq<char>) -> int {
    choose|i: int| 0 <= i < m.len() && #[trigger] m[i].0 == k
}

/// The value stored under `k` in `m`, if any.
pub open spec fn lookup(m: Seq<(Seq<char>, FieldModel)>, k: Seq<char>) -> Option<FieldModel> {
    if has_key(m, k) {
        Some(m[key_index(m, k)].1)
    } else {
        None
    }
}

/// `m` with `v` stored under `k`: the value of an existing entry is replaced
/// where it stands, otherwise the entry is appended.
pub open spec fn insert_entry(m: Seq<(Seq<char>, FieldModel)>, k: Seq<char>, v: FieldModel) -> Seq<
    (Seq<char>, FieldModel),
> {
    if has_key(m, k) {
        m.update(key_index(m, k), (k, v))
    } else {
        m.push((k, v))
    }
}

/// Within a document whose keys are unique, the entry found for a key is the
/// only one that has it.
pub proof fn lemma_key_index_unique(m: Seq<(Seq<char>, FieldModel)>, k: Seq<char>, i: int)
    requires
        unique_keys(m),
        0 <= i < m.len(),
        m[i].0 == k,
    ensures
        has_key(m, k),
        key_index(m, k) == i,
{
    let j = key_index(m, k);
    assert(0 <= j < m.len() && m[j].0 == k);
    if j < i {
        assert(m[j].0 != m[i].0);
    } else if i < j {
        assert(m[i].0 != m[j].0);
    }
}

/// Storing a value under a key of a document with unique keys: the key then
/// gives back that value, every other key gives what it gave before, the keys
/// stay unique, and the document grows by one entry exactly when the key was
/// new.
pub proof fn lemma_insert_lookup(m: Seq<(Seq<char>, FieldModel)>, k: Seq<char>, v: FieldModel)
    requires
        unique_keys(m),
    ensures
        lookup(insert_entry(m, k, v), k) == Some(v),
        forall|k2: Seq<char>| k2 != k ==> lookup(insert_entry(m, k, v), k2) == lookup(m, k2),
        unique_keys(insert_entry(m, k, v)),
        has_key(m, k) ==> insert_entry(m, k, v).len() == m.len(),
        !has_key(m, k) ==> insert_entry(m, k, v).len() == m.len() + 1,
{
    let r = insert_entry(m, k, v);
    if has_key(m, k) {
        let i = key_index(m, k);
        assert(r[i].0 == k);
        assert(unique_keys(r)) by {
            assert forall|a: int, b: int| 0 <= a < b < r.len() implies #[trigger] r[a].0
                != #[trigger] r[b].0 by {
                if a == i {
                    assert(m[b].0 != m[a].0);
                } else if b == i {
                    assert(m[a].0 != m[b].0);
                } else {
                    assert(m[a].0 != m[b].0);
                }
            }
        }
        lemma_key_index_unique(r, k, i);
        assert forall|k2: Seq<char>| k2 != k implies lookup(r, k2) == lookup(m, k2) by {
            if has_key(m, k2) {
                let j = key_index(m, k2);
                assert(j != i);
                assert(r[j] == m[j]);
                lemma_key_index_unique(r, k2, j);
            } else {
                if has_key(r, k2) {
                    let j = key_index(r, k2);
                    assert(j != i);
                    assert(m[j].0 == k2);
                }
            }
        }
    } else {
        let i = m.len() as int;
        assert(r[i].0 == k);
        assert(unique_keys(r)) by {
            assert forall|a: int, b: int| 0 <= a < b < r.len() implies #[trigger] r[a].0
                != #[trigger] r[b].0 by {
                if b == i {
                    assert(r[a] == m[a]);
                } else {
                    assert(m[a].0 != m[b].0);
                }
            }
        }
        lemma_key_index_unique(r, k, i);
        assert forall|k2: Seq<char>| k2 != k implies lookup(r, k2) == lookup(m, k2) by {
            if has_key(m, k2) {
                let j = key_index(m, k2);
                assert(r[j] == m[j]);
                lemma_key_index_unique(r, k2, j);
            } else {
                if has_key(r, k2) {
                    let j = key_index(r, k2);
                    assert(j != i);
                    assert(m[j].0 == k2);
                }
            }
        }
    }
}

} // verus!
