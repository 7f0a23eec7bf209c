//! A JSON document model: the values that configuration files hold.
//!
//! `JsonValue` is the executable value; `Json` is its mathematical view.
//! Objects are sequences of entries; the functions here never create two
//! entries with the same key, and lookups find the last entry with a key.
use vstd::prelude::*;

verus! {

/// A JSON number as the JSON data model distinguishes it: a non-negative
/// integer, a negative integer, or a floating-point number carried by its
/// IEEE-754 bit pattern.
#[derive(Debug, Clone, Copy, PartialEq, Eq)]
pub enum JsonNumber {
    PosInt(u64),
    NegInt(i64),
    Float(u64),
}

/// An executable JSON value.
#[derive(Debug, PartialEq)]
pub enum JsonValue {
    Null,
    Bool(bool),
    Number(JsonNumber),
    Str(String),
    Array(Vec<JsonValue>),
    Object(Vec<JsonEntry>),
}

/// One key/value pair of a JSON object.
#[derive(Debug, PartialEq)]
pub struct JsonEntry {
    pub key: String,
    pub value: JsonValue,
}

/// The mathematical view of a JSON value.
pub enum Json {
    Null,
    Bool(bool),
    Number(JsonNumber),
    Str(Seq<char>),
    Array(Seq<Json>),
    Object(Seq<(Seq<char>, Json)>),
}

/// The entries of a JSON object, in order.
pub type Entries = Seq<(Seq<char>, Json)>;

pub open spec fn view_items(items: Seq<JsonValue>) -> Seq<Json>
    decreases items,
{
    if items.len() == 0 {
        Seq::empty()
    } else {
        seq![json_view(items[0])] + view_items(items.drop_first())
    }
}

pub open spec fn view_entries(entries: Seq<JsonEntry>) -> Entries
    decreases entries,
{
    if entries.len() == 0 {
        Seq::empty()
    } else {
        seq![(entries[0].key@, json_view(entries[0].value))] + view_entries(entries.drop_first())
    }
}

pub open spec fn json_view(v: JsonValue) -> Json
    decreases v,
{
    match v {
        JsonValue::Null => Json::Null,
        JsonValue::Bool(b) => Json::Bool(b),
        JsonValue::Number(n) => Json::Number(n),
        JsonValue::Str(s) => Json::Str(s@),
        JsonValue::Array(items) => Json::Array(view_items(items@)),
        JsonValue::Object(entries) => Json::Object(view_entries(entries@)),
    }
}

impl View for JsonValue {
    type V = Json;

    open spec fn view(&self) -> Json {
        json_view(*self)
    }
}

pub proof fn lemma_view_items(items: Seq<JsonValue>)
    ensures
        view_items(items).len() == items.len(),
        forall|i: int| 0 <= i < items.len() ==> #[trigger] view_items(items)[i] == json_view(items[i]),
    decreases items.len(),
{
    if items.len() > 0 {
        lemma_view_items(items.drop_first());
        assert forall|i: int| 0 <= i < items.len() implies #[trigger] view_items(items)[i] == json_view(items[i]) by {
            if i > 0 {
                assert(items.drop_first()[i - 1] == items[i]);
            }
        }
    }
}

pub proof fn lemma_view_entries(entries: Seq<JsonEntry>)
    ensures
        view_entries(entries).len() == entries.len(),
        forall|i: int| 0 <= i < entries.len() ==> #[trigger] view_entries(entries)[i] == (entries[i].key@, json_view(entries[i].value)),
    decreases entries.len(),
{
    if entries.len() > 0 {
        lemma_view_entries(entries.drop_first());
        assert forall|i: int| 0 <= i < entries.len() implies #[trigger] view_entries(entries)[i] == (entries[i].key@, json_view(entries[i].value)) by {
            if i > 0 {
                assert(entries.drop_first()[i - 1] == entries[i]);
            }
        }
    }
}

/// Two sequences of values with equal views element by element have equal views.
pub proof fn lemma_view_items_ext(a: Seq<JsonValue>, b: Seq<JsonValue>)
    requires
        a.len() == b.len(),
        forall|i: int| 0 <= i < a.len() ==> json_view(#[trigger] a[i]) == json_view(b[i]),
    ensures
        view_items(a) == view_items(b),
{
    lemma_view_items(a);
    lemma_view_items(b);
    assert(view_items(a) =~= view_items(b));
}

pub proof fn lemma_view_entries_ext(a: Seq<JsonEntry>, b: Seq<JsonEntry>)
    requires
        a.len() == b.len(),
        forall|i: int| 0 <= i < a.len() ==> (#[trigger] a[i]).key@ == b[i].key@ && json_view(a[i].value) == json_view(b[i].value),
    ensures
        view_entries(a) == view_entries(b),
{
    lemma_view_entries(a);
    lemma_view_entries(b);
    assert(view_entries(a) =~= view_entries(b));
}

pub proof fn lemma_view_entries_push(a: Seq<JsonEntry>, e: JsonEntry)
    ensures
        view_entries(a.push(e)) == view_entries(a).push((e.key@, json_view(e.value))),
{
    lemma_view_entries(a);
    lemma_view_entries(a.push(e));
    assert(view_entries(a.push(e)) =~= view_entries(a).push((e.key@, json_view(e.value))));
}

pub proof fn lemma_view_entries_update(a: Seq<JsonEntry>, i: int, e: JsonEntry)
    requires
        0 <= i < a.len(),
    ensures
        view_entries(a.update(i, e)) == view_entries(a).update(i, (e.key@, json_view(e.value))),
{
    lemma_view_entries(a);
    lemma_view_entries(a.update(i, e));
    assert(view_entries(a.update(i, e)) =~= view_entries(a).update(i, (e.key@, json_view(e.value))));
}

// ---------------------------------------------------------------------------
// The model: lookups and updates on object entries.

/// Index of the last entry with key `k`, or -1 when there is none.
pub open spec fn key_index(es: Entries, k: Seq<char>) -> int
    decreases es.len(),
{
    if es.len() == 0 {
        -1
    } else if es.last().0 == k {
        es.len() - 1
    } else {
        key_index(es.drop_last(), k)
    }
}

/// The keys of the entries.
pub open spec fn keys_of(es: Entries) -> Set<Seq<char>> {
    Set::new(|k: Seq<char>| exists|i: int| 0 <= i < es.len() && es[i].0 == k)
}

/// No two entries share a key.
pub open spec fn distinct_keys(es: Entries) -> bool {
    forall|i: int, j: int| 0 <= i < es.len() && 0 <= j < es.len() && i != j ==> es[i].0 != es[j].0
}

/// The value stored under `k`, if any.
pub open spec fn entries_get(es: Entries, k: Seq<char>) -> Option<Json> {
    if key_index(es, k) >= 0 {
        Some(es[key_index(es, k)].1)
    } else {
        None
    }
}

/// Stores `x` under `k`: the entry with that key is replaced in place, or a
/// new entry is appended at the end.
pub open spec fn entries_insert(es: Entries, k: Seq<char>, x: Json) -> Entries {
    if key_index(es, k) >= 0 {
        es.update(key_index(es, k), (k, x))
    } else {
        es.push((k, x))
    }
}

pub proof fn lemma_key_index(es: Entries, k: Seq<char>)
    ensures
        -1 <= key_index(es, k) < es.len(),
        key_index(es, k) >= 0 ==> es[key_index(es, k)].0 == k,
        forall|j: int| key_index(es, k) < j < es.len() ==> #[trigger] es[j].0 != k,
        key_index(es, k) == -1 <==> !keys_of(es).contains(k),
    decreases es.len(),
{
    if es.len() > 0 {
        lemma_key_index(es.drop_last(), k);
        if es.last().0 != k {
            assert forall|j: int| key_index(es, k) < j < es.len() implies #[trigger] es[j].0 != k by {
                if j < es.len() - 1 {
                    assert(es.drop_last()[j] == es[j]);
                }
            }
            if key_index(es, k) == -1 {
                assert forall|i: int| 0 <= i < es.len() implies es[i].0 != k by {
                    if i < es.len() - 1 {
                        assert(es.drop_last()[i] == es[i]);
                    }
                }
            } else {
                assert(es.drop_last()[key_index(es, k)] == es[key_index(es, k)]);
            }
        } else {
            assert(keys_of(es).contains(k)) by {
                assert(es[es.len() - 1].0 == k);
            }
        }
    }
    if key_index(es, k) >= 0 {
        assert(keys_of(es).contains(k)) by {
            assert(es[key_index(es, k)].0 == k);
        }
    }
}

pub proof fn lemma_entries_insert(es: Entries, k: Seq<char>, x: Json)
    ensures
        keys_of(entries_insert(es, k, x)) == keys_of(es).insert(k),
        entries_get(entries_insert(es, k, x), k) == Some(x),
        forall|k2: Seq<char>| k2 != k ==> #[trigger] entries_get(entries_insert(es, k, x), k2) == entries_get(es, k2),
        distinct_keys(es) ==> distinct_keys(entries_insert(es, k, x)),
{
    lemma_key_index(es, k);
    let r = entries_insert(es, k, x);
    let ki = key_index(es, k);
    assert(keys_of(r) =~= keys_of(es).insert(k)) by {
        assert forall|k2: Seq<char>| keys_of(r).contains(k2) <==> keys_of(es).insert(k).contains(k2) by {
            if keys_of(r).contains(k2) {
                let i = choose|i: int| 0 <= i < r.len() && r[i].0 == k2;
                if k2 != k {
                    assert(es[i].0 == k2);
                }
            }
            if keys_of(es).contains(k2) && k2 != k {
                let i = choose|i: int| 0 <= i < es.len() && es[i].0 == k2;
                assert(r[i].0 == k2);
            }
            if k2 == k {
                if ki >= 0 {
                    assert(r[ki].0 == k);
                } else {
                    assert(r[es.len() as int].0 == k);
                }
            }
        }
    }
    lemma_key_index(r, k);
    if ki >= 0 {
        assert(r[ki].0 == k);
    } else {
        assert(r[es.len() as int].0 == k);
    }
    assert(key_index(r, k) >= 0);
    // the last entry with key k in r is the one just written
    if ki >= 0 {
        assert(key_index(r, k) == ki) by {
            if key_index(r, k) > ki {
                assert(r[key_index(r, k)] == es[key_index(r, k)]);
            } else if key_index(r, k) < ki {
                assert(r[ki].0 == k);
            }
        }
    } else {
        assert(key_index(r, k) == es.len());
    }
    assert forall|k2: Seq<char>| k2 != k implies #[trigger] entries_get(r, k2) == entries_get(es, k2) by {
        lemma_key_index(es, k2);
        lemma_key_index(r, k2);
        let a = key_index(es, k2);
        let b = key_index(r, k2);
        if a >= 0 {
            assert(r[a].0 == k2);
            if b > a {
                assert(r[b] == es[b] || b == es.len());
            }
            assert(b == a) by {
                if b < a {
                    assert(r[a].0 == k2);
                } else if b > a {
                    if b < es.len() {
                        assert(r[b] == es[b]);
                    } else {
                        assert(r[b].0 == k);
                    }
                }
            }
        } else {
            if b >= 0 {
                if b < es.len() {
                    assert(r[b] == es[b] || (ki == b));
                    if ki == b {
                        assert(r[b].0 == k);
                    } else {
                        assert(es[b].0 == k2);
                        assert(keys_of(es).contains(k2));
                    }
                } else {
                    assert(r[b].0 == k);
                }
            }
        }
    }
    if distinct_keys(es) {
        assert forall|i: int, j: int| 0 <= i < r.len() && 0 <= j < r.len() && i != j implies r[i].0 != r[j].0 by {
            if ki >= 0 {
                if i == ki {
                    assert(es[j].0 != k);
                } else if j == ki {
                    assert(es[i].0 != k);
                }
            } else {
                if i == es.len() {
                    assert(es[j].0 != k);
                } else if j == es.len() {
                    assert(es[i].0 != k);
                }
            }
        }
    }
}

/// `value["key"]` on a JSON value: the member of an object, or null when the
/// value is not an object or has no such member.
pub open spec fn json_index(v: Json, k: Seq<char>) -> Json {
    match v {
        Json::Object(es) => match entries_get(es, k) {
            Some(x) => x,
            None => Json::Null,
        },
        _ => Json::Null,
    }
}

/// `value.as_u64()`: a non-negative integer.
pub open spec fn json_as_u64(v: Json) -> Option<u64> {
    match v {
        Json::Number(JsonNumber::PosInt(n)) => Some(n),
        _ => None,
    }
}

/// `value.as_bool()`.
pub open spec fn json_as_bool(v: Json) -> Option<bool> {
    match v {
        Json::Bool(b) => Some(b),
        _ => None,
    }
}

/// `value.as_str()`.
pub open spec fn json_as_str(v: Json) -> Option<Seq<char>> {
    match v {
        Json::Str(s) => Some(s),
        _ => None,
    }
}

/// Every object inside the value, at any depth, has distinct keys.
pub open spec fn json_wf(v: Json) -> bool
    decreases v,
{
    match v {
        Json::Object(es) => distinct_keys(es) && entries_wf(es),
        Json::Array(items) => items_wf(items),
        _ => true,
    }
}

pub open spec fn entries_wf(es: Entries) -> bool
    decreases es,
{
    if es.len() == 0 {
        true
    } else {
        json_wf(es.last().1) && entries_wf(es.drop_last())
    }
}

pub open spec fn items_wf(items: Seq<Json>) -> bool
    decreases items,
{
    if items.len() == 0 {
        true
    } else {
        json_wf(items.last()) && items_wf(items.drop_last())
    }
}

pub proof fn lemma_entries_wf(es: Entries)
    ensures
        entries_wf(es) <==> forall|i: int| 0 <= i < es.len() ==> #[trigger] json_wf(es[i].1),
    decreases es.len(),
{
    if es.len() > 0 {
        lemma_entries_wf(es.drop_last());
        if entries_wf(es) {
            assert forall|i: int| 0 <= i < es.len() implies #[trigger] json_wf(es[i].1) by {
                if i < es.len() - 1 {
                    assert(es.drop_last()[i] == es[i]);
                }
            }
        }
        if forall|i: int| 0 <= i < es.len() ==> #[trigger] json_wf(es[i].1) {
            assert forall|i: int| 0 <= i < es.drop_last().len() implies #[trigger] json_wf(es.drop_last()[i].1) by {
                assert(es.drop_last()[i] == es[i]);
            }
            assert(json_wf(es[es.len() - 1].1));
        }
    }
}

pub proof fn lemma_items_wf(items: Seq<Json>)
    ensures
        items_wf(items) <==> forall|i: int| 0 <= i < items.len() ==> #[trigger] json_wf(items[i]),
    decreases items.len(),
{
    if items.len() > 0 {
        lemma_items_wf(items.drop_last());
        if items_wf(items) {
            assert forall|i: int| 0 <= i < items.len() implies #[trigger] json_wf(items[i]) by {
                if i < items.len() - 1 {
                    assert(items.drop_last()[i] == items[i]);
                }
            }
        }
        if forall|i: int| 0 <= i < items.len() ==> #[trigger] json_wf(items[i]) {
            assert forall|i: int| 0 <= i < items.drop_last().len() implies #[trigger] json_wf(items.drop_last()[i]) by {
                assert(items.drop_last()[i] == items[i]);
            }
            assert(json_wf(items[items.len() - 1]));
        }
    }
}

/// `value["key"] = x`, as serde_json's `IndexMut` does on an object or null.
pub open spec fn json_set(v: Json, k: Seq<char>, x: Json) -> Json {
    match v {
        Json::Object(es) => Json::Object(entries_insert(es, k, x)),
        _ => Json::Object(seq![(k, x)]),
    }
}

/// The result of merging `b` into `a`: objects merge member by member (a
/// member present in both merges recursively), arrays concatenate, and any
/// other pair gives `b`.
pub open spec fn json_merge(a: Json, b: Json) -> Json
    decreases b,
{
    match b {
        Json::Object(m2) => match a {
            Json::Object(m1) => Json::Object(merge_entries(m1, m2)),
            _ => b,
        },
        Json::Array(a2) => match a {
            Json::Array(a1) => Json::Array(a1 + a2),
            _ => b,
        },
        _ => b,
    }
}

/// The entries of `m1` after each entry of `m2`, in order, is stored into it,
/// merged with the value already stored under its key.
pub open spec fn merge_entries(m1: Entries, m2: Entries) -> Entries
    decreases m2,
{
    if m2.len() == 0 {
        m1
    } else {
        let r = merge_entries(m1, m2.drop_last());
        let k = m2.last().0;
        let v = m2.last().1;
        let nv = match entries_get(r, k) {
            Some(e) => json_merge(e, v),
            None => v,
        };
        entries_insert(r, k, nv)
    }
}

/// The entries of `m1` after each entry of `m2`, in order, is stored into it,
/// replacing the value stored under its key.
pub open spec fn overwrite_entries(m1: Entries, m2: Entries) -> Entries
    decreases m2.len(),
{
    if m2.len() == 0 {
        m1
    } else {
        entries_insert(overwrite_entries(m1, m2.drop_last()), m2.last().0, m2.last().1)
    }
}

pub proof fn lemma_drop_last_lookup(es: Entries)
    requires
        es.len() > 0,
    ensures
        keys_of(es) == keys_of(es.drop_last()).insert(es.last().0),
        entries_get(es, es.last().0) == Some(es.last().1),
        forall|k: Seq<char>| k != es.last().0 ==> #[trigger] entries_get(es, k) == entries_get(es.drop_last(), k),
        distinct_keys(es) ==> distinct_keys(es.drop_last()) && !keys_of(es.drop_last()).contains(es.last().0),
{
    let p = es.drop_last();
    assert(keys_of(es) =~= keys_of(p).insert(es.last().0)) by {
        assert forall|k: Seq<char>| keys_of(es).contains(k) <==> keys_of(p).insert(es.last().0).contains(k) by {
            if keys_of(es).contains(k) {
                let i = choose|i: int| 0 <= i < es.len() && es[i].0 == k;
                if i < es.len() - 1 {
                    assert(p[i] == es[i]);
                }
            }
            if keys_of(p).contains(k) {
                let i = choose|i: int| 0 <= i < p.len() && p[i].0 == k;
                assert(es[i] == p[i]);
            }
            if k == es.last().0 {
                assert(es[es.len() - 1].0 == k);
            }
        }
    }
    assert forall|k: Seq<char>| k != es.last().0 implies #[trigger] entries_get(es, k) == entries_get(p, k) by {
        lemma_key_index(p, k);
        if key_index(p, k) >= 0 {
            assert(p[key_index(p, k)] == es[key_index(p, k)]);
        }
    }
    if distinct_keys(es) {
        assert forall|i: int, j: int| 0 <= i < p.len() && 0 <= j < p.len() && i != j implies p[i].0 != p[j].0 by {
            assert(p[i] == es[i] && p[j] == es[j]);
        }
        if keys_of(p).contains(es.last().0) {
            let i = choose|i: int| 0 <= i < p.len() && p[i].0 == es.last().0;
            assert(p[i] == es[i]);
            assert(es[i].0 == es[es.len() - 1].0);
        }
    }
}

pub proof fn lemma_entries_get_wf(es: Entries, k: Seq<char>)
    requires
        entries_wf(es),
    ensures
        entries_get(es, k) matches Some(x) ==> json_wf(x),
{
    lemma_key_index(es, k);
    lemma_entries_wf(es);
    if key_index(es, k) >= 0 {
        assert(json_wf(es[key_index(es, k)].1));
    }
}

pub proof fn lemma_entries_insert_wf(es: Entries, k: Seq<char>, x: Json)
    requires
        entries_wf(es),
        json_wf(x),
    ensures
        entries_wf(entries_insert(es, k, x)),
{
    lemma_key_index(es, k);
    lemma_entries_wf(es);
    let r = entries_insert(es, k, x);
    assert forall|i: int| 0 <= i < r.len() implies #[trigger] json_wf(r[i].1) by {
        if i < es.len() && i != key_index(es, k) {
            assert(r[i] == es[i]);
        }
    }
    lemma_entries_wf(r);
}

/// Storing a well-formed member keeps a well-formed value well-formed.
pub proof fn lemma_json_set_wf(v: Json, k: Seq<char>, x: Json)
    requires
        json_wf(v),
        json_wf(x),
    ensures
        json_wf(json_set(v, k, x)),
{
    match v {
        Json::Object(es) => {
            lemma_entries_insert(es, k, x);
            lemma_entries_insert_wf(es, k, x);
        },
        _ => {
            let es: Entries = seq![(k, x)];
            lemma_entries_wf(es);
        },
    }
}

/// A member of a well-formed value is well-formed.
pub proof fn lemma_json_index_wf(v: Json, k: Seq<char>)
    requires
        json_wf(v),
    ensures
        json_wf(json_index(v, k)),
{
    if let Json::Object(es) = v {
        lemma_entries_get_wf(es, k);
    }
}

/// Storing well-formed entries over the entries of a well-formed object
/// keeps it well-formed.
pub proof fn lemma_overwrite_entries_wf(m1: Entries, m2: Entries)
    requires
        distinct_keys(m1),
        entries_wf(m1),
        entries_wf(m2),
    ensures
        distinct_keys(overwrite_entries(m1, m2)),
        entries_wf(overwrite_entries(m1, m2)),
    decreases m2.len(),
{
    if m2.len() > 0 {
        let p = m2.drop_last();
        lemma_entries_wf(m2);
        assert forall|i: int| 0 <= i < p.len() implies #[trigger] json_wf(p[i].1) by {
            assert(p[i] == m2[i]);
        }
        lemma_entries_wf(p);
        lemma_overwrite_entries_wf(m1, p);
        assert(json_wf(m2[m2.len() - 1].1));
        lemma_entries_insert(overwrite_entries(m1, p), m2.last().0, m2.last().1);
        lemma_entries_insert_wf(overwrite_entries(m1, p), m2.last().0, m2.last().1);
    }
}

// ---------------------------------------------------------------------------
// Executable operations.

/// Index of the last entry whose key is `key`.
pub fn find_key(entries: &Vec<JsonEntry>, key: &String) -> (r: Option<usize>)
    ensures
        match r {
            Some(i) => i < entries.len() && key_index(view_entries(entries@), key@) == i,
            None => key_index(view_entries(entries@), key@) == -1,
        },
{
    proof {
        lemma_view_entries(entries@);
        lemma_key_index(view_entries(entries@), key@);
    }
    let ghost es = view_entries(entries@);
    let mut i = entries.len();
    while i > 0
        invariant
            i <= entries.len(),
            es == view_entries(entries@),
            es.len() == entries.len(),
            forall|j: int| 0 <= j < entries.len() ==> #[trigger] es[j] == (entries@[j].key@, json_view(entries@[j].value)),
            forall|j: int| i <= j < entries.len() ==> #[trigger] es[j].0 != key@,
            -1 <= key_index(es, key@) < es.len(),
            key_index(es, key@) >= 0 ==> es[key_index(es, key@)].0 == key@,
            forall|j: int| key_index(es, key@) < j < es.len() ==> #[trigger] es[j].0 != key@,
        decreases i,
    {
        i = i - 1;
        if entries[i].key == *key {
            assert(es[i as int].0 == key@);
            return Some(i);
        }
    }
    assert(key_index(es, key@) == -1) by {
        if key_index(es, key@) >= 0 {
            assert(es[key_index(es, key@)].0 == key@);
        }
    }
    None
}

impl JsonValue {
    /// An empty object, `{}`.
    pub fn new_object() -> (r: JsonValue)
        ensures
            r@ == Json::Object(Seq::empty()),
            json_wf(r@),
    {
        let v: Vec<JsonEntry> = Vec::new();
        proof {
            assert(v@ =~= Seq::<JsonEntry>::empty());
            lemma_entries_wf(Seq::empty());
        }
        JsonValue::Object(v)
    }

    /// A string value.
    pub fn from_str_value(s: &str) -> (r: JsonValue)
        ensures
            r@ == Json::Str(s@),
            json_wf(r@),
    {
        JsonValue::Str(String::from_str(s))
    }

    /// A non-negative integer value.
    pub fn from_u64(n: u64) -> (r: JsonValue)
        ensures
            r@ == Json::Number(JsonNumber::PosInt(n)),
            json_wf(r@),
    {
        JsonValue::Number(JsonNumber::PosInt(n))
    }

    /// A boolean value.
    pub fn from_bool(b: bool) -> (r: JsonValue)
        ensures
            r@ == Json::Bool(b),
            json_wf(r@),
    {
        JsonValue::Bool(b)
    }

    /// A copy with the same view.
    pub fn duplicate(&self) -> (r: JsonValue)
        ensures
            r@ == self@,
        decreases self,
    {
        match self {
            JsonValue::Null => JsonValue::Null,
            JsonValue::Bool(b) => JsonValue::Bool(*b),
            JsonValue::Number(n) => JsonValue::Number(*n),
            JsonValue::Str(s) => JsonValue::Str(s.clone()),
            JsonValue::Array(items) => {
                let mut out: Vec<JsonValue> = Vec::new();
                let mut i: usize = 0;
                while i < items.len()
                    invariant
                        i <= items.len(),
                        *self == JsonValue::Array(*items),
                        out.len() == i,
                        forall|j: int| 0 <= j < i ==> json_view(#[trigger] out@[j]) == json_view(items@[j]),
                    decreases items.len() - i,
                {
                    proof {
                        vstd::std_specs::vec::axiom_vec_index_decreases(*items, i as int);
                        assert(decreases_to!(*self => (*self)->Array_0));
                        assert(decreases_to!(*items => items@[i as int]));
                    }
                    let c = items[i].duplicate();
                    out.push(c);
                    i = i + 1;
                }
                proof {
                    lemma_view_items_ext(out@, items@);
                }
                JsonValue::Array(out)
            },
            JsonValue::Object(entries) => {
                let mut out: Vec<JsonEntry> = Vec::new();
                let mut i: usize = 0;
                while i < entries.len()
                    invariant
                        i <= entries.len(),
                        *self == JsonValue::Object(*entries),
                        out.len() == i,
                        forall|j: int| 0 <= j < i ==> (#[trigger] out@[j]).key@ == entries@[j].key@ && json_view(out@[j].value) == json_view(entries@[j].value),
                    decreases entries.len() - i,
                {
                    proof {
                        vstd::std_specs::vec::axiom_vec_index_decreases(*entries, i as int);
                        assert(decreases_to!(*self => (*self)->Object_0));
                        assert(decreases_to!(*entries => entries@[i as int]));
                        assert(decreases_to!(entries@[i as int] => entries@[i as int].value));
                    }
                    let c = entries[i].value.duplicate();
                    out.push(JsonEntry { key: entries[i].key.clone(), value: c });
                    i = i + 1;
                }
                proof {
                    lemma_view_entries_ext(out@, entries@);
                }
                JsonValue::Object(out)
            },
        }
    }

    /// The member stored under `key` when this value is an object that has one.
    pub fn get(&self, key: &str) -> (r: Option<&JsonValue>)
        ensures
            match r {
                Some(x) => self@ is Object && x@ == json_index(self@, key@)
                    && key_index(self@->Object_0, key@) >= 0,
                None => json_index(self@, key@) == Json::Null
                    && (self@ is Object ==> key_index(self@->Object_0, key@) == -1),
            },
    {
        match self {
            JsonValue::Object(entries) => {
                let k = String::from_str(key);
                proof {
                    lemma_view_entries(entries@);
                }
                match find_key(entries, &k) {
                    Some(i) => Some(&entries[i].value),
                    None => None,
                }
            },
            _ => None,
        }
    }

    /// Whether no object inside the value, at any depth, repeats a key.
    pub fn is_well_formed(&self) -> (r: bool)
        ensures
            r == json_wf(self@),
        decreases self,
    {
        match self {
            JsonValue::Array(items) => {
                proof {
                    lemma_view_items(items@);
                    lemma_items_wf(view_items(items@));
                }
                let mut i: usize = 0;
                while i < items.len()
                    invariant
                        i <= items.len(),
                        *self == JsonValue::Array(*items),
                        view_items(items@).len() == items.len(),
                        forall|j: int| 0 <= j < items.len() ==> #[trigger] view_items(items@)[j] == json_view(items@[j]),
                        items_wf(view_items(items@)) <==> forall|j: int| 0 <= j < view_items(items@).len() ==> #[trigger] json_wf(view_items(items@)[j]),
                        forall|j: int| 0 <= j < i ==> json_wf(#[trigger] json_view(items@[j])),
                    decreases items.len() - i,
                {
                    proof {
                        vstd::std_specs::vec::axiom_vec_index_decreases(*items, i as int);
                        assert(decreases_to!(*self => (*self)->Array_0));
                        assert(decreases_to!(*items => items@[i as int]));
                    }
                    if !items[i].is_well_formed() {
                        proof {
                            assert(view_items(items@)[i as int] == json_view(items@[i as int]));
                        }
                        return false;
                    }
                    i = i + 1;
                }
                proof {
                    assert forall|j: int| 0 <= j < view_items(items@).len() implies #[trigger] json_wf(view_items(items@)[j]) by {
                        assert(json_wf(json_view(items@[j])));
                    }
                }
                true
            },
            JsonValue::Object(entries) => {
                let ghost es = view_entries(entries@);
                proof {
                    lemma_view_entries(entries@);
                    lemma_entries_wf(es);
                }
                let mut i: usize = 0;
                while i < entries.len()
                    invariant
                        i <= entries.len(),
                        *self == JsonValue::Object(*entries),
                        es == view_entries(entries@),
                        es.len() == entries.len(),
                        forall|j: int| 0 <= j < entries.len() ==> #[trigger] es[j] == (entries@[j].key@, json_view(entries@[j].value)),
                        entries_wf(es) <==> forall|j: int| 0 <= j < es.len() ==> #[trigger] json_wf(es[j].1),
                        forall|j: int| #![trigger es[j]] 0 <= j < i ==> json_wf(es[j].1) && key_index(es, es[j].0) == j,
                    decreases entries.len() - i,
                {
                    proof {
                        vstd::std_specs::vec::axiom_vec_index_decreases(*entries, i as int);
                        assert(decreases_to!(*self => (*self)->Object_0));
                        assert(decreases_to!(*entries => entries@[i as int]));
                        assert(decreases_to!(entries@[i as int] => entries@[i as int].value));
                    }
                    if !entries[i].value.is_well_formed() {
                        proof {
                            assert(es[i as int].1 == json_view(entries@[i as int].value));
                        }
                        return false;
                    }
                    match find_key(entries, &entries[i].key) {
                        Some(k) => {
                            if k != i {
                                proof {
                                    lemma_key_index(es, es[i as int].0);
                                    assert(es[k as int].0 == es[i as int].0);
                                }
                                return false;
                            }
                        },
                        None => {
                            proof {
                                lemma_key_index(es, es[i as int].0);
                                assert(keys_of(es).contains(es[i as int].0));
                            }
                            return false;
                        },
                    }
                    i = i + 1;
                }
                proof {
                    assert forall|a: int, b: int| 0 <= a < es.len() && 0 <= b < es.len() && a != b implies es[a].0 != es[b].0 by {
                        assert(es[a] == es[a] && es[b] == es[b]);
                        assert(key_index(es, es[a].0) == a);
                        assert(key_index(es, es[b].0) == b);
                    }
                    assert forall|j: int| 0 <= j < es.len() implies #[trigger] json_wf(es[j].1) by {
                        assert(es[j] == es[j]);
                    }
                }
                true
            },
            _ => true,
        }
    }

    /// `value.as_u64()`.
    pub fn as_u64(&self) -> (r: Option<u64>)
        ensures
            r == json_as_u64(self@),
    {
        match self {
            JsonValue::Number(JsonNumber::PosInt(n)) => Some(*n),
            _ => None,
        }
    }

    /// `value.as_bool()`.
    pub fn as_bool(&self) -> (r: Option<bool>)
        ensures
            r == json_as_bool(self@),
    {
        match self {
            JsonValue::Bool(b) => Some(*b),
            _ => None,
        }
    }

    /// `value.as_str()`.
    pub fn as_str(&self) -> (r: Option<&str>)
        ensures
            match r {
                Some(s) => json_as_str(self@) == Some(s@),
                None => json_as_str(self@) is None,
            },
    {
        match self {
            JsonValue::Str(s) => Some(s.as_str()),
            _ => None,
        }
    }

    /// `value.is_object()`.
    pub fn is_object(&self) -> (r: bool)
        ensures
            r == (self@ is Object),
    {
        match self {
            JsonValue::Object(_) => true,
            _ => false,
        }
    }

    /// `value[key] = x` on an object (or on null, which becomes an object).
    pub fn set_field(&mut self, key: &str, x: JsonValue)
        requires
            old(self)@ is Object || old(self)@ is Null,
        ensures
            final(self)@ == json_set(old(self)@, key@, x@),
            json_wf(old(self)@) && json_wf(x@) ==> json_wf(final(self)@),
    {
        proof {
            if json_wf(self@) && json_wf(x@) {
                lemma_json_set_wf(self@, key@, x@);
            }
        }
        let k = String::from_str(key);
        if let JsonValue::Object(entries) = self {
            proof {
                lemma_view_entries(entries@);
            }
            match find_key(entries, &k) {
                Some(i) => {
                    let ghost before = entries@;
                    entries.set(i, JsonEntry { key: k, value: x });
                    proof {
                        lemma_view_entries_update(before, i as int, entries@[i as int]);
                    }
                },
                None => {
                    let ghost before = entries@;
                    entries.push(JsonEntry { key: k, value: x });
                    proof {
                        lemma_view_entries_push(before, entries@[before.len() as int]);
                    }
                },
            }
        } else {
            let mut v: Vec<JsonEntry> = Vec::new();
            v.push(JsonEntry { key: k, value: x });
            proof {
                lemma_view_entries_push(Seq::empty(), v@[0]);
                assert(v@ =~= Seq::<JsonEntry>::empty().push(v@[0]));
                assert(view_entries(Seq::<JsonEntry>::empty()) =~= Seq::empty());
            }
            *self = JsonValue::Object(v);
        }
    }
}

} // verus!

verus! {

/// What a read gives back of a write: after `value[k] = x`, reading `k` gives
/// `x`, and reading any other key gives what it gave before.
pub proof fn law_set_then_get(v: Json, k: Seq<char>, x: Json, k2: Seq<char>)
    requires
        v is Object || v is Null,
    ensures
        json_index(json_set(v, k, x), k) == x,
        k2 != k ==> json_index(json_set(v, k, x), k2) == json_index(v, k2),
{
    match v {
        Json::Object(es) => {
            lemma_entries_insert(es, k, x);
        },
        _ => {
            let es: Entries = seq![(k, x)];
            lemma_key_index(es, k);
            lemma_key_index(es, k2);
            assert(es.drop_last() =~= Seq::<(Seq<char>, Json)>::empty());
            if k2 != k {
                assert(key_index(es.drop_last(), k2) == -1);
            }
        },
    }
}

} // verus!
