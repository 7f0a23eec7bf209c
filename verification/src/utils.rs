//! Helpers on configuration documents and on lists of names.
use vstd::prelude::*;
use crate::json::{self, find_key, Json, JsonEntry, JsonValue};

verus! {

/// Merges `dict2` into `dict1` recursively: objects merge member by member,
/// arrays concatenate, and otherwise `dict2` wins. Well-formed inputs (no
/// object repeats a key) give a well-formed result.
pub fn merge_dict(dict1: &JsonValue, dict2: &JsonValue) -> (r: JsonValue)
    ensures
        r@ == json::json_merge(dict1@, dict2@),
        json::json_wf(dict1@) && json::json_wf(dict2@) ==> json::json_wf(r@),
{
    let r = merge_values(dict1, dict2);
    proof {
        if json::json_wf(dict1@) && json::json_wf(dict2@) {
            law_merge_keeps_keys_distinct(dict1@, dict2@);
        }
    }
    r
}

fn merge_values(dict1: &JsonValue, dict2: &JsonValue) -> (r: JsonValue)
    ensures
        r@ == json::json_merge(dict1@, dict2@),
    decreases dict2,
{
    match dict2 {
        JsonValue::Object(map2) => {
            if !dict1.is_object() {
                return dict2.duplicate();
            }
            let copy = dict1.duplicate();
            let mut result: Vec<JsonEntry> = match copy {
                JsonValue::Object(v) => v,
                _ => Vec::new(),
            };
            let ghost m1 = dict1@->Object_0;
            let ghost m2 = json::view_entries(map2@);
            proof {
                json::lemma_view_entries(map2@);
                assert(m2.take(0) =~= Seq::<(Seq<char>, Json)>::empty());
            }
            let mut i: usize = 0;
            while i < map2.len()
                invariant
                    i <= map2.len(),
                    *dict2 == JsonValue::Object(*map2),
                    m2 == json::view_entries(map2@),
                    m2.len() == map2.len(),
                    forall|j: int| 0 <= j < map2.len() ==> #[trigger] m2[j] == (map2@[j].key@, json::json_view(map2@[j].value)),
                    json::view_entries(result@) == json::merge_entries(m1, m2.take(i as int)),
                decreases map2.len() - i,
            {
                let ghost r = json::view_entries(result@);
                proof {
                    json::lemma_view_entries(result@);
                    assert(m2.take(i + 1).drop_last() =~= m2.take(i as int));
                    assert(m2.take(i + 1).last() == m2[i as int]);
                }
                match find_key(&result, &map2[i].key) {
                    Some(idx) => {
                        proof {
                            vstd::std_specs::vec::axiom_vec_index_decreases(*map2, i as int);
                            assert(decreases_to!(*dict2 => (*dict2)->Object_0));
                            assert(decreases_to!(*map2 => map2@[i as int]));
                            assert(decreases_to!(map2@[i as int] => map2@[i as int].value));
                        }
                        let merged = merge_values(&result[idx].value, &map2[i].value);
                        let ghost before = result@;
                        result.set(idx, JsonEntry { key: map2[i].key.clone(), value: merged });
                        proof {
                            json::lemma_view_entries_update(before, idx as int, result@[idx as int]);
                        }
                    },
                    None => {
                        let c = map2[i].value.duplicate();
                        let ghost before = result@;
                        result.push(JsonEntry { key: map2[i].key.clone(), value: c });
                        proof {
                            json::lemma_view_entries_push(before, result@[before.len() as int]);
                        }
                    },
                }
                i = i + 1;
            }
            proof {
                assert(m2.take(map2.len() as int) =~= m2);
            }
            JsonValue::Object(result)
        },
        JsonValue::Array(arr2) => {
            let arr1 = match dict1 {
                JsonValue::Array(a) => a,
                _ => {
                    return dict2.duplicate();
                },
            };
            let mut out: Vec<JsonValue> = Vec::new();
            let mut i: usize = 0;
            proof {
                json::lemma_view_items(arr1@);
                json::lemma_view_items(arr2@);
            }
            while i < arr1.len()
                invariant
                    i <= arr1.len(),
                    out.len() == i,
                    forall|j: int| 0 <= j < i ==> json::json_view(#[trigger] out@[j]) == json::json_view(arr1@[j]),
                decreases arr1.len() - i,
            {
                let c = arr1[i].duplicate();
                out.push(c);
                i = i + 1;
            }
            let mut j: usize = 0;
            while j < arr2.len()
                invariant
                    j <= arr2.len(),
                    out.len() == arr1.len() + j,
                    forall|k: int| 0 <= k < arr1.len() ==> json::json_view(#[trigger] out@[k]) == json::json_view(arr1@[k]),
                    forall|k: int| 0 <= k < j ==> json::json_view(#[trigger] out@[arr1.len() + k]) == json::json_view(arr2@[k]),
                decreases arr2.len() - j,
            {
                let c = arr2[j].duplicate();
                out.push(c);
                j = j + 1;
            }
            proof {
                json::lemma_view_items(out@);
                let lhs = json::view_items(out@);
                let rhs = json::view_items(arr1@) + json::view_items(arr2@);
                assert forall|k: int| 0 <= k < lhs.len() implies lhs[k] == rhs[k] by {
                    if k < arr1.len() {
                    } else {
                        assert(json::json_view(out@[arr1.len() + (k - arr1.len())]) == json::json_view(arr2@[k - arr1.len()]));
                    }
                }
                assert(lhs =~= rhs);
            }
            JsonValue::Array(out)
        },
        _ => dict2.duplicate(),
    }
}

} // verus!

verus! {

/// Merging two well-formed objects (no object repeats a key, as every
/// constructor of this library and every parsed document keeps it) gives a
/// well-formed object: a key is in the result exactly when it is in either
/// object; a key in both holds the merge of its two values; a key in only one
/// holds that object's value.
pub proof fn law_merge_objects(dict1: Json, dict2: Json)
    requires
        dict1 is Object,
        dict2 is Object,
        json::json_wf(dict1),
        json::json_wf(dict2),
    ensures
        json::json_merge(dict1, dict2) is Object,
        json::json_wf(json::json_merge(dict1, dict2)),
        json::keys_of(json::json_merge(dict1, dict2)->Object_0) == json::keys_of(dict1->Object_0).union(json::keys_of(dict2->Object_0)),
        forall|k: Seq<char>| #[trigger] json::entries_get(json::json_merge(dict1, dict2)->Object_0, k) == match (json::entries_get(dict1->Object_0, k), json::entries_get(dict2->Object_0, k)) {
            (Some(x), Some(y)) => Some(json::json_merge(x, y)),
            (None, Some(y)) => Some(y),
            (a, None) => a,
        },
{
    law_merge_keeps_keys_distinct(dict1, dict2);
    lemma_merge_entries_lookup(dict1->Object_0, dict2->Object_0);
}

/// Looking up a key after merging entries whose second side repeats no key.
pub(crate) proof fn lemma_merge_entries_lookup(m1: json::Entries, m2: json::Entries)
    requires
        json::distinct_keys(m2),
    ensures
        json::keys_of(json::merge_entries(m1, m2)) == json::keys_of(m1).union(json::keys_of(m2)),
        forall|k: Seq<char>| #[trigger] json::entries_get(json::merge_entries(m1, m2), k) == match (json::entries_get(m1, k), json::entries_get(m2, k)) {
            (Some(x), Some(y)) => Some(json::json_merge(x, y)),
            (None, Some(y)) => Some(y),
            (a, None) => a,
        },
    decreases m2.len(),
{
    if m2.len() == 0 {
        assert(json::keys_of(m2) =~= Set::empty());
        assert(json::keys_of(m1).union(json::keys_of(m2)) =~= json::keys_of(m1));
        assert forall|k: Seq<char>| json::entries_get(m2, k) is None by {
            json::lemma_key_index(m2, k);
        }
    } else {
        let p = m2.drop_last();
        let k = m2.last().0;
        let v = m2.last().1;
        json::lemma_drop_last_lookup(m2);
        lemma_merge_entries_lookup(m1, p);
        let r = json::merge_entries(m1, p);
        let nv = match json::entries_get(r, k) {
            Some(e) => json::json_merge(e, v),
            None => v,
        };
        json::lemma_entries_insert(r, k, nv);
        assert(json::keys_of(json::merge_entries(m1, m2)) =~= json::keys_of(m1).union(json::keys_of(m2)));
        assert(json::entries_get(p, k) is None) by {
            json::lemma_key_index(p, k);
        }
    }
}

/// Merging keeps every object, at any depth, free of duplicate keys.
pub proof fn law_merge_keeps_keys_distinct(a: Json, b: Json)
    requires
        json::json_wf(a),
        json::json_wf(b),
    ensures
        json::json_wf(json::json_merge(a, b)),
    decreases b,
{
    match b {
        Json::Object(m2) => match a {
            Json::Object(m1) => {
                lemma_merge_entries_wf(m1, m2);
            },
            _ => {},
        },
        Json::Array(a2) => match a {
            Json::Array(a1) => {
                json::lemma_items_wf(a1);
                json::lemma_items_wf(a2);
                json::lemma_items_wf(a1 + a2);
                assert forall|i: int| 0 <= i < (a1 + a2).len() implies #[trigger] json::json_wf((a1 + a2)[i]) by {
                    if i >= a1.len() {
                        assert((a1 + a2)[i] == a2[i - a1.len()]);
                    }
                }
            },
            _ => {},
        },
        _ => {},
    }
}

proof fn lemma_merge_entries_wf(m1: json::Entries, m2: json::Entries)
    requires
        json::distinct_keys(m1),
        json::entries_wf(m1),
        json::distinct_keys(m2),
        json::entries_wf(m2),
    ensures
        json::distinct_keys(json::merge_entries(m1, m2)),
        json::entries_wf(json::merge_entries(m1, m2)),
    decreases m2,
{
    if m2.len() > 0 {
        let p = m2.drop_last();
        let k = m2.last().0;
        let v = m2.last().1;
        json::lemma_drop_last_lookup(m2);
        json::lemma_entries_wf(m2);
        json::lemma_entries_wf(p);
        assert forall|i: int| 0 <= i < p.len() implies #[trigger] json::json_wf(p[i].1) by {
            assert(p[i] == m2[i]);
        }
        json::lemma_entries_wf(p);
        lemma_merge_entries_wf(m1, p);
        let r = json::merge_entries(m1, p);
        assert(json::json_wf(v)) by {
            assert(m2[m2.len() - 1].1 == v);
        }
        json::lemma_entries_get_wf(r, k);
        let nv = match json::entries_get(r, k) {
            Some(e) => {
                assert(decreases_to!(m2 => m2[m2.len() - 1]));
                law_merge_keeps_keys_distinct(e, v);
                json::json_merge(e, v)
            },
            None => v,
        };
        json::lemma_entries_insert(r, k, nv);
        json::lemma_entries_insert_wf(r, k, nv);
    }
}

/// Merging an empty object into an object leaves it as it was.
pub proof fn law_merge_empty_right(m1: json::Entries)
    ensures
        json::json_merge(Json::Object(m1), Json::Object(Seq::empty())) == Json::Object(m1),
{
}

/// Merging a well-formed object into an empty object gives that object.
pub proof fn law_merge_empty_left(m2: json::Entries)
    requires
        json::json_wf(Json::Object(m2)),
    ensures
        json::json_merge(Json::Object(Seq::empty()), Json::Object(m2)) == Json::Object(m2),
    decreases m2.len(),
{
    lemma_merge_entries_from_empty(m2);
}

proof fn lemma_merge_entries_from_empty(m2: json::Entries)
    requires
        json::distinct_keys(m2),
    ensures
        json::merge_entries(Seq::empty(), m2) == m2,
    decreases m2.len(),
{
    if m2.len() > 0 {
        let p = m2.drop_last();
        json::lemma_drop_last_lookup(m2);
        lemma_merge_entries_from_empty(p);
        json::lemma_key_index(p, m2.last().0);
        assert(p.push(m2.last()) =~= m2);
    }
}

/// Arrays concatenate.
pub proof fn law_merge_arrays(a1: Seq<Json>, a2: Seq<Json>)
    ensures
        json::json_merge(Json::Array(a1), Json::Array(a2)) == Json::Array(a1 + a2),
{
}

/// When the second value is neither an object nor an array, or the two values
/// are of different kinds, the second value wins.
pub proof fn law_merge_otherwise_second(a: Json, b: Json)
    requires
        !(a is Object && b is Object),
        !(a is Array && b is Array),
    ensures
        json::json_merge(a, b) == b,
{
}

} // verus!

verus! {

/// Whether two lists of names share an item.
pub open spec fn share_item(a: Seq<String>, b: Seq<String>) -> bool {
    exists|i: int, j: int| 0 <= i < a.len() && 0 <= j < b.len() && #[trigger] a[i]@ == #[trigger] b[j]@
}

/// Whether the two lists share an item.
pub fn has_common_items(list1: &[String], list2: &[String]) -> (r: bool)
    ensures
        r == share_item(list1@, list2@),
{
    let mut i: usize = 0;
    while i < list1.len()
        invariant
            i <= list1@.len(),
            forall|a: int, b: int| 0 <= a < i && 0 <= b < list2@.len() ==> #[trigger] list1@[a]@ != #[trigger] list2@[b]@,
        decreases list1@.len() - i,
    {
        let mut j: usize = 0;
        while j < list2.len()
            invariant
                i < list1@.len(),
                j <= list2@.len(),
                forall|a: int, b: int| 0 <= a < i && 0 <= b < list2@.len() ==> #[trigger] list1@[a]@ != #[trigger] list2@[b]@,
                forall|b: int| 0 <= b < j ==> list1@[i as int]@ != #[trigger] list2@[b]@,
            decreases list2@.len() - j,
        {
            if list1[i] == list2[j] {
                assert(list1@[i as int]@ == list2@[j as int]@);
                return true;
            }
            j = j + 1;
        }
        i = i + 1;
    }
    false
}

/// Whether `target` is an item of the list.
pub fn is_included(list: &[String], target: &str) -> (r: bool)
    ensures
        r == exists|i: int| 0 <= i < list@.len() && #[trigger] list@[i]@ == target@,
{
    let t = String::from_str(target);
    let mut i: usize = 0;
    while i < list.len()
        invariant
            i <= list@.len(),
            t@ == target@,
            forall|a: int| 0 <= a < i ==> #[trigger] list@[a]@ != target@,
        decreases list@.len() - i,
    {
        if list[i] == t {
            assert(list@[i as int]@ == target@);
            return true;
        }
        i = i + 1;
    }
    false
}

/// Whether any of `targets` is an item of the list.
pub fn is_any_included(list: &[String], targets: &[String]) -> (r: bool)
    ensures
        r == share_item(list@, targets@),
{
    has_common_items(list, targets)
}

/// Sharing an item does not depend on the order of the two lists.
pub proof fn law_share_item_symmetric(a: Seq<String>, b: Seq<String>)
    ensures
        share_item(a, b) == share_item(b, a),
{
    if share_item(a, b) {
        let (i, j) = choose|i: int, j: int| 0 <= i < a.len() && 0 <= j < b.len() && #[trigger] a[i]@ == #[trigger] b[j]@;
        assert(b[j]@ == a[i]@);
    }
    if share_item(b, a) {
        let (i, j) = choose|i: int, j: int| 0 <= i < b.len() && 0 <= j < a.len() && #[trigger] b[i]@ == #[trigger] a[j]@;
        assert(a[j]@ == b[i]@);
    }
}

/// A list shares an item with another exactly when one of the other's items
/// is included in it.
pub proof fn law_share_item_is_inclusion(a: Seq<String>, b: Seq<String>)
    ensures
        share_item(a, b) == exists|j: int| 0 <= j < b.len() && exists|i: int| 0 <= i < a.len() && #[trigger] a[i]@ == (#[trigger] b[j])@,
{
    if share_item(a, b) {
        let (i, j) = choose|i: int, j: int| 0 <= i < a.len() && 0 <= j < b.len() && #[trigger] a[i]@ == #[trigger] b[j]@;
        assert(0 <= j < b.len() && exists|i: int| 0 <= i < a.len() && #[trigger] a[i]@ == (#[trigger] b[j])@);
    }
}

} // verus!
