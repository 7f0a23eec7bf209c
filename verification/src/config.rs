//! The configuration document: its defaults, how an older layout is
//! upgraded, how a stored document is merged over the defaults, and how
//! settings are written into it.
use vstd::prelude::*;
use crate::json::{self, Json, JsonEntry, JsonValue};
use crate::utils::merge_dict;

verus! {

/// `{"system": {}}`, the document used when there is none.
pub open spec fn empty_config_view() -> Json {
    Json::Object(seq![("system"@, Json::Object(Seq::empty()))])
}

/// `{"system": {}}`.
pub fn empty_config() -> (r: JsonValue)
    ensures
        r@ == empty_config_view(),
        json::json_wf(r@),
{
    let mut v: Vec<JsonEntry> = Vec::new();
    v.push(JsonEntry { key: String::from_str("system"), value: JsonValue::new_object() });
    proof {
        json::lemma_view_entries(v@);
        assert(json::view_entries(v@) =~= empty_config_view()->Object_0);
        lemma_single_entry_wf("system"@, Json::Object(Seq::empty()));
    }
    JsonValue::Object(v)
}

/// `{"system": x}`.
pub fn wrap_system(x: JsonValue) -> (r: JsonValue)
    ensures
        r@ == Json::Object(seq![("system"@, x@)]),
        json::json_wf(x@) ==> json::json_wf(r@),
{
    let mut v: Vec<JsonEntry> = Vec::new();
    v.push(JsonEntry { key: String::from_str("system"), value: x });
    proof {
        json::lemma_view_entries(v@);
        assert(json::view_entries(v@) =~= seq![("system"@, v@[0].value@)]);
        if json::json_wf(v@[0].value@) {
            lemma_single_entry_wf("system"@, v@[0].value@);
        }
    }
    JsonValue::Object(v)
}

/// A document in the older layout keeps its settings under `auto`; it is
/// moved under `system`. Any other document is kept.
pub open spec fn upgraded(config: Json) -> Json {
    if config is Object && json::key_index(config->Object_0, "auto"@) >= 0 {
        Json::Object(seq![("system"@, json::json_index(config, "auto"@))])
    } else {
        config
    }
}

/// Upgrades a document from the older layout.
pub fn upgrade_config(config: JsonValue) -> (r: JsonValue)
    ensures
        r@ == upgraded(config@),
        json::json_wf(config@) ==> json::json_wf(r@),
{
    proof {
        if json::json_wf(config@) {
            lemma_upgraded_wf(config@);
        }
    }
    let auto = match config.get("auto") {
        Some(a) => Some(a.duplicate()),
        None => None,
    };
    match auto {
        Some(a) => wrap_system(a),
        None => config,
    }
}

/// The document built from a variant's defaults: `{"system": defaults}` with
/// `debug_level` set to `INFO`.
pub open spec fn default_config(defaults: Json) -> Json {
    Json::Object(seq![("system"@, json::json_set(defaults, "debug_level"@, Json::Str("INFO"@)))])
}

/// The configuration in force: the defaults, with the stored document (once
/// upgraded) merged over them when there is one.
pub open spec fn built_config(defaults: Json, stored: Option<Json>) -> Json {
    match stored {
        Some(s) => json::json_merge(default_config(defaults), upgraded(s)),
        None => default_config(defaults),
    }
}

/// Builds the configuration in force from a variant's default `system`
/// settings and the stored document, if the file held one.
pub fn build_config(defaults: JsonValue, stored: Option<JsonValue>) -> (r: JsonValue)
    requires
        defaults@ is Object || defaults@ is Null,
    ensures
        r@ == built_config(defaults@, match stored { Some(s) => Some(s@), None => None }),
        json::json_wf(defaults@) && (stored matches Some(s) ==> json::json_wf(s@)) ==> json::json_wf(r@),
{
    let mut sys = defaults;
    sys.set_field("debug_level", JsonValue::from_str_value("INFO"));
    proof {
        reveal_strlit("INFO");
    }
    let config = wrap_system(sys);
    match stored {
        Some(s) => {
            let up = upgrade_config(s);
            merge_dict(&config, &up)
        },
        None => config,
    }
}

/// `config["system"][key]`.
pub open spec fn system_setting(config: Json, key: Seq<char>) -> Json {
    json::json_index(json::json_index(config, "system"@), key)
}

/// `config["system"][key]`, when present.
pub fn get_system_setting<'a>(config: &'a JsonValue, key: &str) -> (r: Option<&'a JsonValue>)
    ensures
        match r {
            Some(x) => x@ == system_setting(config@, key@),
            None => system_setting(config@, key@) == Json::Null,
        },
{
    match config.get("system") {
        Some(sys) => sys.get(key),
        None => None,
    }
}

/// The configured debug level: `system.debug_level` when it is a string,
/// else `INFO`.
pub fn configured_debug_level(config: &JsonValue) -> (r: String)
    ensures
        r@ == match json::json_as_str(system_setting(config@, "debug_level"@)) {
            Some(s) => s,
            None => "INFO"@,
        },
{
    match get_system_setting(config, "debug_level") {
        Some(v) => match v.as_str() {
            Some(s) => String::from_str(s),
            None => String::from_str("INFO"),
        },
        None => String::from_str("INFO"),
    }
}

/// The document after writing new `system` settings into it: when both
/// documents hold a `system` object, each new setting replaces or joins the
/// current ones; otherwise the document is kept.
pub open spec fn updated_config(current: Json, new_config: Json) -> Json {
    let cur_sys = json::json_index(current, "system"@);
    let new_sys = json::json_index(new_config, "system"@);
    if current is Object && json::key_index(current->Object_0, "system"@) >= 0 && cur_sys is Object && new_sys is Object {
        json::json_set(current, "system"@, Json::Object(json::overwrite_entries(cur_sys->Object_0, new_sys->Object_0)))
    } else {
        current
    }
}

/// Writes the `system` settings of `new_config` into `current`.
pub fn update_system_config(current: JsonValue, new_config: &JsonValue) -> (r: JsonValue)
    ensures
        r@ == updated_config(current@, new_config@),
        json::json_wf(current@) && json::json_wf(new_config@) ==> json::json_wf(r@),
{
    proof {
        if json::json_wf(current@) && json::json_wf(new_config@) {
            lemma_updated_config_wf(current@, new_config@);
        }
    }
    let new_entries = match new_config.get("system") {
        Some(JsonValue::Object(es)) => es,
        _ => {
            return current;
        },
    };
    let mut cur_sys = match current.get("system") {
        Some(s) => {
            if !s.is_object() {
                return current;
            }
            s.duplicate()
        },
        None => {
            return current;
        },
    };
    let ghost start = cur_sys@->Object_0;
    let ghost ne = json::view_entries(new_entries@);
    proof {
        json::lemma_view_entries(new_entries@);
        assert(ne.take(0) =~= Seq::<(Seq<char>, Json)>::empty());
    }
    let mut i: usize = 0;
    while i < new_entries.len()
        invariant
            i <= new_entries.len(),
            ne == json::view_entries(new_entries@),
            ne.len() == new_entries.len(),
            forall|j: int| 0 <= j < new_entries.len() ==> #[trigger] ne[j] == (new_entries@[j].key@, json::json_view(new_entries@[j].value)),
            cur_sys@ == Json::Object(json::overwrite_entries(start, ne.take(i as int))),
        decreases new_entries.len() - i,
    {
        proof {
            assert(ne.take(i + 1).drop_last() =~= ne.take(i as int));
            assert(ne.take(i + 1).last() == ne[i as int]);
        }
        let v = new_entries[i].value.duplicate();
        cur_sys.set_field(new_entries[i].key.as_str(), v);
        i = i + 1;
    }
    proof {
        assert(ne.take(new_entries.len() as int) =~= ne);
    }
    let mut out = current;
    out.set_field("system", cur_sys);
    out
}

} // verus!

verus! {

/// Writing settings over others: a key is present afterwards exactly when it
/// was present in either; a written key holds the written value, and every
/// other key keeps its value.
pub proof fn law_overwrite_entries(m1: json::Entries, m2: json::Entries)
    requires
        json::json_wf(Json::Object(m2)),
    ensures
        json::keys_of(json::overwrite_entries(m1, m2)) == json::keys_of(m1).union(json::keys_of(m2)),
        forall|k: Seq<char>| #[trigger] json::entries_get(json::overwrite_entries(m1, m2), k) == match json::entries_get(m2, k) {
            Some(y) => Some(y),
            None => json::entries_get(m1, k),
        },
    decreases m2.len(),
{
    if m2.len() == 0 {
        assert(json::keys_of(m2) =~= Set::empty());
        assert(json::keys_of(m1).union(json::keys_of(m2)) =~= json::keys_of(m1));
        assert forall|k: Seq<char>| json::entries_get(m2, k) is None by {
            json::lemma_key_index(m2, k);
        }
    } else {
        let p = m2.drop_last();
        json::lemma_drop_last_lookup(m2);
        law_overwrite_entries(m1, p);
        json::lemma_entries_insert(json::overwrite_entries(m1, p), m2.last().0, m2.last().1);
        assert(json::keys_of(json::overwrite_entries(m1, m2)) =~= json::keys_of(m1).union(json::keys_of(m2)));
    }
}

/// Upgrading a document twice is upgrading it once.
pub proof fn law_upgrade_idempotent(config: Json)
    ensures
        upgraded(upgraded(config)) == upgraded(config),
{
    if config is Object && json::key_index(config->Object_0, "auto"@) >= 0 {
        let es: json::Entries = seq![("system"@, json::json_index(config, "auto"@))];
        reveal_strlit("system");
        reveal_strlit("auto");
        assert(es.last().0 != "auto"@) by {
            assert(es.last().0[0] != "auto"@[0]);
        }
        assert(es.drop_last() =~= Seq::<(Seq<char>, Json)>::empty());
        assert(json::key_index(es.drop_last(), "auto"@) == -1);
        assert(json::key_index(es, "auto"@) == -1);
    }
}

/// Written settings read back: after an update, each setting of the new
/// `system` object holds its new value and every other setting keeps the
/// value it had.
pub proof fn law_update_reads_back(current: Json, new_config: Json, k: Seq<char>)
    requires
        current is Object,
        json::key_index(current->Object_0, "system"@) >= 0,
        json::json_index(current, "system"@) is Object,
        json::json_index(new_config, "system"@) is Object,
        json::json_wf(new_config),
    ensures
        system_setting(updated_config(current, new_config), k) == match json::entries_get(json::json_index(new_config, "system"@)->Object_0, k) {
            Some(y) => y,
            None => system_setting(current, k),
        },
{
    let cur_sys = json::json_index(current, "system"@)->Object_0;
    let new_sys = json::json_index(new_config, "system"@)->Object_0;
    json::lemma_json_index_wf(new_config, "system"@);
    law_overwrite_entries(cur_sys, new_sys);
    json::lemma_entries_insert(current->Object_0, "system"@, Json::Object(json::overwrite_entries(cur_sys, new_sys)));
}

/// The configuration in force reads back the stored settings over the
/// defaults: every default setting and every stored setting is present; a
/// setting stored in the file holds the stored value merged over the default
/// (the stored value itself unless both are objects or both arrays), and a
/// setting only in the defaults holds the default.
pub proof fn law_stored_settings_override_defaults(defaults: Json, stored: Json, k: Seq<char>)
    requires
        defaults is Object,
        upgraded(stored) is Object,
        json::json_index(upgraded(stored), "system"@) is Object,
        json::json_wf(stored),
    ensures
        ({
            let sys = json::json_index(built_config(defaults, Some(stored)), "system"@);
            let d = json::json_set(defaults, "debug_level"@, Json::Str("INFO"@))->Object_0;
            let s = json::json_index(upgraded(stored), "system"@)->Object_0;
            &&& sys is Object
            &&& json::keys_of(sys->Object_0) == json::keys_of(d).union(json::keys_of(s))
            &&& json::entries_get(sys->Object_0, k) == match (json::entries_get(d, k), json::entries_get(s, k)) {
                (Some(x), Some(y)) => Some(json::json_merge(x, y)),
                (None, Some(y)) => Some(y),
                (a, None) => a,
            }
        }),
{
    let dc = default_config(defaults);
    let top1 = dc->Object_0;
    let up = upgraded(stored);
    let top2 = up->Object_0;
    let d_sys = json::json_set(defaults, "debug_level"@, Json::Str("INFO"@));
    lemma_upgraded_wf(stored);
    json::lemma_json_index_wf(up, "system"@);
    crate::utils::lemma_merge_entries_lookup(top1, top2);
    json::lemma_key_index(top2, "system"@);
    assert(top1.drop_last() =~= Seq::<(Seq<char>, Json)>::empty());
    assert(json::entries_get(top1, "system"@) == Some(d_sys));
    crate::utils::lemma_merge_entries_lookup(d_sys->Object_0, json::json_index(up, "system"@)->Object_0);
}

/// An object of one entry with a well-formed value is well-formed.
proof fn lemma_single_entry_wf(k: Seq<char>, x: Json)
    requires
        json::json_wf(x),
    ensures
        json::json_wf(Json::Object(seq![(k, x)])),
{
    json::lemma_entries_wf(seq![(k, x)]);
}

/// Upgrading keeps a document well-formed.
proof fn lemma_upgraded_wf(config: Json)
    requires
        json::json_wf(config),
    ensures
        json::json_wf(upgraded(config)),
{
    if config is Object && json::key_index(config->Object_0, "auto"@) >= 0 {
        json::lemma_json_index_wf(config, "auto"@);
        lemma_single_entry_wf("system"@, json::json_index(config, "auto"@));
    }
}

/// Writing settings keeps a document well-formed.
proof fn lemma_updated_config_wf(current: Json, new_config: Json)
    requires
        json::json_wf(current),
        json::json_wf(new_config),
    ensures
        json::json_wf(updated_config(current, new_config)),
{
    let cur_sys = json::json_index(current, "system"@);
    let new_sys = json::json_index(new_config, "system"@);
    if current is Object && json::key_index(current->Object_0, "system"@) >= 0 && cur_sys is Object && new_sys is Object {
        json::lemma_json_index_wf(current, "system"@);
        json::lemma_json_index_wf(new_config, "system"@);
        json::lemma_overwrite_entries_wf(cur_sys->Object_0, new_sys->Object_0);
        json::lemma_json_set_wf(current, "system"@, Json::Object(json::overwrite_entries(cur_sys->Object_0, new_sys->Object_0)));
    }
}

} // verus!
