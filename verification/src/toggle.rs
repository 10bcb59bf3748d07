//! Rewriting the enablement overlays.
//!
//! Switching a server on or off never edits its definition; it rewrites the
//! overlay arrays: the name is removed from both arrays and re-inserted
//! into exactly the one that matches the requested state. For registered
//! servers the two arrays live in the chosen settings file; for direct
//! servers a single disabled-list lives in the direct-registration file, at
//! the root or under the selected project's entry.

use vstd::prelude::*;
use vstd::string::StringExecFns;
use crate::errors::EngineError;
use crate::json::Json;
use crate::json::JsonV;
use crate::json::clone_fields;
use crate::json::fields_view;
use crate::json::items_view;
use crate::json::json_clone;
use crate::json::lemma_fields_view;
use crate::json::lemma_fields_view_push;
use crate::json::lemma_items_view;
use crate::json::lemma_obj_index_of;
use crate::json::lemma_obj_set_get;
use crate::json::obj_index_of;
use crate::json::obj_set;
use crate::json::spec_obj_get;
use crate::json::spec_obj_has_key;
use crate::json::spec_obj_set;
use crate::json::opt_str_view;

verus! {

/// The key of the enabled-overlay in a settings file.
pub open spec fn enabled_overlay_key() -> Seq<char> {
    "enabledMcpjsonServers"@
}

/// The key of the disabled-overlay in a settings file.
pub open spec fn disabled_overlay_key() -> Seq<char> {
    "disabledMcpjsonServers"@
}

/// The key of the direct servers' disabled-list.
pub open spec fn disabled_direct_key() -> Seq<char> {
    "disabledMcpServers"@
}

/// Holds of the elements that survive removing `name` from an overlay.
pub open spec fn keeps_name(name: Seq<char>) -> spec_fn(JsonV) -> bool {
    |v: JsonV| !(v is Str && v->Str_0 == name)
}

/// Holds of the elements that are exactly the string `name`.
pub open spec fn is_name(name: Seq<char>) -> spec_fn(JsonV) -> bool {
    |v: JsonV| v is Str && v->Str_0 == name
}

/// The remove-then-conditionally-reinsert rewrite of one overlay array:
/// every occurrence of `name` leaves, and one comes back at the end when
/// `insert` asks for it. Elements that are not strings stay untouched.
pub open spec fn spec_rewrite_overlay(items: Seq<JsonV>, name: Seq<char>, insert: bool) -> Seq<
    JsonV,
> {
    let kept = items.filter(keeps_name(name));
    if insert {
        kept.push(JsonV::Str(name))
    } else {
        kept
    }
}

/// `fields` with `key` bound to an empty array when it was not bound at all.
pub open spec fn spec_ensure_key_array(
    fields: Seq<(Seq<char>, JsonV)>,
    key: Seq<char>,
) -> Seq<(Seq<char>, JsonV)> {
    if spec_obj_has_key(fields, key) {
        fields
    } else {
        spec_obj_set(fields, key, JsonV::Arr(Seq::empty()))
    }
}

/// The overlay at `key` rewritten, when `key` is bound to an array; any
/// other binding, or no binding, stays as it is.
pub open spec fn spec_rewrite_overlay_at(
    fields: Seq<(Seq<char>, JsonV)>,
    key: Seq<char>,
    name: Seq<char>,
    insert: bool,
) -> Seq<(Seq<char>, JsonV)> {
    match spec_obj_get(fields, key) {
        Some(v) => if v is Arr {
            spec_obj_set(fields, key, JsonV::Arr(spec_rewrite_overlay(v->Arr_0, name, insert)))
        } else {
            fields
        },
        None => fields,
    }
}

/// The settings fields after toggling a registered server: both overlay
/// arrays are brought into being if missing, then `name` is removed from
/// both and re-inserted into the enabled array when switching on, into the
/// disabled array when switching off.
pub open spec fn spec_toggle_fields(
    fields: Seq<(Seq<char>, JsonV)>,
    name: Seq<char>,
    enabled: bool,
) -> Seq<(Seq<char>, JsonV)> {
    let f1 = spec_ensure_key_array(fields, enabled_overlay_key());
    let f2 = spec_ensure_key_array(f1, disabled_overlay_key());
    let f3 = spec_rewrite_overlay_at(f2, enabled_overlay_key(), name, enabled);
    spec_rewrite_overlay_at(f3, disabled_overlay_key(), name, !enabled)
}

/// The rewritten overlay array, as executable code.
pub fn rewrite_overlay(items: &Vec<Json>, name: &String, insert: bool) -> (r: Vec<Json>)
    ensures
        items_view(r@) == spec_rewrite_overlay(items_view(items@), name@, insert),
{
    let ghost iv = items_view(items@);
    proof {
        lemma_items_view(items@);
    }
    let mut out: Vec<Json> = Vec::new();
    let mut i: usize = 0;
    proof {
        reveal(Seq::filter);
        assert(iv.take(0) =~= Seq::<JsonV>::empty());
        lemma_items_view(out@);
        assert(items_view(out@) =~= iv.take(0).filter(keeps_name(name@)));
    }
    while i < items.len()
        invariant
            i <= items@.len(),
            iv == items_view(items@),
            iv.len() == items@.len(),
            forall|k: int| 0 <= k < items@.len() ==> iv[k] == items@[k]@,
            items_view(out@) =~= iv.take(i as int).filter(keeps_name(name@)),
        decreases items@.len() - i,
    {
        let ghost cur = iv[i as int];
        let keep = match &items[i] {
            Json::Str(s) => !(*s == *name),
            _ => true,
        };
        if keep {
            let ghost before = out@;
            out.push(json_clone(&items[i]));
            proof {
                reveal(Seq::filter);
                assert(iv.take(i + 1).drop_last() =~= iv.take(i as int));
                assert(iv.take(i + 1).last() == cur);
                lemma_items_view(out@);
                lemma_items_view(before);
                assert(keeps_name(name@)(cur));
                assert(items_view(out@) =~= items_view(before).push(cur));
                assert(items_view(out@) =~= iv.take(i + 1).filter(keeps_name(name@)));
            }
        } else {
            proof {
                reveal(Seq::filter);
                assert(iv.take(i + 1).drop_last() =~= iv.take(i as int));
                assert(iv.take(i + 1).last() == cur);
                assert(!keeps_name(name@)(cur));
                assert(items_view(out@) =~= iv.take(i + 1).filter(keeps_name(name@)));
            }
        }
        i = i + 1;
    }
    proof {
        assert(iv.take(items@.len() as int) =~= iv);
    }
    if insert {
        let ghost before = out@;
        out.push(Json::Str(name.clone()));
        proof {
            lemma_items_view(out@);
            lemma_items_view(before);
            assert(items_view(out@) =~= items_view(before).push(JsonV::Str(name@)));
        }
    }
    out
}

/// Appends `key` bound to an empty array when no field bears `key`.
fn ensure_key_array(fields: &mut Vec<(String, Json)>, key: String)
    ensures
        fields_view(final(fields)@) == spec_ensure_key_array(fields_view(old(fields)@), key@),
{
    let ghost oldv = fields_view(old(fields)@);
    if obj_index_of(fields, &key).is_none() {
        let ghost before = fields@;
        let entry = (key, Json::Arr(Vec::new()));
        let ghost ev = entry;
        fields.push(entry);
        proof {
            lemma_fields_view_push(before, ev);
            assert(items_view(ev.1->Arr_0@) =~= Seq::<JsonV>::empty());
            assert(fields_view(fields@) =~= spec_obj_set(oldv, ev.0@, JsonV::Arr(Seq::empty())));
        }
    }
}

/// Rewrites the overlay array bound to `key` in place, when one is there.
fn rewrite_overlay_at(fields: &mut Vec<(String, Json)>, key: &String, name: &String, insert: bool)
    ensures
        fields_view(final(fields)@) == spec_rewrite_overlay_at(
            fields_view(old(fields)@),
            key@,
            name@,
            insert,
        ),
{
    let ghost oldv = fields_view(old(fields)@);
    proof {
        lemma_fields_view(fields@);
        lemma_obj_index_of(oldv, key@);
    }
    match obj_index_of(fields, key) {
        Some(i) => {
            let new_items = match &fields[i].1 {
                Json::Arr(items) => Some(rewrite_overlay(items, name, insert)),
                _ => None,
            };
            match new_items {
                Some(items) => {
                    obj_set(fields, key.clone(), Json::Arr(items));
                },
                None => {},
            }
        },
        None => {},
    }
}

/// The settings file after toggling a registered server: `name` leaves
/// both overlay arrays and re-enters exactly one. Fails when the settings
/// document is not an object.
pub fn toggle_mcp_server_state(settings: &Json, server_name: &String, enabled: bool) -> (r: Result<
    Json,
    EngineError,
>)
    ensures
        settings@ is Obj <==> r is Ok,
        r is Ok ==> r->Ok_0@ == JsonV::Obj(
            spec_toggle_fields(settings@->Obj_0, server_name@, enabled),
        ),
        r is Err ==> r->Err_0 == EngineError::MalformedInput,
{
    let base = match settings {
        Json::Obj(f) => f,
        _ => {
            return Err(EngineError::MalformedInput);
        },
    };
    let mut fields = clone_fields(base);
    ensure_key_array(&mut fields, String::from_str("enabledMcpjsonServers"));
    ensure_key_array(&mut fields, String::from_str("disabledMcpjsonServers"));
    rewrite_overlay_at(
        &mut fields,
        &String::from_str("enabledMcpjsonServers"),
        server_name,
        enabled,
    );
    rewrite_overlay_at(
        &mut fields,
        &String::from_str("disabledMcpjsonServers"),
        server_name,
        !enabled,
    );
    Ok(Json::Obj(fields))
}

/// The settings file after a registered server is deleted, when a rewrite
/// is due: its name leaves both overlay arrays, and nothing is created
/// that was not there. A missing file needs no rewrite; a file that is
/// not an object is refused.
pub open spec fn spec_remove_mcp_from_settings(
    settings: Option<JsonV>,
    name: Seq<char>,
) -> Result<Option<JsonV>, EngineError> {
    match settings {
        None => Ok(None),
        Some(f) => if f is Obj {
            Ok(
                Some(
                    JsonV::Obj(
                        spec_rewrite_overlay_at(
                            spec_rewrite_overlay_at(f->Obj_0, enabled_overlay_key(), name, false),
                            disabled_overlay_key(),
                            name,
                            false,
                        ),
                    ),
                ),
            )
        } else {
            Err(EngineError::MalformedInput)
        },
    }
}

/// The view of a conditional-rewrite result.
pub open spec fn opt_res_view(r: Result<Option<Json>, EngineError>) -> Result<
    Option<JsonV>,
    EngineError,
> {
    match r {
        Ok(w) => Ok(crate::json::opt_json_view(w)),
        Err(e) => Err(e),
    }
}

/// The settings file content to write after a registered server is
/// deleted, or nothing when the file is absent.
pub fn remove_mcp_from_settings(settings: &Option<Json>, server_name: &String) -> (r: Result<
    Option<Json>,
    EngineError,
>)
    ensures
        opt_res_view(r) == spec_remove_mcp_from_settings(
            crate::json::opt_json_view(*settings),
            server_name@,
        ),
{
    let f = match settings {
        None => {
            return Ok(None);
        },
        Some(f) => f,
    };
    let base = match f {
        Json::Obj(fields) => fields,
        _ => {
            return Err(EngineError::MalformedInput);
        },
    };
    let mut fields = clone_fields(base);
    rewrite_overlay_at(
        &mut fields,
        &String::from_str("enabledMcpjsonServers"),
        server_name,
        false,
    );
    rewrite_overlay_at(
        &mut fields,
        &String::from_str("disabledMcpjsonServers"),
        server_name,
        false,
    );
    Ok(Some(Json::Obj(fields)))
}

/// The direct file's fields with the disabled-list rewritten: the list is
/// brought into being if missing, `name` leaves it and re-enters it only
/// when the server is being switched off. A non-array binding is refused.
pub open spec fn spec_rewrite_disabled_list(
    fields: Seq<(Seq<char>, JsonV)>,
    name: Seq<char>,
    enabled: bool,
) -> Result<Seq<(Seq<char>, JsonV)>, EngineError> {
    let cur = match spec_obj_get(fields, disabled_direct_key()) {
        Some(v) => v,
        None => JsonV::Arr(Seq::empty()),
    };
    if cur is Arr {
        Ok(
            spec_obj_set(
                fields,
                disabled_direct_key(),
                JsonV::Arr(spec_rewrite_overlay(cur->Arr_0, name, !enabled)),
            ),
        )
    } else {
        Err(EngineError::MalformedInput)
    }
}

/// The direct-registration file after toggling a direct server: with no
/// project selected the root disabled-list is rewritten; with one selected,
/// the list under that project's entry is, and the entry (and the projects
/// object) is brought into being if missing. Any non-object on the way is
/// refused.
pub open spec fn spec_toggle_direct(
    c: JsonV,
    name: Seq<char>,
    enabled: bool,
    cwd: Option<Seq<char>>,
) -> Result<JsonV, EngineError> {
    if !(c is Obj) {
        Err(EngineError::MalformedInput)
    } else {
        match cwd {
            None => match spec_rewrite_disabled_list(c->Obj_0, name, enabled) {
                Ok(f) => Ok(JsonV::Obj(f)),
                Err(e) => Err(e),
            },
            Some(p) => {
                let projects = match spec_obj_get(c->Obj_0, "projects"@) {
                    Some(v) => v,
                    None => JsonV::Obj(Seq::empty()),
                };
                if !(projects is Obj) {
                    Err(EngineError::MalformedInput)
                } else {
                    let project = match spec_obj_get(projects->Obj_0, p) {
                        Some(v) => v,
                        None => JsonV::Obj(Seq::empty()),
                    };
                    if !(project is Obj) {
                        Err(EngineError::MalformedInput)
                    } else {
                        match spec_rewrite_disabled_list(project->Obj_0, name, enabled) {
                            Err(e) => Err(e),
                            Ok(pf) => {
                                let new_projects = spec_obj_set(
                                    projects->Obj_0,
                                    p,
                                    JsonV::Obj(pf),
                                );
                                Ok(
                                    JsonV::Obj(
                                        spec_obj_set(
                                            c->Obj_0,
                                            "projects"@,
                                            JsonV::Obj(new_projects),
                                        ),
                                    ),
                                )
                            },
                        }
                    }
                }
            },
        }
    }
}

/// The view of a rewritten document result.
pub open spec fn res_view(r: Result<Json, EngineError>) -> Result<JsonV, EngineError> {
    match r {
        Ok(j) => Ok(j@),
        Err(e) => Err(e),
    }
}

/// Rewrites the disabled-list among `fields` in place.
fn rewrite_disabled_list(fields: &mut Vec<(String, Json)>, name: &String, enabled: bool) -> (r:
    Result<(), EngineError>)
    ensures
        match r {
            Ok(()) => spec_rewrite_disabled_list(fields_view(old(fields)@), name@, enabled) == Ok::<
                _,
                EngineError,
            >(fields_view(final(fields)@)),
            Err(e) => spec_rewrite_disabled_list(fields_view(old(fields)@), name@, enabled)
                == Err::<Seq<(Seq<char>, JsonV)>, _>(e),
        },
{
    let ghost oldv = fields_view(old(fields)@);
    proof {
        lemma_fields_view(fields@);
        lemma_obj_index_of(oldv, disabled_direct_key());
    }
    let key = String::from_str("disabledMcpServers");
    let new_items = match obj_index_of(fields, &key) {
        Some(i) => {
            match &fields[i].1 {
                Json::Arr(items) => Some(rewrite_overlay(items, name, !enabled)),
                _ => None,
            }
        },
        None => {
            let empty: Vec<Json> = Vec::new();
            proof {
                lemma_items_view(empty@);
                assert(items_view(empty@) =~= Seq::<JsonV>::empty());
            }
            Some(rewrite_overlay(&empty, name, !enabled))
        },
    };
    match new_items {
        Some(items) => {
            obj_set(fields, key, Json::Arr(items));
            Ok(())
        },
        None => Err(EngineError::MalformedInput),
    }
}

/// The direct-registration file after toggling a direct server.
pub fn toggle_direct_mcp_server(
    agent_json: &Json,
    server_name: &String,
    enabled: bool,
    cwd: &Option<String>,
) -> (r: Result<Json, EngineError>)
    ensures
        res_view(r) == spec_toggle_direct(agent_json@, server_name@, enabled, opt_str_view(*cwd)),
{
    let base = match agent_json {
        Json::Obj(f) => f,
        _ => {
            return Err(EngineError::MalformedInput);
        },
    };
    match cwd {
        None => {
            let mut fields = clone_fields(base);
            match rewrite_disabled_list(&mut fields, server_name, enabled) {
                Ok(()) => Ok(Json::Obj(fields)),
                Err(e) => Err(e),
            }
        },
        Some(p) => {
            let projects_fields: Vec<(String, Json)> = match obj_index_of(base, &String::from_str(
                "projects",
            )) {
                None => Vec::new(),
                Some(i) => {
                    proof {
                        lemma_fields_view(base@);
                        lemma_obj_index_of(fields_view(base@), "projects"@);
                    }
                    match &base[i].1 {
                        Json::Obj(pf) => clone_fields(pf),
                        _ => {
                            return Err(EngineError::MalformedInput);
                        },
                    }
                },
            };
            proof {
                lemma_fields_view(Seq::<(String, Json)>::empty());
            }
            let mut project_fields: Vec<(String, Json)> = match obj_index_of(&projects_fields, p) {
                None => Vec::new(),
                Some(i) => {
                    proof {
                        lemma_fields_view(projects_fields@);
                        lemma_obj_index_of(fields_view(projects_fields@), p@);
                    }
                    match &projects_fields[i].1 {
                        Json::Obj(pf) => clone_fields(pf),
                        _ => {
                            return Err(EngineError::MalformedInput);
                        },
                    }
                },
            };
            match rewrite_disabled_list(&mut project_fields, server_name, enabled) {
                Err(e) => Err(e),
                Ok(()) => {
                    let mut projects2 = projects_fields;
                    obj_set(&mut projects2, p.clone(), Json::Obj(project_fields));
                    let mut fields = clone_fields(base);
                    obj_set(&mut fields, String::from_str("projects"), Json::Obj(projects2));
                    Ok(Json::Obj(fields))
                },
            }
        },
    }
}


/// The three overlay keys are pairwise distinct.
proof fn lemma_overlay_keys_distinct()
    ensures
        enabled_overlay_key() != disabled_overlay_key(),
        enabled_overlay_key() != disabled_direct_key(),
        disabled_overlay_key() != disabled_direct_key(),
{
    reveal_strlit("enabledMcpjsonServers");
    reveal_strlit("disabledMcpjsonServers");
    reveal_strlit("disabledMcpServers");
    assert(enabled_overlay_key().len() == 21);
    assert(disabled_overlay_key().len() == 22);
    assert(disabled_direct_key().len() == 18);
}

/// A filter that keeps every element changes nothing.
proof fn lemma_filter_all_id(s: Seq<JsonV>, p: spec_fn(JsonV) -> bool)
    requires
        forall|i: int| 0 <= i < s.len() ==> p(s[i]),
    ensures
        s.filter(p) == s,
    decreases s.len(),
{
    reveal(Seq::filter);
    if s.len() > 0 {
        lemma_filter_all_id(s.drop_last(), p);
        assert(s.filter(p) =~= s);
    }
}

/// A filter that keeps no element leaves nothing.
proof fn lemma_filter_none(s: Seq<JsonV>, p: spec_fn(JsonV) -> bool)
    requires
        forall|i: int| 0 <= i < s.len() ==> !p(s[i]),
    ensures
        s.filter(p) == Seq::<JsonV>::empty(),
    decreases s.len(),
{
    reveal(Seq::filter);
    if s.len() > 0 {
        lemma_filter_none(s.drop_last(), p);
        assert(s.filter(p) =~= Seq::<JsonV>::empty());
    }
}

/// Rewriting an already rewritten overlay changes nothing.
proof fn lemma_rewrite_overlay_idempotent(items: Seq<JsonV>, name: Seq<char>, insert: bool)
    ensures
        spec_rewrite_overlay(spec_rewrite_overlay(items, name, insert), name, insert)
            == spec_rewrite_overlay(items, name, insert),
{
    broadcast use vstd::seq_lib::group_filter_ensures;

    let p = keeps_name(name);
    let kept = items.filter(p);
    assert(forall|i: int| 0 <= i < kept.len() ==> p(kept[i]));
    if insert {
        let x = JsonV::Str(name);
        assert(kept.push(x) =~= kept + seq![x]);
        Seq::filter_distributes_over_add(kept, seq![x], p);
        lemma_filter_all_id(kept, p);
        lemma_filter_none(seq![x], p);
        assert(kept.push(x).filter(p) =~= kept);
    } else {
        lemma_filter_all_id(kept, p);
    }
}

/// The rewritten overlay holds `name` exactly once when it was inserted
/// and not at all when it was removed.
proof fn lemma_rewrite_overlay_count(items: Seq<JsonV>, name: Seq<char>, insert: bool)
    ensures
        spec_rewrite_overlay(items, name, insert).filter(is_name(name)).len() == if insert {
            1int
        } else {
            0int
        },
        spec_rewrite_overlay(items, name, insert).contains(JsonV::Str(name)) == insert,
{
    broadcast use vstd::seq_lib::group_filter_ensures;

    let p = keeps_name(name);
    let q = is_name(name);
    let kept = items.filter(p);
    assert(forall|i: int| 0 <= i < kept.len() ==> !q(kept[i]));
    lemma_filter_none(kept, q);
    if insert {
        let x = JsonV::Str(name);
        assert(kept.push(x) =~= kept + seq![x]);
        Seq::filter_distributes_over_add(kept, seq![x], q);
        reveal(Seq::filter);
        assert(seq![x].drop_last() =~= Seq::<JsonV>::empty());
        assert(seq![x].filter(q) =~= seq![x]);
        assert(kept.push(x).filter(q).len() == 1);
        assert(kept.push(x)[kept.len() as int] == x);
        assert(kept.push(x).contains(x));
    } else {
        if kept.contains(JsonV::Str(name)) {
            let i = choose|i: int| 0 <= i < kept.len() && kept[i] == JsonV::Str(name);
            assert(q(kept[i]));
        }
    }
}

/// Replacing a key's binding by the value it already has changes nothing.
proof fn lemma_obj_set_noop(fields: Seq<(Seq<char>, JsonV)>, key: Seq<char>, value: JsonV)
    requires
        spec_obj_get(fields, key) == Some(value),
    ensures
        spec_obj_set(fields, key, value) == fields,
{
    lemma_obj_index_of(fields, key);
    let i = crate::json::spec_obj_index_of(fields, key);
    assert(fields[i].0 == key && fields[i].1 == value);
    assert(spec_obj_set(fields, key, value) =~= fields);
}

/// What each key answers after the missing-array stage.
proof fn lemma_ensure_get(fields: Seq<(Seq<char>, JsonV)>, key: Seq<char>, probe: Seq<char>)
    ensures
        spec_obj_get(spec_ensure_key_array(fields, key), probe) == if probe == key {
            match spec_obj_get(fields, key) {
                Some(v) => Some(v),
                None => Some(JsonV::Arr(Seq::empty())),
            }
        } else {
            spec_obj_get(fields, probe)
        },
{
    if !spec_obj_has_key(fields, key) {
        lemma_obj_set_get(fields, key, JsonV::Arr(Seq::empty()), probe);
    }
}

/// What each key answers after one overlay rewrite stage.
proof fn lemma_rewrite_at_get(
    fields: Seq<(Seq<char>, JsonV)>,
    key: Seq<char>,
    name: Seq<char>,
    insert: bool,
    probe: Seq<char>,
)
    ensures
        spec_obj_get(spec_rewrite_overlay_at(fields, key, name, insert), probe) == {
            match spec_obj_get(fields, key) {
                Some(v) => if v is Arr {
                    if probe == key {
                        Some(JsonV::Arr(spec_rewrite_overlay(v->Arr_0, name, insert)))
                    } else {
                        spec_obj_get(fields, probe)
                    }
                } else {
                    spec_obj_get(fields, probe)
                },
                None => spec_obj_get(fields, probe),
            }
        },
{
    match spec_obj_get(fields, key) {
        Some(v) => {
            if v is Arr {
                lemma_obj_set_get(
                    fields,
                    key,
                    JsonV::Arr(spec_rewrite_overlay(v->Arr_0, name, insert)),
                    probe,
                );
            }
        },
        None => {},
    }
}

/// Toggle idempotence: toggling a registered server to a state it was just
/// toggled to rewrites the settings to exactly the same document.
pub proof fn lemma_toggle_fields_idempotent(
    fields: Seq<(Seq<char>, JsonV)>,
    name: Seq<char>,
    enabled: bool,
)
    ensures
        spec_toggle_fields(spec_toggle_fields(fields, name, enabled), name, enabled)
            == spec_toggle_fields(fields, name, enabled),
{
    lemma_overlay_keys_distinct();
    let ek = enabled_overlay_key();
    let dk = disabled_overlay_key();
    let f1 = spec_ensure_key_array(fields, ek);
    let f2 = spec_ensure_key_array(f1, dk);
    let f3 = spec_rewrite_overlay_at(f2, ek, name, enabled);
    let t1 = spec_rewrite_overlay_at(f3, dk, name, !enabled);

    lemma_ensure_get(fields, ek, ek);
    lemma_ensure_get(fields, ek, dk);
    lemma_ensure_get(f1, dk, ek);
    lemma_ensure_get(f1, dk, dk);
    lemma_rewrite_at_get(f2, ek, name, enabled, ek);
    lemma_rewrite_at_get(f2, ek, name, enabled, dk);
    lemma_rewrite_at_get(f3, dk, name, !enabled, ek);
    lemma_rewrite_at_get(f3, dk, name, !enabled, dk);

    let e2 = spec_obj_get(f2, ek)->Some_0;
    let d2 = spec_obj_get(f2, dk)->Some_0;

    // Both keys answer in t1, so the two ensure stages change nothing.
    assert(spec_obj_get(t1, ek) is Some);
    assert(spec_obj_get(t1, dk) is Some);
    crate::json::lemma_obj_index_of(t1, ek);
    crate::json::lemma_obj_index_of(t1, dk);
    assert(spec_ensure_key_array(t1, ek) == t1);
    assert(spec_ensure_key_array(t1, dk) == t1);

    let g3 = spec_rewrite_overlay_at(t1, ek, name, enabled);
    lemma_rewrite_at_get(t1, ek, name, enabled, ek);
    lemma_rewrite_at_get(t1, ek, name, enabled, dk);
    if e2 is Arr {
        lemma_rewrite_overlay_idempotent(e2->Arr_0, name, enabled);
        lemma_obj_set_noop(t1, ek, JsonV::Arr(spec_rewrite_overlay(e2->Arr_0, name, enabled)));
        assert(g3 == t1);
    } else {
        assert(g3 == t1);
    }
    lemma_rewrite_at_get(g3, dk, name, !enabled, dk);
    if d2 is Arr {
        lemma_rewrite_overlay_idempotent(d2->Arr_0, name, !enabled);
        lemma_obj_set_noop(t1, dk, JsonV::Arr(spec_rewrite_overlay(d2->Arr_0, name, !enabled)));
    }
}

/// Toggle membership: when both overlay keys hold arrays (or are absent),
/// the toggled settings hold `name` exactly once in the array matching the
/// requested state and not at all in the other.
pub proof fn lemma_toggle_fields_contents(
    fields: Seq<(Seq<char>, JsonV)>,
    name: Seq<char>,
    enabled: bool,
)
    requires
        spec_obj_get(fields, enabled_overlay_key()) is Some ==> spec_obj_get(
            fields,
            enabled_overlay_key(),
        )->Some_0 is Arr,
        spec_obj_get(fields, disabled_overlay_key()) is Some ==> spec_obj_get(
            fields,
            disabled_overlay_key(),
        )->Some_0 is Arr,
    ensures
        ({
            let out = spec_toggle_fields(fields, name, enabled);
            let e = spec_obj_get(out, enabled_overlay_key());
            let d = spec_obj_get(out, disabled_overlay_key());
            &&& e is Some && e->Some_0 is Arr
            &&& d is Some && d->Some_0 is Arr
            &&& e->Some_0->Arr_0.contains(JsonV::Str(name)) == enabled
            &&& d->Some_0->Arr_0.contains(JsonV::Str(name)) == !enabled
            &&& e->Some_0->Arr_0.filter(is_name(name)).len() == if enabled {
                1int
            } else {
                0int
            }
            &&& d->Some_0->Arr_0.filter(is_name(name)).len() == if enabled {
                0int
            } else {
                1int
            }
        }),
{
    lemma_overlay_keys_distinct();
    let ek = enabled_overlay_key();
    let dk = disabled_overlay_key();
    let f1 = spec_ensure_key_array(fields, ek);
    let f2 = spec_ensure_key_array(f1, dk);
    let f3 = spec_rewrite_overlay_at(f2, ek, name, enabled);

    lemma_ensure_get(fields, ek, ek);
    lemma_ensure_get(fields, ek, dk);
    lemma_ensure_get(f1, dk, ek);
    lemma_ensure_get(f1, dk, dk);
    lemma_rewrite_at_get(f2, ek, name, enabled, ek);
    lemma_rewrite_at_get(f2, ek, name, enabled, dk);
    lemma_rewrite_at_get(f3, dk, name, !enabled, ek);
    lemma_rewrite_at_get(f3, dk, name, !enabled, dk);

    let e2 = spec_obj_get(f2, ek)->Some_0;
    let d2 = spec_obj_get(f2, dk)->Some_0;
    lemma_rewrite_overlay_count(e2->Arr_0, name, enabled);
    lemma_rewrite_overlay_count(d2->Arr_0, name, !enabled);
}

} // verus!
