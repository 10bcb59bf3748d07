//! The on-disk forms of the engine's own files.
//!
//! The profile collection and the install manifest are each owned by one
//! backing JSON file; every operation re-reads it, works on the decoded
//! structure, and writes the whole encoded structure back. Decoding is
//! strict: a document of the wrong shape is a fatal parse error, while an
//! absent file reads as the empty default.
//! Timestamps are bounded by the encoding's signed numbers; values beyond
//! that range do not arise from the clock.

use vstd::prelude::*;
use vstd::string::StringExecFns;
use crate::errors::EngineError;
use crate::json::Json;
use crate::json::JsonV;
use crate::json::fields_view;
use crate::json::items_view;
use crate::json::json_clone;
use crate::json::lemma_fields_view;
use crate::json::lemma_items_view;
use crate::json::obj_get;
use crate::json::opt_json_view;
use crate::json::spec_get;
use crate::json::strs_view;
use crate::packs::InstalledSecurityPackItem;
use crate::packs::InstalledSecurityPackItemV;
use crate::packs::InstalledSecurityPacksFile;
use crate::packs::items_v;
use crate::profiles::ConfigStore;
use crate::profiles::ConfigStoreV;
use crate::profiles::NotificationSettings;
use crate::profiles::NotificationSettingsV;
use crate::profiles::StoresData;
use crate::profiles::StoresDataV;
use crate::profiles::stores_view;

verus! {

/// The document form of one snapshot.
pub open spec fn spec_store_to_json(s: ConfigStoreV) -> JsonV
    recommends
        s.created_at <= i64::MAX as u64,
{
    JsonV::Obj(
        seq![
            ("id"@, JsonV::Str(s.id)),
            ("title"@, JsonV::Str(s.title)),
            ("createdAt"@, JsonV::Int(s.created_at as int)),
            ("settings"@, s.settings),
            ("using"@, JsonV::Bool(s.using)),
        ],
    )
}

/// The document form of the notification settings.
pub open spec fn spec_notification_to_json(n: NotificationSettingsV) -> JsonV {
    JsonV::Obj(
        seq![
            ("enable"@, JsonV::Bool(n.enable)),
            (
                "enabled_hooks"@,
                JsonV::Arr(Seq::new(n.enabled_hooks.len(), |i: int| JsonV::Str(n.enabled_hooks[i]))),
            ),
        ],
    )
}

/// The document form of the whole collection, absent parts encoded as null.
pub open spec fn spec_stores_to_json(d: StoresDataV) -> JsonV {
    JsonV::Obj(
        seq![
            (
                "configs"@,
                JsonV::Arr(Seq::new(d.configs.len(), |i: int| spec_store_to_json(d.configs[i]))),
            ),
            (
                "distinct_id"@,
                match d.distinct_id {
                    Some(s) => JsonV::Str(s),
                    None => JsonV::Null,
                },
            ),
            (
                "notification"@,
                match d.notification {
                    Some(n) => spec_notification_to_json(n),
                    None => JsonV::Null,
                },
            ),
        ],
    )
}

fn store_to_json(s: &ConfigStore) -> (r: Json)
    requires
        s.created_at <= i64::MAX as u64,
    ensures
        r@ == spec_store_to_json(s@),
{
    let mut fields: Vec<(String, Json)> = Vec::new();
    fields.push((String::from_str("id"), Json::Str(s.id.clone())));
    fields.push((String::from_str("title"), Json::Str(s.title.clone())));
    fields.push((String::from_str("createdAt"), Json::Int(s.created_at as i64)));
    fields.push((String::from_str("settings"), json_clone(&s.settings)));
    fields.push((String::from_str("using"), Json::Bool(s.using)));
    proof {
        lemma_fields_view(fields@);
        assert(fields_view(fields@) =~= spec_store_to_json(s@)->Obj_0);
    }
    Json::Obj(fields)
}

fn notification_to_json(n: &NotificationSettings) -> (r: Json)
    ensures
        r@ == spec_notification_to_json(n@),
{
    let mut hooks: Vec<Json> = Vec::new();
    let mut i: usize = 0;
    while i < n.enabled_hooks.len()
        invariant
            i <= n.enabled_hooks@.len(),
            hooks@.len() == i,
            forall|k: int| 0 <= k < i ==> (#[trigger] hooks@[k])@ == JsonV::Str(
                n.enabled_hooks@[k]@,
            ),
        decreases n.enabled_hooks@.len() - i,
    {
        hooks.push(Json::Str(n.enabled_hooks[i].clone()));
        i = i + 1;
    }
    let mut fields: Vec<(String, Json)> = Vec::new();
    fields.push((String::from_str("enable"), Json::Bool(n.enable)));
    fields.push((String::from_str("enabled_hooks"), Json::Arr(hooks)));
    proof {
        lemma_fields_view(fields@);
        lemma_items_view(hooks@);
        assert(items_view(hooks@) =~= Seq::new(
            n@.enabled_hooks.len(),
            |i: int| JsonV::Str(n@.enabled_hooks[i]),
        ));
        assert(fields_view(fields@) =~= spec_notification_to_json(n@)->Obj_0);
    }
    Json::Obj(fields)
}

/// The document to persist as the collection's backing file.
pub fn stores_to_json(d: &StoresData) -> (r: Json)
    requires
        forall|i: int|
            0 <= i < d.configs@.len() ==> (#[trigger] d.configs@[i]).created_at <= i64::MAX as u64,
    ensures
        r@ == spec_stores_to_json(d@),
{
    let mut configs: Vec<Json> = Vec::new();
    let mut i: usize = 0;
    while i < d.configs.len()
        invariant
            i <= d.configs@.len(),
            configs@.len() == i,
            forall|k: int|
                0 <= k < d.configs@.len() ==> (#[trigger] d.configs@[k]).created_at <= i64::MAX
                    as u64,
            forall|k: int| 0 <= k < i ==> (#[trigger] configs@[k])@ == spec_store_to_json(
                d.configs@[k]@,
            ),
        decreases d.configs@.len() - i,
    {
        configs.push(store_to_json(&d.configs[i]));
        i = i + 1;
    }
    let mut fields: Vec<(String, Json)> = Vec::new();
    fields.push((String::from_str("configs"), Json::Arr(configs)));
    let id_json = match &d.distinct_id {
        Some(s) => Json::Str(s.clone()),
        None => Json::Null,
    };
    fields.push((String::from_str("distinct_id"), id_json));
    let notif_json = match &d.notification {
        Some(n) => notification_to_json(n),
        None => Json::Null,
    };
    fields.push((String::from_str("notification"), notif_json));
    proof {
        lemma_fields_view(fields@);
        lemma_items_view(configs@);
        assert(items_view(configs@) =~= Seq::new(
            d@.configs.len(),
            |i: int| spec_store_to_json(d@.configs[i]),
        ));
        assert(fields_view(fields@) =~= spec_stores_to_json(d@)->Obj_0);
    }
    Json::Obj(fields)
}

/// One decoded snapshot, or nothing when the document lacks the shape: an
/// object with string `id` and `title`, a nonnegative integral
/// `createdAt`, any `settings`, and a boolean `using`.
pub open spec fn spec_store_of_json(v: JsonV) -> Option<ConfigStoreV> {
    if !(v is Obj) {
        None
    } else {
        let id = spec_get(v, "id"@);
        let title = spec_get(v, "title"@);
        let created = spec_get(v, "createdAt"@);
        let settings = spec_get(v, "settings"@);
        let using = spec_get(v, "using"@);
        if (id matches Some(i) && i is Str) && (title matches Some(t) && t is Str) && (
        created matches Some(c) && c is Int && c->Int_0 >= 0) && settings is Some && (
        using matches Some(u) && u is Bool) {
            Some(
                ConfigStoreV {
                    id: id->Some_0->Str_0,
                    title: title->Some_0->Str_0,
                    created_at: created->Some_0->Int_0 as u64,
                    settings: settings->Some_0,
                    using: using->Some_0->Bool_0,
                },
            )
        } else {
            None
        }
    }
}

fn store_of_json(v: &Json) -> (r: Option<ConfigStore>)
    ensures
        match r {
            Some(s) => spec_store_of_json(v@) == Some(s@),
            None => spec_store_of_json(v@) is None,
        },
{
    let id = match obj_get(v, &String::from_str("id")) {
        Some(Json::Str(s)) => s.clone(),
        _ => {
            return None;
        },
    };
    let title = match obj_get(v, &String::from_str("title")) {
        Some(Json::Str(s)) => s.clone(),
        _ => {
            return None;
        },
    };
    let created_at: u64 = match obj_get(v, &String::from_str("createdAt")) {
        Some(Json::Int(n)) => {
            if *n >= 0 {
                *n as u64
            } else {
                return None;
            }
        },
        _ => {
            return None;
        },
    };
    let settings = match obj_get(v, &String::from_str("settings")) {
        Some(s) => json_clone(s),
        None => {
            return None;
        },
    };
    let using = match obj_get(v, &String::from_str("using")) {
        Some(Json::Bool(b)) => *b,
        _ => {
            return None;
        },
    };
    proof {
        if !(v@ is Obj) {
            assert(spec_get(v@, "id"@) is None);
        }
    }
    Some(ConfigStore { id, title, created_at, settings, using })
}

/// The decoded snapshot list, or nothing when any element lacks the shape.
pub open spec fn spec_stores_of_json(items: Seq<JsonV>) -> Option<Seq<ConfigStoreV>> {
    if forall|i: int| 0 <= i < items.len() ==> (#[trigger] spec_store_of_json(items[i])) is Some {
        Some(Seq::new(items.len(), |i: int| spec_store_of_json(items[i])->Some_0))
    } else {
        None
    }
}

/// The decoded notification settings, or nothing when the document lacks
/// the shape: an object with a boolean `enable` and an `enabled_hooks`
/// array of strings alone.
pub open spec fn spec_notification_of_json(v: JsonV) -> Option<NotificationSettingsV> {
    if !(v is Obj) {
        None
    } else {
        let enable = spec_get(v, "enable"@);
        let hooks = spec_get(v, "enabled_hooks"@);
        if (enable matches Some(e) && e is Bool) && (hooks matches Some(h) && h is Arr) && (
        forall|i: int|
            0 <= i < hooks->Some_0->Arr_0.len() ==> (#[trigger] hooks->Some_0->Arr_0[i]) is Str) {
            Some(
                NotificationSettingsV {
                    enable: enable->Some_0->Bool_0,
                    enabled_hooks: Seq::new(
                        hooks->Some_0->Arr_0.len(),
                        |i: int| hooks->Some_0->Arr_0[i]->Str_0,
                    ),
                },
            )
        } else {
            None
        }
    }
}

#[verifier::loop_isolation(false)]
fn notification_of_json(v: &Json) -> (r: Option<NotificationSettings>)
    ensures
        match r {
            Some(n) => spec_notification_of_json(v@) == Some(n@),
            None => spec_notification_of_json(v@) is None,
        },
{
    let enable = match obj_get(v, &String::from_str("enable")) {
        Some(Json::Bool(b)) => *b,
        _ => {
            proof {
                if !(v@ is Obj) {
                    assert(spec_get(v@, "enable"@) is None);
                }
            }
            return None;
        },
    };
    let hooks_arr = match obj_get(v, &String::from_str("enabled_hooks")) {
        Some(Json::Arr(items)) => items,
        _ => {
            return None;
        },
    };
    let ghost hv = items_view(hooks_arr@);
    proof {
        lemma_items_view(hooks_arr@);
    }
    let mut hooks: Vec<String> = Vec::new();
    let mut i: usize = 0;
    while i < hooks_arr.len()
        invariant
            i <= hooks_arr@.len(),
            hv == items_view(hooks_arr@),
            hv.len() == hooks_arr@.len(),
            forall|k: int| 0 <= k < hooks_arr@.len() ==> hv[k] == hooks_arr@[k]@,
            hooks@.len() == i,
            forall|k: int| 0 <= k < i ==> #[trigger] hv[k] is Str,
            forall|k: int| 0 <= k < i ==> (#[trigger] hooks@[k])@ == hv[k]->Str_0,
            v@ is Obj,
            spec_get(v@, "enable"@) == Some(JsonV::Bool(enable)),
            spec_get(v@, "enabled_hooks"@) == Some(JsonV::Arr(hv)),
        decreases hooks_arr@.len() - i,
    {
        let ghost before = hooks@;
        match &hooks_arr[i] {
            Json::Str(s) => {
                hooks.push(s.clone());
                proof {
                    assert(hv[i as int] == JsonV::Str(s@));
                    assert forall|k: int|
                        0 <= k < i + 1 implies hv[k] is Str && (#[trigger] hooks@[k])@
                        == hv[k]->Str_0 by {
                        if k < i {
                            assert(hooks@[k] == before[k]);
                            assert(before[k]@ == hv[k]->Str_0);
                        } else {
                            assert(hooks@[k]@ == s@);
                        }
                    }
                }
            },
            _ => {
                proof {
                    assert(!(hv[i as int] is Str));
                }
                return None;
            },
        }
        i = i + 1;
    }
    proof {
        assert(strs_view(hooks@) =~= Seq::new(hv.len(), |k: int| hv[k]->Str_0));
    }
    Some(NotificationSettings { enable, enabled_hooks: hooks })
}

/// The decoded collection: an absent file reads as the empty default; a
/// present file must be an object, whose `configs` (if there) is an array
/// of well-shaped snapshots, whose `distinct_id` (if there) is a string or
/// null, and whose `notification` (if there) is well-shaped or null.
/// Anything else is a fatal parse error.
pub open spec fn spec_stores_of_file(file: Option<JsonV>) -> Result<StoresDataV, EngineError> {
    match file {
        None => Ok(
            StoresDataV { configs: Seq::empty(), distinct_id: None, notification: None },
        ),
        Some(v) => {
            if !(v is Obj) {
                Err(EngineError::MalformedInput)
            } else {
                let configs = match spec_get(v, "configs"@) {
                    None => Some(Seq::<ConfigStoreV>::empty()),
                    Some(c) => if c is Arr {
                        spec_stores_of_json(c->Arr_0)
                    } else {
                        None
                    },
                };
                let distinct_id = match spec_get(v, "distinct_id"@) {
                    None => Some(None),
                    Some(d) => if d is Null {
                        Some(None)
                    } else if d is Str {
                        Some(Some(d->Str_0))
                    } else {
                        None
                    },
                };
                let notification = match spec_get(v, "notification"@) {
                    None => Some(None),
                    Some(n) => if n is Null {
                        Some(None)
                    } else {
                        match spec_notification_of_json(n) {
                            Some(nn) => Some(Some(nn)),
                            None => None,
                        }
                    },
                };
                if configs is Some && distinct_id is Some && notification is Some {
                    Ok(
                        StoresDataV {
                            configs: configs->Some_0,
                            distinct_id: distinct_id->Some_0,
                            notification: notification->Some_0,
                        },
                    )
                } else {
                    Err(EngineError::MalformedInput)
                }
            }
        },
    }
}

/// The view of a decoded collection.
pub open spec fn stores_res_view(r: Result<StoresData, EngineError>) -> Result<
    StoresDataV,
    EngineError,
> {
    match r {
        Ok(d) => Ok(d@),
        Err(e) => Err(e),
    }
}

/// The collection held by its backing file.
pub fn read_stores_file(file: &Option<Json>) -> (r: Result<StoresData, EngineError>)
    ensures
        stores_res_view(r) == spec_stores_of_file(opt_json_view(*file)),
{
    let v = match file {
        None => {
            let configs: Vec<ConfigStore> = Vec::new();
            let out = StoresData { configs, distinct_id: None, notification: None };
            proof {
                assert(out@.configs =~= Seq::<ConfigStoreV>::empty());
            }
            return Ok(out);
        },
        Some(v) => v,
    };
    match v {
        Json::Obj(_) => {},
        _ => {
            return Err(EngineError::MalformedInput);
        },
    }
    let mut configs: Vec<ConfigStore> = Vec::new();
    match obj_get(v, &String::from_str("configs")) {
        None => {
            proof {
                assert(stores_view(configs@) =~= Seq::<ConfigStoreV>::empty());
            }
        },
        Some(Json::Arr(items)) => {
            let ghost iv = items_view(items@);
            proof {
                lemma_items_view(items@);
            }
            let mut i: usize = 0;
            while i < items.len()
                invariant
                    i <= items@.len(),
                    iv == items_view(items@),
                    iv.len() == items@.len(),
                    forall|k: int| 0 <= k < items@.len() ==> iv[k] == items@[k]@,
                    configs@.len() == i,
                    forall|k: int|
                        0 <= k < i ==> (#[trigger] spec_store_of_json(iv[k])) is Some
                            && spec_store_of_json(iv[k]) == Some(configs@[k]@),
                    file is Some && file->0 == v,
                    v@ is Obj,
                    spec_get(v@, "configs"@) == Some(JsonV::Arr(iv)),
                decreases items@.len() - i,
            {
                match store_of_json(&items[i]) {
                    Some(s) => {
                        configs.push(s);
                    },
                    None => {
                        proof {
                            assert(spec_store_of_json(iv[i as int]) is None);
                            assert(spec_stores_of_json(iv) is None);
                        }
                        return Err(EngineError::MalformedInput);
                    },
                }
                i = i + 1;
            }
            proof {
                assert(spec_stores_of_json(iv) is Some);
                assert(stores_view(configs@) =~= spec_stores_of_json(iv)->Some_0);
            }
        },
        Some(_) => {
            return Err(EngineError::MalformedInput);
        },
    }
    let distinct_id: Option<String> = match obj_get(v, &String::from_str("distinct_id")) {
        None => None,
        Some(Json::Null) => None,
        Some(Json::Str(s)) => Some(s.clone()),
        Some(_) => {
            return Err(EngineError::MalformedInput);
        },
    };
    let notification: Option<NotificationSettings> = match obj_get(
        v,
        &String::from_str("notification"),
    ) {
        None => None,
        Some(Json::Null) => None,
        Some(n) => {
            match notification_of_json(n) {
                Some(nn) => Some(nn),
                None => {
                    proof {
                        assert(!(n@ is Null));
                    }
                    return Err(EngineError::MalformedInput);
                },
            }
        },
    };
    Ok(StoresData { configs, distinct_id, notification })
}

/// The document form of the install manifest.
pub open spec fn spec_manifest_to_json(version: u32, items: Seq<InstalledSecurityPackItemV>) -> JsonV {
    JsonV::Obj(
        seq![
            ("version"@, JsonV::Int(version as int)),
            (
                "items"@,
                JsonV::Arr(
                    Seq::new(
                        items.len(),
                        |i: int|
                            JsonV::Obj(
                                seq![
                                    ("type"@, JsonV::Str(items[i].template_type)),
                                    ("id"@, JsonV::Str(items[i].id)),
                                    ("targetPath"@, JsonV::Str(items[i].target_path)),
                                    ("installedAt"@, JsonV::Str(items[i].installed_at)),
                                ],
                            ),
                    ),
                ),
            ),
        ],
    )
}

/// The document to persist as the manifest's backing file.
pub fn write_security_packs_manifest(manifest: &InstalledSecurityPacksFile) -> (r: Json)
    ensures
        r@ == spec_manifest_to_json(manifest.version, items_v(manifest.items@)),
{
    let mut items: Vec<Json> = Vec::new();
    let mut i: usize = 0;
    while i < manifest.items.len()
        invariant
            i <= manifest.items@.len(),
            items@.len() == i,
            forall|k: int| 0 <= k < i ==> (#[trigger] items@[k])@ == JsonV::Obj(
                seq![
                    ("type"@, JsonV::Str(manifest.items@[k].template_type@)),
                    ("id"@, JsonV::Str(manifest.items@[k].id@)),
                    ("targetPath"@, JsonV::Str(manifest.items@[k].target_path@)),
                    ("installedAt"@, JsonV::Str(manifest.items@[k].installed_at@)),
                ],
            ),
        decreases manifest.items@.len() - i,
    {
        let it = &manifest.items[i];
        let mut fields: Vec<(String, Json)> = Vec::new();
        fields.push((String::from_str("type"), Json::Str(it.template_type.clone())));
        fields.push((String::from_str("id"), Json::Str(it.id.clone())));
        fields.push((String::from_str("targetPath"), Json::Str(it.target_path.clone())));
        fields.push((String::from_str("installedAt"), Json::Str(it.installed_at.clone())));
        proof {
            lemma_fields_view(fields@);
            assert(fields_view(fields@) =~= seq![
                ("type"@, JsonV::Str(it.template_type@)),
                ("id"@, JsonV::Str(it.id@)),
                ("targetPath"@, JsonV::Str(it.target_path@)),
                ("installedAt"@, JsonV::Str(it.installed_at@)),
            ]);
        }
        items.push(Json::Obj(fields));
        i = i + 1;
    }
    let mut fields: Vec<(String, Json)> = Vec::new();
    fields.push((String::from_str("version"), Json::Int(manifest.version as i64)));
    fields.push((String::from_str("items"), Json::Arr(items)));
    proof {
        lemma_fields_view(fields@);
        lemma_items_view(items@);
        assert(items_view(items@) =~= spec_manifest_to_json(
            manifest.version,
            items_v(manifest.items@),
        )->Obj_0[1].1->Arr_0);
        assert(fields_view(fields@) =~= spec_manifest_to_json(
            manifest.version,
            items_v(manifest.items@),
        )->Obj_0);
    }
    Json::Obj(fields)
}

/// One decoded manifest item, or nothing when the document lacks the
/// shape: an object with string `type`, `id`, `targetPath` and
/// `installedAt`.
pub open spec fn spec_manifest_item_of_json(v: JsonV) -> Option<InstalledSecurityPackItemV> {
    if !(v is Obj) {
        None
    } else {
        let tt = spec_get(v, "type"@);
        let id = spec_get(v, "id"@);
        let tp = spec_get(v, "targetPath"@);
        let at = spec_get(v, "installedAt"@);
        if (tt matches Some(t) && t is Str) && (id matches Some(i) && i is Str) && (
        tp matches Some(p) && p is Str) && (at matches Some(a) && a is Str) {
            Some(
                InstalledSecurityPackItemV {
                    template_type: tt->Some_0->Str_0,
                    id: id->Some_0->Str_0,
                    target_path: tp->Some_0->Str_0,
                    installed_at: at->Some_0->Str_0,
                },
            )
        } else {
            None
        }
    }
}

fn manifest_item_of_json(v: &Json) -> (r: Option<InstalledSecurityPackItem>)
    ensures
        match r {
            Some(it) => spec_manifest_item_of_json(v@) == Some(it@),
            None => spec_manifest_item_of_json(v@) is None,
        },
{
    let template_type = match obj_get(v, &String::from_str("type")) {
        Some(Json::Str(s)) => s.clone(),
        _ => {
            proof {
                if !(v@ is Obj) {
                    assert(spec_get(v@, "type"@) is None);
                }
            }
            return None;
        },
    };
    let id = match obj_get(v, &String::from_str("id")) {
        Some(Json::Str(s)) => s.clone(),
        _ => {
            return None;
        },
    };
    let target_path = match obj_get(v, &String::from_str("targetPath")) {
        Some(Json::Str(s)) => s.clone(),
        _ => {
            return None;
        },
    };
    let installed_at = match obj_get(v, &String::from_str("installedAt")) {
        Some(Json::Str(s)) => s.clone(),
        _ => {
            return None;
        },
    };
    Some(InstalledSecurityPackItem { template_type, id, target_path, installed_at })
}

/// The decoded manifest: an absent file reads as the empty first-version
/// ledger; a present file must be an object with a nonnegative integral
/// `version` within the stamp's range and an `items` array of well-shaped
/// items. Anything else is a fatal parse error.
pub open spec fn spec_manifest_of_file(file: Option<JsonV>) -> Result<
    (u32, Seq<InstalledSecurityPackItemV>),
    EngineError,
> {
    match file {
        None => Ok((1u32, Seq::empty())),
        Some(v) => {
            let version = spec_get(v, "version"@);
            let items = spec_get(v, "items"@);
            if !(version matches Some(n) && n is Int && 0 <= n->Int_0 <= u32::MAX as int) {
                Err(EngineError::MalformedInput)
            } else if !(items matches Some(a) && a is Arr) {
                Err(EngineError::MalformedInput)
            } else if !(forall|i: int|
                0 <= i < items->Some_0->Arr_0.len() ==> (#[trigger] spec_manifest_item_of_json(
                    items->Some_0->Arr_0[i],
                )) is Some) {
                Err(EngineError::MalformedInput)
            } else {
                Ok(
                    (
                        version->Some_0->Int_0 as u32,
                        Seq::new(
                            items->Some_0->Arr_0.len(),
                            |i: int| spec_manifest_item_of_json(items->Some_0->Arr_0[i])->Some_0,
                        ),
                    ),
                )
            }
        },
    }
}

/// The view of a decoded manifest.
pub open spec fn manifest_res_view(r: Result<InstalledSecurityPacksFile, EngineError>) -> Result<
    (u32, Seq<InstalledSecurityPackItemV>),
    EngineError,
> {
    match r {
        Ok(m) => Ok((m.version, items_v(m.items@))),
        Err(e) => Err(e),
    }
}

/// The manifest held by its backing file.
pub fn read_security_packs_manifest(file: &Option<Json>) -> (r: Result<
    InstalledSecurityPacksFile,
    EngineError,
>)
    ensures
        manifest_res_view(r) == spec_manifest_of_file(opt_json_view(*file)),
{
    let v = match file {
        None => {
            let items: Vec<InstalledSecurityPackItem> = Vec::new();
            let out = InstalledSecurityPacksFile { version: 1, items };
            proof {
                assert(items_v(out.items@) =~= Seq::<InstalledSecurityPackItemV>::empty());
            }
            return Ok(out);
        },
        Some(v) => v,
    };
    let version: u32 = match obj_get(v, &String::from_str("version")) {
        Some(Json::Int(n)) => {
            if *n >= 0 && *n <= u32::MAX as i64 {
                *n as u32
            } else {
                return Err(EngineError::MalformedInput);
            }
        },
        _ => {
            proof {
                if !(v@ is Obj) {
                    assert(spec_get(v@, "version"@) is None);
                }
            }
            return Err(EngineError::MalformedInput);
        },
    };
    let items_arr = match obj_get(v, &String::from_str("items")) {
        Some(Json::Arr(items)) => items,
        _ => {
            return Err(EngineError::MalformedInput);
        },
    };
    let ghost iv = items_view(items_arr@);
    proof {
        lemma_items_view(items_arr@);
    }
    let mut items: Vec<InstalledSecurityPackItem> = Vec::new();
    let mut i: usize = 0;
    while i < items_arr.len()
        invariant
            i <= items_arr@.len(),
            iv == items_view(items_arr@),
            iv.len() == items_arr@.len(),
            forall|k: int| 0 <= k < items_arr@.len() ==> iv[k] == items_arr@[k]@,
            items@.len() == i,
            forall|k: int|
                0 <= k < i ==> (#[trigger] spec_manifest_item_of_json(iv[k])) is Some
                    && spec_manifest_item_of_json(iv[k]) == Some(items@[k]@),
            file is Some && file->0 == v,
            v@ is Obj,
            spec_get(v@, "version"@) == Some(JsonV::Int(version as int)),
            spec_get(v@, "items"@) == Some(JsonV::Arr(iv)),
        decreases items_arr@.len() - i,
    {
        match manifest_item_of_json(&items_arr[i]) {
            Some(it) => {
                items.push(it);
            },
            None => {
                proof {
                    assert(spec_manifest_item_of_json(iv[i as int]) is None);
                }
                return Err(EngineError::MalformedInput);
            },
        }
        i = i + 1;
    }
    proof {
        assert(items_v(items@) =~= Seq::new(
            iv.len(),
            |k: int| spec_manifest_item_of_json(iv[k])->Some_0,
        ));
    }
    Ok(InstalledSecurityPacksFile { version, items })
}

} // verus!
