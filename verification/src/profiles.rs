//! The profile store.
//!
//! A profile is a named snapshot of settings. The collection keeps at most
//! one profile active (`using`) at any time; activating a profile mirrors
//! its settings into the live settings file through the shared partial
//! merge, overwriting only the keys the profile provides. Every operation
//! here takes the collection as read from its backing file and returns the
//! collection to write back, together with the new live settings content
//! when one must be written.

use vstd::prelude::*;
use vstd::string::StringExecFns;
use crate::errors::EngineError;
use crate::json::Json;
use crate::json::JsonV;
use crate::json::json_clone;
use crate::json::clone_strings;
use crate::json::spec_get;
use crate::json::strs_view;
use crate::merge::merge_settings;
use crate::merge::spec_merge;
use crate::sys::now_unix_secs;
use crate::sys::snapshot_id;
use crate::sys::fresh_distinct_id;

verus! {

/// One named settings snapshot.
pub struct ConfigStore {
    /// Opaque stable identifier.
    pub id: String,
    /// Display name; not required to be unique.
    pub title: String,
    /// Unix seconds at creation.
    pub created_at: u64,
    /// The snapshot itself: a full or partial settings document.
    pub settings: Json,
    /// Whether this snapshot is the active one.
    pub using: bool,
}

/// The mathematical value of a snapshot.
#[verifier::ext_equal]
pub struct ConfigStoreV {
    pub id: Seq<char>,
    pub title: Seq<char>,
    pub created_at: u64,
    pub settings: JsonV,
    pub using: bool,
}

impl View for ConfigStore {
    type V = ConfigStoreV;

    open spec fn view(&self) -> ConfigStoreV {
        ConfigStoreV {
            id: self.id@,
            title: self.title@,
            created_at: self.created_at,
            settings: self.settings@,
            using: self.using,
        }
    }
}

/// Whether and which hook notifications the shell shows.
pub struct NotificationSettings {
    pub enable: bool,
    pub enabled_hooks: Vec<String>,
}

/// The mathematical value of the notification settings.
#[verifier::ext_equal]
pub struct NotificationSettingsV {
    pub enable: bool,
    pub enabled_hooks: Seq<Seq<char>>,
}

impl View for NotificationSettings {
    type V = NotificationSettingsV;

    open spec fn view(&self) -> NotificationSettingsV {
        NotificationSettingsV { enable: self.enable, enabled_hooks: strs_view(self.enabled_hooks@) }
    }
}

/// The whole profile collection as its backing file holds it.
pub struct StoresData {
    pub configs: Vec<ConfigStore>,
    pub distinct_id: Option<String>,
    pub notification: Option<NotificationSettings>,
}

/// The mathematical value of the collection.
#[verifier::ext_equal]
pub struct StoresDataV {
    pub configs: Seq<ConfigStoreV>,
    pub distinct_id: Option<Seq<char>>,
    pub notification: Option<NotificationSettingsV>,
}

impl View for StoresData {
    type V = StoresDataV;

    open spec fn view(&self) -> StoresDataV {
        StoresDataV {
            configs: stores_view(self.configs@),
            distinct_id: crate::json::opt_str_view(self.distinct_id),
            notification: match self.notification {
                Some(n) => Some(n@),
                None => None,
            },
        }
    }
}

/// The view of a snapshot list.
pub open spec fn stores_view(stores: Seq<ConfigStore>) -> Seq<ConfigStoreV> {
    Seq::new(stores.len(), |i: int| stores[i]@)
}

/// At most one snapshot is active.
pub open spec fn spec_at_most_one_using(configs: Seq<ConfigStoreV>) -> bool {
    forall|i: int, j: int|
        0 <= i < j < configs.len() ==> !(configs[i].using && configs[j].using)
}

/// Index of the first snapshot with the given id, or `-1`.
pub open spec fn spec_store_index_of(configs: Seq<ConfigStoreV>, id: Seq<char>) -> int
    decreases configs.len(),
{
    if configs.len() == 0 {
        -1
    } else if configs[0].id == id {
        0
    } else {
        let rest = spec_store_index_of(configs.drop_first(), id);
        if rest < 0 {
            -1
        } else {
            rest + 1
        }
    }
}

/// Whether some snapshot bears the id.
pub open spec fn spec_store_has(configs: Seq<ConfigStoreV>, id: Seq<char>) -> bool {
    spec_store_index_of(configs, id) >= 0
}

/// The index returned by the lookup is the first snapshot with the id.
pub proof fn lemma_store_index_of(configs: Seq<ConfigStoreV>, id: Seq<char>)
    ensures
        spec_store_index_of(configs, id) >= 0 ==> {
            let i = spec_store_index_of(configs, id);
            &&& 0 <= i < configs.len()
            &&& configs[i].id == id
            &&& forall|k: int| 0 <= k < i ==> configs[k].id != id
        },
        spec_store_index_of(configs, id) < 0 ==> forall|k: int|
            0 <= k < configs.len() ==> configs[k].id != id,
    decreases configs.len(),
{
    if configs.len() > 0 && configs[0].id != id {
        lemma_store_index_of(configs.drop_first(), id);
        let rest = spec_store_index_of(configs.drop_first(), id);
        if rest >= 0 {
            assert forall|k: int| 0 <= k < rest + 1 implies configs[k].id != id by {
                if k > 0 {
                    assert(configs.drop_first()[k - 1].id != id);
                }
            }
        } else {
            assert forall|k: int| 0 <= k < configs.len() implies configs[k].id != id by {
                if k > 0 {
                    assert(configs.drop_first()[k - 1].id != id);
                }
            }
        }
    }
}

/// Index of the first snapshot with the given id, or `None`.
pub fn store_index_of(configs: &Vec<ConfigStore>, id: &String) -> (r: Option<usize>)
    ensures
        match r {
            Some(i) => i == spec_store_index_of(stores_view(configs@), id@),
            None => !spec_store_has(stores_view(configs@), id@),
        },
{
    let ghost cv = stores_view(configs@);
    proof {
        lemma_store_index_of(cv, id@);
    }
    let mut i: usize = 0;
    while i < configs.len()
        invariant
            i <= configs@.len(),
            cv == stores_view(configs@),
            forall|k: int| 0 <= k < i ==> cv[k].id != id@,
            spec_store_index_of(cv, id@) >= 0 ==> {
                let n = spec_store_index_of(cv, id@);
                &&& 0 <= n < cv.len()
                &&& cv[n].id == id@
                &&& forall|k: int| 0 <= k < n ==> cv[k].id != id@
            },
            spec_store_index_of(cv, id@) < 0 ==> forall|k: int|
                0 <= k < cv.len() ==> cv[k].id != id@,
        decreases configs@.len() - i,
    {
        if configs[i].id == *id {
            proof {
                assert(cv[i as int].id == id@);
                let n = spec_store_index_of(cv, id@);
                assert(n >= 0);
                if n < i {
                    assert(cv[n].id != id@);
                }
                if n > i {
                    assert(cv[i as int].id != id@);
                }
            }
            return Some(i);
        }
        i = i + 1;
    }
    None
}

/// A copy of a snapshot, denoting the same value.
pub fn clone_store(s: &ConfigStore) -> (r: ConfigStore)
    ensures
        r@ == s@,
{
    ConfigStore {
        id: s.id.clone(),
        title: s.title.clone(),
        created_at: s.created_at,
        settings: json_clone(&s.settings),
        using: s.using,
    }
}

/// A copy of the notification settings, denoting the same value.
pub fn clone_notification(n: &NotificationSettings) -> (r: NotificationSettings)
    ensures
        r@ == n@,
{
    let hooks = clone_strings(&n.enabled_hooks);
    proof {
        assert(strs_view(hooks@) =~= strs_view(n.enabled_hooks@));
    }
    NotificationSettings { enable: n.enable, enabled_hooks: hooks }
}

/// The default notification settings: enabled, with the one hook event
/// the shell always listens for.
pub fn default_notification_settings() -> (r: NotificationSettings)
    ensures
        r@.enable == true,
        r@.enabled_hooks =~= seq!["Notification"@],
{
    let mut hooks: Vec<String> = Vec::new();
    hooks.push(String::from_str("Notification"));
    proof {
        assert(strs_view(hooks@) =~= seq!["Notification"@]);
    }
    NotificationSettings { enable: true, enabled_hooks: hooks }
}

/// The live settings document a merge starts from: the file's content, or
/// the empty object when the file is absent.
pub open spec fn spec_live_or_empty(live: Option<JsonV>) -> JsonV {
    match live {
        Some(l) => l,
        None => JsonV::Obj(Seq::empty()),
    }
}

/// The collection with default notification settings filled in when none
/// are stored, and the snapshots ordered by creation time, oldest first.
/// The returned flag says whether the collection changed and must be
/// persisted.
pub fn get_stores(data: StoresData) -> (r: (StoresData, bool, Vec<ConfigStore>))
    ensures
        r.0@.configs == data@.configs,
        r.0@.distinct_id == data@.distinct_id,
        data@.notification is Some ==> r.0@.notification == data@.notification && r.1 == false,
        data@.notification is None ==> r.1 == true && r.0@.notification is Some
            && r.0@.notification->0.enable == true && r.0@.notification->0.enabled_hooks =~= seq![
            "Notification"@,
        ],
        stores_view(r.2@).to_multiset() == data@.configs.to_multiset(),
        forall|i: int, j: int|
            0 <= i < j < r.2@.len() ==> r.2@[i]@.created_at <= r.2@[j]@.created_at,
{
    let sorted = sort_stores_by_created(&data.configs);
    match data.notification {
        Some(n) => (
            StoresData {
                configs: data.configs,
                distinct_id: data.distinct_id,
                notification: Some(n),
            },
            false,
            sorted,
        ),
        None => (
            StoresData {
                configs: data.configs,
                distinct_id: data.distinct_id,
                notification: Some(default_notification_settings()),
            },
            true,
            sorted,
        ),
    }
}

/// The snapshots ordered by creation time ascending: a permutation of the
/// input in nondecreasing `created_at` order.
pub fn sort_stores_by_created(stores: &Vec<ConfigStore>) -> (r: Vec<ConfigStore>)
    ensures
        stores_view(r@).to_multiset() == stores_view(stores@).to_multiset(),
        forall|i: int, j: int|
            0 <= i < j < r@.len() ==> r@[i]@.created_at <= r@[j]@.created_at,
{
    broadcast use vstd::seq_lib::group_to_multiset_ensures;

    let ghost sv = stores_view(stores@);
    let mut out: Vec<ConfigStore> = Vec::new();
    let mut i: usize = 0;
    proof {
        assert(stores_view(out@) =~= Seq::<ConfigStoreV>::empty());
        assert(sv.take(0) =~= Seq::<ConfigStoreV>::empty());
        assert(stores_view(out@).to_multiset() =~= sv.take(0).to_multiset());
    }
    while i < stores.len()
        invariant
            i <= stores@.len(),
            sv == stores_view(stores@),
            stores_view(out@).to_multiset() == sv.take(i as int).to_multiset(),
            forall|a: int, b: int|
                0 <= a < b < out@.len() ==> out@[a]@.created_at <= out@[b]@.created_at,
        decreases stores@.len() - i,
    {
        broadcast use vstd::seq_lib::group_to_multiset_ensures;

        let x = clone_store(&stores[i]);
        let ghost xv = x@;
        let mut j: usize = 0;
        while j < out.len() && out[j].created_at <= x.created_at
            invariant
                j <= out@.len(),
                forall|k: int| 0 <= k < j ==> out@[k]@.created_at <= xv.created_at,
                xv == x@,
            decreases out@.len() - j,
        {
            j = j + 1;
        }
        let ghost before = out@;
        out.insert(j, x);
        proof {
            before.insert_ensures(j as int, x);
            assert(stores_view(out@) =~= stores_view(before).insert(j as int, xv));
            assert(stores_view(before).insert(j as int, xv).to_multiset() =~= stores_view(
                before,
            ).to_multiset().insert(xv));
            assert(sv.take(i + 1) =~= sv.take(i as int).push(sv[i as int]));
            assert(sv.take(i as int).push(sv[i as int]).to_multiset() =~= sv.take(
                i as int,
            ).to_multiset().insert(sv[i as int]));
            assert(xv == sv[i as int]);
            assert forall|a: int, b: int|
                0 <= a < b < out@.len() implies out@[a]@.created_at <= out@[b]@.created_at by {
                if a < j && b == j {
                    assert(before[a]@.created_at <= xv.created_at);
                } else if a == j && b > j {
                    assert(before[j as int]@.created_at > xv.created_at);
                    assert((j as int) <= b - 1 < before.len());
                    if (j as int) < b - 1 {
                        assert(before[j as int]@.created_at <= before[b - 1]@.created_at);
                    }
                } else if a < j && b > j {
                    assert(before[a]@.created_at <= before[b - 1]@.created_at);
                } else if a > j {
                    assert(before[a - 1]@.created_at <= before[b - 1]@.created_at);
                } else {
                    assert(before[a]@.created_at <= before[b]@.created_at);
                }
            }
        }
        i = i + 1;
    }
    proof {
        assert(sv.take(stores@.len() as int) =~= sv);
    }
    out
}

/// The collection and outputs of a snapshot creation: the collection to
/// persist, the snapshot returned to the caller, and the live settings
/// content to write when the new snapshot became active.
pub struct CreateOutcome {
    pub data: StoresData,
    pub store: ConfigStore,
    pub live_write: Option<Json>,
}

/// Creation at a known instant, with a known identifier for the captured
/// original configuration. The first snapshot ever created becomes active;
/// at that moment, a pre-existing live settings file is first captured as
/// an inactive "Original Config" snapshot, and the new snapshot's settings
/// are partial-merged into the live file. Later creations change nothing
/// but the collection.
pub fn create_config_at(
    data: StoresData,
    id: String,
    title: String,
    settings: Json,
    live: &Option<Json>,
    now: u64,
    original_id: String,
) -> (r: CreateOutcome)
    requires
        spec_at_most_one_using(data@.configs),
    ensures
        ({
            let active = data@.configs.len() == 0;
            let capture = active && live is Some;
            let orig = ConfigStoreV {
                id: original_id@,
                title: "Original Config"@,
                created_at: now,
                settings: crate::json::opt_json_view(*live)->0,
                using: false,
            };
            let fresh = ConfigStoreV {
                id: id@,
                title: title@,
                created_at: now,
                settings: settings@,
                using: active,
            };
            &&& r.store@ == fresh
            &&& r.data@.configs == data@.configs + (if capture {
                seq![orig]
            } else {
                Seq::empty()
            }) + seq![fresh]
            &&& r.data@.distinct_id == data@.distinct_id
            &&& (data@.notification is Some ==> r.data@.notification == data@.notification)
            &&& (data@.notification is None ==> r.data@.notification is Some
                && r.data@.notification->0.enable == true
                && r.data@.notification->0.enabled_hooks =~= seq!["Notification"@])
            &&& (r.live_write matches Some(w) <==> active)
            &&& (active ==> r.live_write->0@ == spec_merge(
                spec_live_or_empty(crate::json::opt_json_view(*live)),
                settings@,
            ))
            &&& spec_at_most_one_using(r.data@.configs)
        }),
{
    let ghost oldc = stores_view(data.configs@);
    let active = data.configs.len() == 0;
    let mut configs = data.configs;

    if active {
        if let Some(existing) = live {
            let orig = ConfigStore {
                id: original_id,
                title: String::from_str("Original Config"),
                created_at: now,
                settings: json_clone(existing),
                using: false,
            };
            configs.push(orig);
        }
    }

    let live_write: Option<Json> = if active {
        let base = match live {
            Some(l) => json_clone(l),
            None => Json::Obj(Vec::new()),
        };
        proof {
            if live is None {
                assert(crate::json::fields_view(Seq::<(String, Json)>::empty())
                    =~= Seq::<(Seq<char>, JsonV)>::empty());
            }
        }
        Some(merge_settings(&base, &settings))
    } else {
        None
    };

    let fresh = ConfigStore { id, title, created_at: now, settings, using: active };
    let ghost freshv = fresh@;
    let ghost before_fresh = stores_view(configs@);
    configs.push(fresh);

    proof {
        let capture = active && live is Some;
        assert(stores_view(configs@) =~= before_fresh.push(freshv));
        if capture {
            assert(before_fresh =~= oldc.push(before_fresh.last()));
            assert(stores_view(configs@) =~= oldc + seq![before_fresh.last()] + seq![freshv]);
        } else {
            assert(before_fresh =~= oldc);
            assert(stores_view(configs@) =~= oldc + Seq::empty() + seq![freshv]);
        }
    }

    let notification = match data.notification {
        Some(n) => Some(n),
        None => Some(default_notification_settings()),
    };

    let out_data = StoresData { configs, distinct_id: data.distinct_id, notification };
    let store_copy = clone_store(&fetch_last(&out_data.configs));
    CreateOutcome { data: out_data, store: store_copy, live_write }
}

/// The last snapshot of a non-empty list.
fn fetch_last(configs: &Vec<ConfigStore>) -> (r: &ConfigStore)
    requires
        configs@.len() > 0,
    ensures
        r@ == stores_view(configs@).last(),
{
    &configs[configs.len() - 1]
}

/// Creation as the caller sees it: the instant is read from the clock and
/// the captured snapshot's identifier is minted at random, so the contract
/// pins everything except those two values; [`create_config_at`] pins the
/// rest. Fails only when the clock cannot be read.
pub fn create_config(
    data: StoresData,
    id: String,
    title: String,
    settings: Json,
    live: &Option<Json>,
) -> (r: Result<CreateOutcome, EngineError>)
    requires
        spec_at_most_one_using(data@.configs),
    ensures
        r is Err ==> r->Err_0 == EngineError::Environment,
        r is Ok ==> ({
            let out = r->Ok_0;
            let active = data@.configs.len() == 0;
            let capture = active && live is Some;
            &&& out.store@.id == id@
            &&& out.store@.title == title@
            &&& out.store@.settings == settings@
            &&& out.store@.using == active
            &&& out.data@.configs.len() == data@.configs.len() + (if capture {
                2int
            } else {
                1int
            })
            &&& out.data@.configs.take(data@.configs.len() as int) == data@.configs
            &&& (capture ==> {
                let orig = out.data@.configs[data@.configs.len() as int];
                &&& orig.title == "Original Config"@
                &&& orig.using == false
                &&& orig.settings == crate::json::opt_json_view(*live)->0
            })
            &&& out.data@.configs.last() == out.store@
            &&& out.data@.distinct_id == data@.distinct_id
            &&& (out.live_write matches Some(w) <==> active)
            &&& (active ==> out.live_write->0@ == spec_merge(
                spec_live_or_empty(crate::json::opt_json_view(*live)),
                settings@,
            ))
            &&& spec_at_most_one_using(out.data@.configs)
        }),
{
    let now = match now_unix_secs() {
        Ok(n) => n,
        Err(_) => {
            return Err(EngineError::Environment);
        },
    };
    let original_id = snapshot_id();
    let out = create_config_at(data, id, title, settings, live, now, original_id);
    proof {
        let active = data@.configs.len() == 0;
        let capture = active && live is Some;
        if capture {
            assert(out.data@.configs.take(data@.configs.len() as int) =~= data@.configs);
        } else {
            assert(out.data@.configs.take(data@.configs.len() as int) =~= data@.configs);
        }
    }
    Ok(out)
}

/// An updated snapshot: the title and settings are overwritten in place.
/// When the updated snapshot is the active one, its new settings are
/// partial-merged into the live settings file. Fails with `NotFound` when
/// no snapshot bears the id.
pub fn update_config(
    data: StoresData,
    store_id: &String,
    title: String,
    settings: Json,
    live: &Option<Json>,
) -> (r: Result<(StoresData, ConfigStore, Option<Json>), EngineError>)
    ensures
        r is Err <==> !spec_store_has(data@.configs, store_id@),
        r is Err ==> r->Err_0 == EngineError::NotFound,
        r is Ok ==> ({
            let idx = spec_store_index_of(data@.configs, store_id@);
            let updated = ConfigStoreV {
                id: data@.configs[idx].id,
                title: title@,
                created_at: data@.configs[idx].created_at,
                settings: settings@,
                using: data@.configs[idx].using,
            };
            let out = r->Ok_0;
            &&& out.0@.configs == data@.configs.update(idx, updated)
            &&& out.0@.distinct_id == data@.distinct_id
            &&& out.0@.notification == data@.notification
            &&& out.1@ == updated
            &&& (out.2 matches Some(w) <==> data@.configs[idx].using)
            &&& (data@.configs[idx].using ==> out.2->0@ == spec_merge(
                spec_live_or_empty(crate::json::opt_json_view(*live)),
                settings@,
            ))
            &&& (spec_at_most_one_using(data@.configs) ==> spec_at_most_one_using(
                out.0@.configs,
            ))
        }),
{
    let ghost oldc = stores_view(data.configs@);
    let mut configs = data.configs;
    let idx = match store_index_of(&configs, store_id) {
        Some(i) => i,
        None => {
            return Err(EngineError::NotFound);
        },
    };
    proof {
        lemma_store_index_of(oldc, store_id@);
    }
    let old_store = &configs[idx];
    let updated = ConfigStore {
        id: old_store.id.clone(),
        title,
        created_at: old_store.created_at,
        settings,
        using: old_store.using,
    };
    let was_using = updated.using;
    let live_write: Option<Json> = if was_using {
        let base = match live {
            Some(l) => json_clone(l),
            None => Json::Obj(Vec::new()),
        };
        proof {
            if live is None {
                assert(crate::json::fields_view(Seq::<(String, Json)>::empty())
                    =~= Seq::<(Seq<char>, JsonV)>::empty());
            }
        }
        Some(merge_settings(&base, &updated.settings))
    } else {
        None
    };
    let returned = clone_store(&updated);
    configs.set(idx, updated);
    proof {
        assert(stores_view(configs@) =~= oldc.update(idx as int, returned@));
    }
    Ok((
        StoresData { configs, distinct_id: data.distinct_id, notification: data.notification },
        returned,
        live_write,
    ))
}

/// The collection without the snapshots bearing the id; the live settings
/// file is never touched. Fails with `NotFound` when no snapshot bears
/// the id.
pub fn delete_config(data: StoresData, store_id: &String) -> (r: Result<StoresData, EngineError>)
    ensures
        r is Err <==> !spec_store_has(data@.configs, store_id@),
        r is Err ==> r->Err_0 == EngineError::NotFound,
        r is Ok ==> ({
            let out = r->Ok_0;
            &&& out@.configs == data@.configs.filter(
                |c: ConfigStoreV| c.id != store_id@,
            )
            &&& out@.distinct_id == data@.distinct_id
            &&& out@.notification == data@.notification
            &&& (spec_at_most_one_using(data@.configs) ==> spec_at_most_one_using(out@.configs))
        }),
{
    let ghost oldc = stores_view(data.configs@);
    let ghost pred = |c: ConfigStoreV| c.id != store_id@;
    if store_index_of(&data.configs, store_id).is_none() {
        return Err(EngineError::NotFound);
    }
    let mut out: Vec<ConfigStore> = Vec::new();
    let ghost mut used: Option<int> = None;
    let mut i: usize = 0;
    proof {
        reveal(Seq::filter);
        assert(stores_view(out@) =~= oldc.take(0).filter(pred));
    }
    while i < data.configs.len()
        invariant
            i <= data.configs@.len(),
            oldc == stores_view(data.configs@),
            pred == (|c: ConfigStoreV| c.id != store_id@),
            stores_view(out@) =~= oldc.take(i as int).filter(pred),
            spec_at_most_one_using(oldc) ==> match used {
                None => forall|a: int| 0 <= a < out@.len() ==> !out@[a]@.using,
                Some(k) => {
                    &&& 0 <= k < i
                    &&& oldc[k].using
                    &&& spec_at_most_one_using(stores_view(out@))
                },
            },
        decreases data.configs@.len() - i,
    {
        let ghost prefix = oldc.take(i as int);
        let ghost cur = oldc[i as int];
        if data.configs[i].id != *store_id {
            let kept = clone_store(&data.configs[i]);
            let ghost before = out@;
            out.push(kept);
            proof {
                reveal(Seq::filter);
                assert(oldc.take(i + 1).drop_last() =~= prefix);
                assert(oldc.take(i + 1).last() == cur);
                assert(pred(cur));
                assert(stores_view(out@) =~= stores_view(before).push(cur));
                assert(stores_view(out@) =~= oldc.take(i + 1).filter(pred));
                if spec_at_most_one_using(oldc) && cur.using {
                    if used is Some {
                        let k = used->0;
                        assert(!(oldc[k].using && oldc[i as int].using));
                        assert(false);
                    }
                    used = Some(i as int);
                    assert forall|a: int, b: int|
                        0 <= a < b < stores_view(out@).len() implies !(stores_view(out@)[a].using
                        && stores_view(out@)[b].using) by {
                        if b < stores_view(out@).len() - 1 {
                            assert(!stores_view(before)[b].using);
                        } else {
                            assert(!stores_view(before)[a].using);
                        }
                    }
                }
                if spec_at_most_one_using(oldc) && !cur.using && used is None {
                    assert forall|a: int| 0 <= a < out@.len() implies !out@[a]@.using by {
                        if a < out@.len() - 1 {
                            assert(!stores_view(before)[a].using);
                        }
                    }
                }
                if spec_at_most_one_using(oldc) && !cur.using && used is Some {
                    assert forall|a: int, b: int|
                        0 <= a < b < stores_view(out@).len() implies !(stores_view(out@)[a].using
                        && stores_view(out@)[b].using) by {
                        if b == stores_view(out@).len() - 1 {
                            assert(!cur.using);
                        }
                    }
                }
            }
        } else {
            proof {
                reveal(Seq::filter);
                assert(oldc.take(i + 1).drop_last() =~= prefix);
                assert(oldc.take(i + 1).last() == cur);
                assert(!pred(cur));
                assert(stores_view(out@) =~= oldc.take(i + 1).filter(pred));
            }
        }
        i = i + 1;
    }
    proof {
        assert(oldc.take(data.configs@.len() as int) =~= oldc);
    }
    Ok(StoresData { configs: out, distinct_id: data.distinct_id, notification: data.notification })
}

/// The collection with exactly the first snapshot bearing the id active
/// and every other snapshot inactive, together with the live settings
/// file content after the selected snapshot's settings are partial-merged
/// in. Fails with `NotFound` when no snapshot bears the id.
pub fn set_using_config(data: StoresData, store_id: &String, live: &Option<Json>) -> (r: Result<
    (StoresData, Json),
    EngineError,
>)
    ensures
        r is Err <==> !spec_store_has(data@.configs, store_id@),
        r is Err ==> r->Err_0 == EngineError::NotFound,
        r is Ok ==> ({
            let idx = spec_store_index_of(data@.configs, store_id@);
            let out = r->Ok_0;
            &&& out.0@.configs.len() == data@.configs.len()
            &&& forall|k: int|
                0 <= k < data@.configs.len() ==> #[trigger] out.0@.configs[k] == (ConfigStoreV {
                    using: k == idx,
                    ..data@.configs[k]
                })
            &&& out.0@.distinct_id == data@.distinct_id
            &&& out.0@.notification == data@.notification
            &&& out.1@ == spec_merge(
                spec_live_or_empty(crate::json::opt_json_view(*live)),
                data@.configs[idx].settings,
            )
            &&& spec_at_most_one_using(out.0@.configs)
        }),
{
    let ghost oldc = stores_view(data.configs@);
    let idx = match store_index_of(&data.configs, store_id) {
        Some(i) => i,
        None => {
            return Err(EngineError::NotFound);
        },
    };
    proof {
        lemma_store_index_of(oldc, store_id@);
    }
    let mut configs: Vec<ConfigStore> = Vec::new();
    let mut i: usize = 0;
    while i < data.configs.len()
        invariant
            i <= data.configs@.len(),
            oldc == stores_view(data.configs@),
            idx < data.configs@.len(),
            configs@.len() == i,
            forall|k: int|
                0 <= k < i ==> #[trigger] stores_view(configs@)[k] == (ConfigStoreV {
                    using: k == idx,
                    ..oldc[k]
                }),
        decreases data.configs@.len() - i,
    {
        let mut entry = clone_store(&data.configs[i]);
        entry.using = i == idx;
        let ghost ev = entry@;
        let ghost before = configs@;
        configs.push(entry);
        proof {
            assert forall|k: int|
                0 <= k < i + 1 implies #[trigger] stores_view(configs@)[k] == (ConfigStoreV {
                using: k == idx,
                ..oldc[k]
            }) by {
                if k < i {
                    assert(configs@[k] == before[k]);
                    assert(stores_view(before)[k] == (ConfigStoreV { using: k == idx, ..oldc[k] }));
                } else {
                    assert(stores_view(configs@)[k] == ev);
                    assert(ev =~= (ConfigStoreV { using: k == idx, ..oldc[k] }));
                }
            }
        }
        i = i + 1;
    }
    let base = match live {
        Some(l) => json_clone(l),
        None => Json::Obj(Vec::new()),
    };
    proof {
        if live is None {
            assert(crate::json::fields_view(Seq::<(String, Json)>::empty())
                =~= Seq::<(Seq<char>, JsonV)>::empty());
        }
    }
    let new_live = merge_settings(&base, &data.configs[idx].settings);
    Ok((
        StoresData {
            configs,
            distinct_id: data.distinct_id,
            notification: data.notification,
        },
        new_live,
    ))
}

/// The collection with no active snapshot, and the live settings file with
/// its `env` key forced to an empty object, every other key untouched.
/// The collection may be absent (no backing file yet); the live file reads
/// as the empty object when absent, and is written back even when it is
/// not an object, unchanged.
pub fn reset_to_original_config(data: Option<StoresData>, live: &Option<Json>) -> (r: (
    Option<StoresData>,
    Json,
))
    ensures
        data is Some ==> ({
            &&& r.0 is Some
            &&& r.0->0@.configs.len() == data->0@.configs.len()
            &&& forall|k: int|
                0 <= k < data->0@.configs.len() ==> #[trigger] r.0->0@.configs[k] == (ConfigStoreV {
                    using: false,
                    ..data->0@.configs[k]
                })
            &&& r.0->0@.distinct_id == data->0@.distinct_id
            &&& r.0->0@.notification == data->0@.notification
            &&& spec_at_most_one_using(r.0->0@.configs)
        }),
        data is None ==> r.0 is None,
        ({
            let base = spec_live_or_empty(crate::json::opt_json_view(*live));
            if base is Obj {
                r.1@ == JsonV::Obj(
                    crate::json::spec_obj_set(base->Obj_0, "env"@, JsonV::Obj(Seq::empty())),
                )
            } else {
                r.1@ == base
            }
        }),
{
    let out_data: Option<StoresData> = match data {
        Some(d) => {
            let ghost oldc = stores_view(d.configs@);
            let mut configs: Vec<ConfigStore> = Vec::new();
            let mut i: usize = 0;
            while i < d.configs.len()
                invariant
                    i <= d.configs@.len(),
                    oldc == stores_view(d.configs@),
                    configs@.len() == i,
                    forall|k: int|
                        0 <= k < i ==> #[trigger] stores_view(configs@)[k] == (ConfigStoreV {
                            using: false,
                            ..oldc[k]
                        }),
                decreases d.configs@.len() - i,
            {
                let mut entry = clone_store(&d.configs[i]);
                entry.using = false;
                let ghost ev = entry@;
                let ghost before = configs@;
                configs.push(entry);
                proof {
                    assert forall|k: int|
                        0 <= k < i + 1 implies #[trigger] stores_view(configs@)[k]
                        == (ConfigStoreV { using: false, ..oldc[k] }) by {
                        if k < i {
                            assert(configs@[k] == before[k]);
                            assert(stores_view(before)[k] == (ConfigStoreV {
                                using: false,
                                ..oldc[k]
                            }));
                        } else {
                            assert(stores_view(configs@)[k] == ev);
                            assert(ev =~= (ConfigStoreV { using: false, ..oldc[k] }));
                        }
                    }
                }
                i = i + 1;
            }
            Some(
                StoresData {
                    configs,
                    distinct_id: d.distinct_id,
                    notification: d.notification,
                },
            )
        },
        None => None,
    };
    let base = match live {
        Some(l) => json_clone(l),
        None => Json::Obj(Vec::new()),
    };
    proof {
        if live is None {
            assert(crate::json::fields_view(Seq::<(String, Json)>::empty())
                =~= Seq::<(Seq<char>, JsonV)>::empty());
        }
    }
    let new_live = match base {
        Json::Obj(fields) => {
            let mut fields = fields;
            crate::json::obj_set(&mut fields, String::from_str("env"), Json::Obj(Vec::new()));
            proof {
                assert(crate::json::fields_view(Seq::<(String, Json)>::empty())
                    =~= Seq::<(Seq<char>, JsonV)>::empty());
            }
            Json::Obj(fields)
        },
        other => other,
    };
    (out_data, new_live)
}

/// The active snapshot of a listing, when one is active: the first
/// snapshot flagged `using`.
pub fn get_current_store(stores: &Vec<ConfigStore>) -> (r: Option<ConfigStore>)
    ensures
        match r {
            Some(s) => {
                &&& exists|i: int|
                    0 <= i < stores@.len() && (#[trigger] stores_view(stores@)[i]) == s@
                &&& s@.using
            },
            None => forall|i: int| 0 <= i < stores@.len() ==> !stores_view(stores@)[i].using,
        },
{
    let mut i: usize = 0;
    while i < stores.len()
        invariant
            i <= stores@.len(),
            forall|k: int| 0 <= k < i ==> !stores_view(stores@)[k].using,
        decreases stores@.len() - i,
    {
        if stores[i].using {
            let found = clone_store(&stores[i]);
            proof {
                assert(stores_view(stores@)[i as int] == found@);
            }
            return Some(found);
        }
        i = i + 1;
    }
    None
}

/// The first snapshot bearing the id; `NotFound` when none does.
pub fn get_store(stores: &Vec<ConfigStore>, store_id: &String) -> (r: Result<
    ConfigStore,
    EngineError,
>)
    ensures
        r is Err <==> !spec_store_has(stores_view(stores@), store_id@),
        r is Err ==> r->Err_0 == EngineError::NotFound,
        r is Ok ==> r->Ok_0@ == stores_view(stores@)[spec_store_index_of(
            stores_view(stores@),
            store_id@,
        )],
{
    match store_index_of(stores, store_id) {
        Some(i) => {
            proof {
                lemma_store_index_of(stores_view(stores@), store_id@);
            }
            Ok(clone_store(&stores[i]))
        },
        None => Err(EngineError::NotFound),
    }
}

/// The collection's durable identifier: the stored one when present, else
/// a freshly minted one recorded in the collection. The flag says whether
/// the collection changed and must be persisted.
pub fn get_or_create_distinct_id(data: StoresData) -> (r: (StoresData, String, bool))
    ensures
        r.0@.configs == data@.configs,
        r.0@.notification == data@.notification,
        data@.distinct_id is Some ==> r.0@.distinct_id == data@.distinct_id && r.1@
            == data@.distinct_id->0 && r.2 == false,
        data@.distinct_id is None ==> r.0@.distinct_id == Some(r.1@) && r.2 == true,
{
    match data.distinct_id {
        Some(id) => {
            let copy = id.clone();
            (
                StoresData {
                    configs: data.configs,
                    distinct_id: Some(id),
                    notification: data.notification,
                },
                copy,
                false,
            )
        },
        None => {
            let fresh = fresh_distinct_id();
            let copy = fresh.clone();
            (
                StoresData {
                    configs: data.configs,
                    distinct_id: Some(fresh),
                    notification: data.notification,
                },
                copy,
                true,
            )
        },
    }
}

/// The stored notification settings, when a collection file is there.
pub fn get_notification_settings(data: &Option<StoresData>) -> (r: Option<NotificationSettings>)
    ensures
        match *data {
            Some(d) => match r {
                Some(n) => d@.notification == Some(n@),
                None => d@.notification is None,
            },
            None => r is None,
        },
{
    match data {
        Some(d) => match &d.notification {
            Some(n) => Some(clone_notification(n)),
            None => None,
        },
        None => None,
    }
}

/// The collection with its notification settings replaced; an absent
/// collection file starts as an empty collection holding them.
pub fn update_notification_settings(data: Option<StoresData>, settings: NotificationSettings) -> (r:
    StoresData)
    ensures
        data is Some ==> r@.configs == data->0@.configs && r@.distinct_id == data->0@.distinct_id,
        data is None ==> r@.configs.len() == 0 && r@.distinct_id is None,
        r@.notification == Some(settings@),
{
    match data {
        Some(d) => StoresData {
            configs: d.configs,
            distinct_id: d.distinct_id,
            notification: Some(settings),
        },
        None => {
            let configs: Vec<ConfigStore> = Vec::new();
            proof {
                assert(stores_view(configs@) =~= Seq::<ConfigStoreV>::empty());
            }
            StoresData { configs, distinct_id: None, notification: Some(settings) }
        },
    }
}

/// The idempotent unlock step on the credential file: the placeholder key
/// is added when missing. The result is the content to write, or `None`
/// when the key is already there and no write is needed; a file that is
/// not an object is written back unchanged, as found.
pub fn unlock_cc_ext(config: &Option<Json>) -> (r: Option<Json>)
    ensures
        ({
            let cv = crate::json::opt_json_view(*config);
            match cv {
                None => r matches Some(w) && w@ == JsonV::Obj(
                    seq![("primaryApiKey"@, JsonV::Str("xxx"@))],
                ),
                Some(c) => {
                    if spec_get(c, "primaryApiKey"@) is Some {
                        r is None
                    } else if c is Obj {
                        r matches Some(w) && w@ == JsonV::Obj(
                            crate::json::spec_obj_set(c->Obj_0, "primaryApiKey"@, JsonV::Str(
                                "xxx"@,
                            )),
                        )
                    } else {
                        r matches Some(w) && w@ == c
                    }
                },
            }
        }),
{
    let key = String::from_str("primaryApiKey");
    match config {
        None => {
            let mut fields: Vec<(String, Json)> = Vec::new();
            fields.push((key, Json::Str(String::from_str("xxx"))));
            proof {
                crate::json::lemma_fields_view(fields@);
                assert(crate::json::fields_view(fields@) =~= seq![
                    ("primaryApiKey"@, JsonV::Str("xxx"@)),
                ]);
            }
            Some(Json::Obj(fields))
        },
        Some(c) => {
            match crate::json::obj_get(c, &key) {
                Some(_) => None,
                None => match c {
                    Json::Obj(fields) => {
                        let mut out = crate::json::clone_fields(fields);
                        crate::json::obj_set(
                            &mut out,
                            key,
                            Json::Str(String::from_str("xxx")),
                        );
                        Some(Json::Obj(out))
                    },
                    other => Some(json_clone(other)),
                },
            }
        },
    }
}

} // verus!
