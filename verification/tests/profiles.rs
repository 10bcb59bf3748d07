//! The profile store and the partial merge.

use ccmate::codec::{read_stores_file, stores_to_json};
use ccmate::errors::EngineError;
use ccmate::json::Json;
use ccmate::merge::merge_settings;
use ccmate::profiles::{
    create_config, delete_config, get_current_store, get_notification_settings,
    get_or_create_distinct_id, get_store, get_stores, reset_to_original_config, set_using_config,
    sort_stores_by_created, unlock_cc_ext, update_config, update_notification_settings,
    ConfigStore, NotificationSettings, StoresData,
};

fn s(text: &str) -> String {
    text.to_string()
}

fn obj(fields: Vec<(&str, Json)>) -> Json {
    Json::Obj(fields.into_iter().map(|(k, v)| (s(k), v)).collect())
}

fn json_eq(a: &Json, b: &Json) -> bool {
    match (a, b) {
        (Json::Null, Json::Null) => true,
        (Json::Bool(x), Json::Bool(y)) => x == y,
        (Json::Int(x), Json::Int(y)) => x == y,
        (Json::Str(x), Json::Str(y)) => x == y,
        (Json::Arr(x), Json::Arr(y)) => {
            x.len() == y.len() && x.iter().zip(y.iter()).all(|(u, v)| json_eq(u, v))
        }
        (Json::Obj(x), Json::Obj(y)) => {
            x.len() == y.len()
                && x.iter()
                    .zip(y.iter())
                    .all(|(u, v)| u.0 == v.0 && json_eq(&u.1, &v.1))
        }
        _ => false,
    }
}

fn empty_data() -> StoresData {
    StoresData { configs: Vec::new(), distinct_id: None, notification: None }
}

fn count_using(data: &StoresData) -> usize {
    data.configs.iter().filter(|c| c.using).count()
}

#[test]
fn merge_overwrites_only_the_given_keys() {
    let live = obj(vec![("a", Json::Int(1)), ("b", Json::Int(2))]);
    let patch = obj(vec![("b", Json::Int(9)), ("c", Json::Int(3))]);
    let merged = merge_settings(&live, &patch);
    let expected = obj(vec![("a", Json::Int(1)), ("b", Json::Int(9)), ("c", Json::Int(3))]);
    assert!(json_eq(&merged, &expected));
}

#[test]
fn merge_replaces_a_live_file_that_is_not_an_object() {
    let live = Json::Str(s("oops"));
    let patch = obj(vec![("env", obj(vec![]))]);
    let merged = merge_settings(&live, &patch);
    assert!(json_eq(&merged, &patch));
}

#[test]
fn first_profile_becomes_active_and_captures_the_original() {
    let live = Some(obj(vec![("env", obj(vec![]))]));
    let settings = obj(vec![("env", obj(vec![("FOO", Json::Str(s("1")))]))]);
    let out = create_config(empty_data(), s("p1"), s("Default"), settings, &live).unwrap();
    assert!(out.store.using);
    assert_eq!(out.store.id, "p1");
    assert_eq!(out.store.title, "Default");
    assert_eq!(out.data.configs.len(), 2);
    let original = &out.data.configs[0];
    assert_eq!(original.title, "Original Config");
    assert!(!original.using);
    assert!(json_eq(&original.settings, &obj(vec![("env", obj(vec![]))])));
    // The captured snapshot's identifier is freshly minted, six characters.
    assert_eq!(original.id.chars().count(), 6);
    let written = out.live_write.expect("first profile mirrors its settings");
    let expected = obj(vec![("env", obj(vec![("FOO", Json::Str(s("1")))]))]);
    assert!(json_eq(&written, &expected));
    assert!(out.store.created_at > 1_000_000_000);
}

#[test]
fn first_profile_without_a_live_file_captures_nothing() {
    let out = create_config(empty_data(), s("p1"), s("T"), obj(vec![]), &None).unwrap();
    assert_eq!(out.data.configs.len(), 1);
    assert!(out.store.using);
    let written = out.live_write.unwrap();
    assert!(json_eq(&written, &obj(vec![])));
}

#[test]
fn later_profiles_start_inactive_and_write_nothing() {
    let first = create_config(empty_data(), s("p1"), s("A"), obj(vec![]), &None).unwrap();
    let second = create_config(first.data, s("p2"), s("B"), obj(vec![]), &None).unwrap();
    assert!(!second.store.using);
    assert!(second.live_write.is_none());
    assert_eq!(count_using(&second.data), 1);
}

#[test]
fn at_most_one_profile_stays_active_across_operations() {
    let a = create_config(empty_data(), s("p1"), s("A"), obj(vec![]), &None).unwrap();
    let b = create_config(a.data, s("p2"), s("B"), obj(vec![]), &None).unwrap();
    let c = create_config(b.data, s("p3"), s("C"), obj(vec![]), &None).unwrap();
    assert!(count_using(&c.data) <= 1);
    let (activated, _) = set_using_config(c.data, &s("p2"), &None).unwrap();
    assert_eq!(count_using(&activated), 1);
    assert!(activated.configs.iter().any(|p| p.id == "p2" && p.using));
    let (again, _) = set_using_config(activated, &s("p3"), &None).unwrap();
    assert_eq!(count_using(&again), 1);
    let trimmed = delete_config(again, &s("p3")).unwrap();
    assert!(count_using(&trimmed) <= 1);
    assert_eq!(trimmed.configs.len(), 2);
    let (reset, _) = reset_to_original_config(Some(trimmed), &None);
    assert_eq!(count_using(&reset.unwrap()), 0);
}

#[test]
fn activation_merges_the_selected_settings_into_the_live_file() {
    let data = StoresData {
        configs: vec![ConfigStore {
            id: s("p1"),
            title: s("A"),
            created_at: 7,
            settings: obj(vec![("b", Json::Int(9)), ("c", Json::Int(3))]),
            using: false,
        }],
        distinct_id: None,
        notification: None,
    };
    let live = Some(obj(vec![("a", Json::Int(1)), ("b", Json::Int(2))]));
    let (_, written) = set_using_config(data, &s("p1"), &live).unwrap();
    let expected = obj(vec![("a", Json::Int(1)), ("b", Json::Int(9)), ("c", Json::Int(3))]);
    assert!(json_eq(&written, &expected));
}

#[test]
fn set_using_unknown_id_is_not_found() {
    let r = set_using_config(empty_data(), &s("ghost"), &None);
    assert!(matches!(r, Err(EngineError::NotFound)));
}

#[test]
fn update_rewrites_title_settings_and_live_file_of_the_active_profile() {
    let data = StoresData {
        configs: vec![ConfigStore {
            id: s("p1"),
            title: s("Old"),
            created_at: 7,
            settings: obj(vec![]),
            using: true,
        }],
        distinct_id: None,
        notification: None,
    };
    let live = Some(obj(vec![("a", Json::Int(1))]));
    let patch = obj(vec![("b", Json::Int(2))]);
    let (data2, updated, written) = update_config(data, &s("p1"), s("New"), patch, &live).unwrap();
    assert_eq!(updated.title, "New");
    assert_eq!(updated.created_at, 7);
    assert!(updated.using);
    assert_eq!(data2.configs.len(), 1);
    let w = written.unwrap();
    let expected = obj(vec![("a", Json::Int(1)), ("b", Json::Int(2))]);
    assert!(json_eq(&w, &expected));
}

#[test]
fn update_of_an_inactive_profile_leaves_the_live_file_alone() {
    let data = StoresData {
        configs: vec![ConfigStore {
            id: s("p1"),
            title: s("Old"),
            created_at: 7,
            settings: obj(vec![]),
            using: false,
        }],
        distinct_id: None,
        notification: None,
    };
    let (_, _, written) = update_config(data, &s("p1"), s("New"), obj(vec![]), &None).unwrap();
    assert!(written.is_none());
}

#[test]
fn update_unknown_id_is_not_found() {
    let r = update_config(empty_data(), &s("nope"), s("T"), obj(vec![]), &None);
    assert!(matches!(r, Err(EngineError::NotFound)));
}

#[test]
fn delete_removes_every_snapshot_with_the_id_and_nothing_else() {
    let mk = |id: &str, at: u64| ConfigStore {
        id: s(id),
        title: s(id),
        created_at: at,
        settings: obj(vec![]),
        using: false,
    };
    let data = StoresData {
        configs: vec![mk("a", 1), mk("b", 2), mk("a", 3)],
        distinct_id: None,
        notification: None,
    };
    let out = delete_config(data, &s("a")).unwrap();
    assert_eq!(out.configs.len(), 1);
    assert_eq!(out.configs[0].id, "b");
}

#[test]
fn delete_unknown_id_is_not_found() {
    let r = delete_config(empty_data(), &s("nope"));
    assert!(matches!(r, Err(EngineError::NotFound)));
}

#[test]
fn reset_clears_the_env_key_and_keeps_the_rest() {
    let live = Some(obj(vec![
        ("env", obj(vec![("FOO", Json::Str(s("1")))])),
        ("other", Json::Int(4)),
    ]));
    let (_, written) = reset_to_original_config(None, &live);
    let expected = obj(vec![("env", obj(vec![])), ("other", Json::Int(4))]);
    assert!(json_eq(&written, &expected));
}

#[test]
fn listing_sorts_oldest_first_and_fills_default_notification() {
    let mk = |id: &str, at: u64| ConfigStore {
        id: s(id),
        title: s(id),
        created_at: at,
        settings: obj(vec![]),
        using: false,
    };
    let data = StoresData {
        configs: vec![mk("late", 30), mk("early", 10), mk("mid", 20)],
        distinct_id: None,
        notification: None,
    };
    let (persisted, must_write, sorted) = get_stores(data);
    assert!(must_write);
    let n = persisted.notification.unwrap();
    assert!(n.enable);
    assert_eq!(n.enabled_hooks, vec![s("Notification")]);
    let ids: Vec<&str> = sorted.iter().map(|c| c.id.as_str()).collect();
    assert_eq!(ids, vec!["early", "mid", "late"]);
}

#[test]
fn sorting_is_a_permutation() {
    let mk = |id: &str, at: u64| ConfigStore {
        id: s(id),
        title: s(id),
        created_at: at,
        settings: obj(vec![]),
        using: false,
    };
    let sorted = sort_stores_by_created(&vec![mk("b", 5), mk("a", 5), mk("c", 1)]);
    assert_eq!(sorted.len(), 3);
    assert_eq!(sorted[0].id, "c");
}

#[test]
fn current_store_is_the_active_one() {
    let data = StoresData {
        configs: vec![
            ConfigStore { id: s("x"), title: s("X"), created_at: 1, settings: obj(vec![]), using: false },
            ConfigStore { id: s("y"), title: s("Y"), created_at: 2, settings: obj(vec![]), using: true },
        ],
        distinct_id: None,
        notification: None,
    };
    let current = get_current_store(&data.configs).unwrap();
    assert_eq!(current.id, "y");
    let fetched = get_store(&data.configs, &s("x")).unwrap();
    assert_eq!(fetched.id, "x");
    assert!(matches!(get_store(&data.configs, &s("z")), Err(EngineError::NotFound)));
}

#[test]
fn distinct_id_is_created_once_and_reused() {
    let (with_id, fresh, wrote) = get_or_create_distinct_id(empty_data());
    assert!(wrote);
    assert_eq!(fresh.chars().count(), 36);
    let (unchanged, again, wrote2) = get_or_create_distinct_id(with_id);
    assert!(!wrote2);
    assert_eq!(fresh, again);
    assert_eq!(unchanged.distinct_id, Some(fresh));
}

#[test]
fn notification_settings_read_and_write() {
    assert!(get_notification_settings(&None).is_none());
    let updated = update_notification_settings(
        None,
        NotificationSettings { enable: false, enabled_hooks: vec![s("Stop")] },
    );
    let read = get_notification_settings(&Some(updated)).unwrap();
    assert!(!read.enable);
    assert_eq!(read.enabled_hooks, vec![s("Stop")]);
}

#[test]
fn unlock_adds_the_placeholder_key_only_when_missing() {
    let missing = unlock_cc_ext(&None).unwrap();
    let expected = obj(vec![("primaryApiKey", Json::Str(s("xxx")))]);
    assert!(json_eq(&missing, &expected));
    let already = unlock_cc_ext(&Some(expected));
    assert!(already.is_none());
    let other = obj(vec![("a", Json::Int(1))]);
    let extended = unlock_cc_ext(&Some(other)).unwrap();
    let expected2 = obj(vec![("a", Json::Int(1)), ("primaryApiKey", Json::Str(s("xxx")))]);
    assert!(json_eq(&extended, &expected2));
}

#[test]
fn collection_file_round_trip() {
    let data = StoresData {
        configs: vec![ConfigStore {
            id: s("p1"),
            title: s("T"),
            created_at: 42,
            settings: obj(vec![("k", Json::Str(s("v")))]),
            using: true,
        }],
        distinct_id: Some(s("device-1")),
        notification: Some(NotificationSettings { enable: true, enabled_hooks: vec![s("Notification")] }),
    };
    let doc = stores_to_json(&data);
    let decoded = read_stores_file(&Some(doc)).unwrap();
    assert_eq!(decoded.configs.len(), 1);
    assert_eq!(decoded.configs[0].id, "p1");
    assert_eq!(decoded.configs[0].created_at, 42);
    assert!(decoded.configs[0].using);
    assert!(json_eq(&decoded.configs[0].settings, &obj(vec![("k", Json::Str(s("v")))])));
    assert_eq!(decoded.distinct_id, Some(s("device-1")));
    assert!(decoded.notification.unwrap().enable);
}

#[test]
fn collection_file_rejects_wrong_shapes() {
    assert!(matches!(
        read_stores_file(&Some(Json::Arr(Vec::new()))),
        Err(EngineError::MalformedInput)
    ));
    let bad_store = obj(vec![("configs", Json::Arr(vec![obj(vec![("id", Json::Int(1))])]))]);
    assert!(matches!(read_stores_file(&Some(bad_store)), Err(EngineError::MalformedInput)));
    let absent = read_stores_file(&None).unwrap();
    assert!(absent.configs.is_empty());
    assert!(absent.distinct_id.is_none());
}
