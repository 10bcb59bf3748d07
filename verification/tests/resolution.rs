//! Scope merging and enablement resolution.

use ccmate::enable::{
    compute_server_state, get_mcp_enabled_state, read_settings_from_file, EnableState,
    McpEnabledState, SourceType,
};
use ccmate::json::Json;
use ccmate::servers::{get_mcp_servers_with_state, merge_servers, PluginServer, ServerSources};
use ccmate::toggle::{toggle_direct_mcp_server, toggle_mcp_server_state};

fn s(text: &str) -> String {
    text.to_string()
}

fn obj(fields: Vec<(&str, Json)>) -> Json {
    Json::Obj(fields.into_iter().map(|(k, v)| (s(k), v)).collect())
}

fn str_arr(items: Vec<&str>) -> Json {
    Json::Arr(items.into_iter().map(|x| Json::Str(s(x))).collect())
}

fn json_eq(a: &Json, b: &Json) -> bool {
    match (a, b) {
        (Json::Null, Json::Null) => true,
        (Json::Bool(x), Json::Bool(y)) => x == y,
        (Json::Int(x), Json::Int(y)) => x == y,
        (Json::Str(x), Json::Str(y)) => x == y,
        (Json::Arr(x), Json::Arr(y)) => {
            x.len() == y.len() && x.iter().zip(y.iter()).all(|(u, v)| json_eq(u, v))
        }
        (Json::Obj(x), Json::Obj(y)) => {
            x.len() == y.len()
                && x.iter()
                    .zip(y.iter())
                    .all(|(u, v)| u.0 == v.0 && json_eq(&u.1, &v.1))
        }
        _ => false,
    }
}

fn source_map(pairs: Vec<(&str, i64)>) -> Vec<(String, Json)> {
    pairs
        .into_iter()
        .map(|(name, v)| (s(name), obj(vec![("port", Json::Int(v))])))
        .collect()
}

fn empty_sources() -> ServerSources {
    ServerSources {
        user_mcpjson: Vec::new(),
        user_direct: Vec::new(),
        plugin: Vec::new(),
        project: Vec::new(),
        local: Vec::new(),
    }
}

fn empty_state() -> McpEnabledState {
    McpEnabledState {
        enabled_mcp_json_servers: Vec::new(),
        disabled_mcp_json_servers: Vec::new(),
        disabled_mcp_servers: Vec::new(),
    }
}

#[test]
fn local_scope_wins_over_user_scope() {
    let mut sources = empty_sources();
    sources.user_mcpjson = source_map(vec![("shared", 1)]);
    sources.local = source_map(vec![("shared", 2)]);
    let merged = merge_servers(
        &sources,
        &s("/home/u"),
        &Some(s("/proj")),
        &Some(s("/proj")),
    );
    assert_eq!(merged.len(), 1);
    assert_eq!(merged[0].0, "shared");
    assert_eq!(merged[0].1.scope, "local");
    assert!(json_eq(&merged[0].1.config, &obj(vec![("port", Json::Int(2))])));
    assert_eq!(merged[0].1.defined_in, "/proj/.mcp.json");
}

#[test]
fn local_scope_wins_regardless_of_registration_order() {
    // The same name registered user-side and locally: the merged view
    // reflects the local definition whichever source lists it first.
    let mut a = empty_sources();
    a.user_mcpjson = source_map(vec![("x", 1), ("y", 7)]);
    a.local = source_map(vec![("y", 9), ("x", 3)]);
    let merged = merge_servers(&a, &s("/h"), &Some(s("/p")), &Some(s("/p")));
    for (name, server) in &merged {
        if name == "x" {
            assert!(json_eq(&server.config, &obj(vec![("port", Json::Int(3))])));
        }
        if name == "y" {
            assert!(json_eq(&server.config, &obj(vec![("port", Json::Int(9))])));
        }
        assert_eq!(server.scope, "local");
    }
    assert_eq!(merged.len(), 2);
}

#[test]
fn plugin_never_overrides_user_entry() {
    let mut sources = empty_sources();
    sources.user_mcpjson = source_map(vec![("shared", 1)]);
    sources.plugin = vec![PluginServer {
        name: s("shared"),
        config: obj(vec![("port", Json::Int(99))]),
        plugin_name: s("toolkit"),
        plugin_scope: s("user"),
    }];
    let merged = merge_servers(&sources, &s("/home/u"), &None, &None);
    assert_eq!(merged.len(), 1);
    assert!(matches!(merged[0].1.source_type, SourceType::Mcpjson));
    assert!(json_eq(&merged[0].1.config, &obj(vec![("port", Json::Int(1))])));
}

#[test]
fn plugin_fills_gaps_and_is_overridden_by_project_and_local() {
    let mut sources = empty_sources();
    sources.plugin = vec![
        PluginServer {
            name: s("fresh"),
            config: obj(vec![("port", Json::Int(10))]),
            plugin_name: s("toolkit"),
            plugin_scope: s("user"),
        },
        PluginServer {
            name: s("beaten"),
            config: obj(vec![("port", Json::Int(11))]),
            plugin_name: s("toolkit"),
            plugin_scope: s("user"),
        },
    ];
    sources.project = source_map(vec![("beaten", 20)]);
    let merged = merge_servers(&sources, &s("/h"), &Some(s("/p")), &Some(s("/p")));
    assert_eq!(merged.len(), 2);
    for (name, server) in &merged {
        if name == "fresh" {
            assert!(matches!(server.source_type, SourceType::Plugin));
            assert_eq!(server.scope, "plugin-user");
            assert_eq!(server.defined_in, "Plugin: toolkit (user)");
            assert!(server.controllable);
        }
        if name == "beaten" {
            assert!(matches!(server.source_type, SourceType::Direct));
            assert_eq!(server.scope, "project");
        }
    }
}

#[test]
fn direct_file_overrides_user_registration_file() {
    let mut sources = empty_sources();
    sources.user_mcpjson = source_map(vec![("dup", 1)]);
    sources.user_direct = source_map(vec![("dup", 2)]);
    let merged = merge_servers(&sources, &s("/h"), &None, &None);
    assert_eq!(merged.len(), 1);
    assert!(matches!(merged[0].1.source_type, SourceType::Direct));
    assert!(!merged[0].1.controllable);
    assert!(json_eq(&merged[0].1.config, &obj(vec![("port", Json::Int(2))])));
}

#[test]
fn three_state_rule_for_registered_servers() {
    let state = McpEnabledState {
        enabled_mcp_json_servers: vec![s("both"), s("only_on")],
        disabled_mcp_json_servers: vec![s("both"), s("only_off")],
        disabled_mcp_servers: Vec::new(),
    };
    assert!(matches!(
        compute_server_state(SourceType::Mcpjson, &s("both"), &state),
        EnableState::RuntimeDisabled
    ));
    assert!(matches!(
        compute_server_state(SourceType::Mcpjson, &s("only_off"), &state),
        EnableState::Disabled
    ));
    assert!(matches!(
        compute_server_state(SourceType::Mcpjson, &s("only_on"), &state),
        EnableState::Enabled
    ));
    assert!(matches!(
        compute_server_state(SourceType::Plugin, &s("unlisted"), &state),
        EnableState::Enabled
    ));
}

#[test]
fn direct_servers_know_only_the_direct_disabled_list() {
    let state = McpEnabledState {
        enabled_mcp_json_servers: vec![s("d")],
        disabled_mcp_json_servers: vec![s("d")],
        disabled_mcp_servers: vec![s("d")],
    };
    // No three-state logic for direct entries: the overlays do not matter.
    assert!(matches!(
        compute_server_state(SourceType::Direct, &s("d"), &state),
        EnableState::Disabled
    ));
    let state2 = empty_state();
    assert!(matches!(
        compute_server_state(SourceType::Direct, &s("d"), &state2),
        EnableState::Enabled
    ));
}

#[test]
fn toggle_enable_twice_equals_once() {
    let settings = obj(vec![
        ("disabledMcpjsonServers", str_arr(vec!["srv", "other"])),
        ("keep", Json::Int(5)),
    ]);
    let once = toggle_mcp_server_state(&settings, &s("srv"), true).unwrap();
    let twice = toggle_mcp_server_state(&once, &s("srv"), true).unwrap();
    assert!(json_eq(&once, &twice));
    let expected = obj(vec![
        ("disabledMcpjsonServers", str_arr(vec!["other"])),
        ("keep", Json::Int(5)),
        ("enabledMcpjsonServers", str_arr(vec!["srv"])),
    ]);
    assert!(json_eq(&once, &expected));
}

#[test]
fn toggle_disable_moves_name_into_disabled_array() {
    let settings = obj(vec![("enabledMcpjsonServers", str_arr(vec!["srv"]))]);
    let out = toggle_mcp_server_state(&settings, &s("srv"), false).unwrap();
    let expected = obj(vec![
        ("enabledMcpjsonServers", str_arr(vec![])),
        ("disabledMcpjsonServers", str_arr(vec!["srv"])),
    ]);
    assert!(json_eq(&out, &expected));
}

#[test]
fn toggle_refuses_non_object_settings() {
    let r = toggle_mcp_server_state(&Json::Arr(Vec::new()), &s("srv"), true);
    assert!(matches!(r, Err(ccmate::errors::EngineError::MalformedInput)));
}

#[test]
fn toggle_direct_writes_root_disabled_list() {
    let file = obj(vec![("mcpServers", obj(vec![("d", obj(vec![]))]))]);
    let out = toggle_direct_mcp_server(&file, &s("d"), false, &None).unwrap();
    let expected = obj(vec![
        ("mcpServers", obj(vec![("d", obj(vec![]))])),
        ("disabledMcpServers", str_arr(vec!["d"])),
    ]);
    assert!(json_eq(&out, &expected));
    let back = toggle_direct_mcp_server(&out, &s("d"), true, &None).unwrap();
    let expected_back = obj(vec![
        ("mcpServers", obj(vec![("d", obj(vec![]))])),
        ("disabledMcpServers", str_arr(vec![])),
    ]);
    assert!(json_eq(&back, &expected_back));
}

#[test]
fn toggle_direct_writes_project_disabled_list() {
    let file = obj(vec![]);
    let out = toggle_direct_mcp_server(&file, &s("d"), false, &Some(s("/proj"))).unwrap();
    let expected = obj(vec![(
        "projects",
        obj(vec![("/proj", obj(vec![("disabledMcpServers", str_arr(vec!["d"]))]))]),
    )]);
    assert!(json_eq(&out, &expected));
}

#[test]
fn enabled_state_prefers_project_disabled_list() {
    let settings_file = Some(obj(vec![
        ("enabledMcpjsonServers", str_arr(vec!["a"])),
        ("disabledMcpjsonServers", str_arr(vec!["b", "a"])),
    ]));
    let direct_file = Some(obj(vec![
        ("disabledMcpServers", str_arr(vec!["root_only"])),
        (
            "projects",
            obj(vec![(
                "/proj",
                obj(vec![("disabledMcpServers", str_arr(vec!["proj_only"]))]),
            )]),
        ),
    ]));
    let state = get_mcp_enabled_state(&settings_file, &direct_file, &Some(s("/proj")));
    assert_eq!(state.enabled_mcp_json_servers, vec![s("a")]);
    assert_eq!(state.disabled_mcp_json_servers, vec![s("b"), s("a")]);
    assert_eq!(state.disabled_mcp_servers, vec![s("proj_only")]);
    let state_root = get_mcp_enabled_state(&settings_file, &direct_file, &None);
    assert_eq!(state_root.disabled_mcp_servers, vec![s("root_only")]);
}

#[test]
fn read_settings_skips_non_string_overlay_entries() {
    let file = Some(obj(vec![(
        "enabledMcpjsonServers",
        Json::Arr(vec![Json::Str(s("ok")), Json::Int(3), Json::Str(s("ok2"))]),
    )]));
    let state = read_settings_from_file(&file);
    assert_eq!(state.enabled_mcp_json_servers, vec![s("ok"), s("ok2")]);
    assert!(state.disabled_mcp_json_servers.is_empty());
}

#[test]
fn listing_resolves_state_per_entry() {
    let mut sources = empty_sources();
    sources.user_mcpjson = source_map(vec![("a", 1), ("b", 2)]);
    sources.user_direct = source_map(vec![("c", 3)]);
    let state = McpEnabledState {
        enabled_mcp_json_servers: vec![s("a")],
        disabled_mcp_json_servers: vec![s("b")],
        disabled_mcp_servers: vec![s("c")],
    };
    let listing = get_mcp_servers_with_state(&sources, &s("/h"), &None, &None, &state);
    assert_eq!(listing.len(), 3);
    for entry in &listing {
        match entry.name.as_str() {
            "a" => {
                assert!(matches!(entry.state, EnableState::Enabled));
                assert!(entry.in_enabled_array);
                assert!(!entry.in_disabled_array);
                assert_eq!(entry.defined_in, "/h/.mcp.json");
            }
            "b" => {
                assert!(matches!(entry.state, EnableState::Disabled));
                assert!(entry.in_disabled_array);
            }
            "c" => {
                assert!(matches!(entry.state, EnableState::Disabled));
                assert!(!entry.controllable);
            }
            other => panic!("unexpected entry {}", other),
        }
    }
}
