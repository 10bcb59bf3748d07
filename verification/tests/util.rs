//! Path resolution, registry rewrites, plugin sources and listing helpers.

use ccmate::errors::EngineError;
use ccmate::json::Json;
use ccmate::listing::{classify_md_filename, get_os_name, usage_record_from_line};
use ccmate::paths::{
    config_file_path, enabled_plugins_settings_path, get_settings_path, global_memory_paths,
    plugin_settings_path, project_memory_paths, resolve_memory_paths,
    security_packs_manifest_path, skill_base_dir_for_source,
};
use ccmate::plugins::{
    parse_plugin_mcp_json, plugin_enabled, read_enabled_plugins, should_include_install,
    update_enabled_plugins, PluginInstallInfo,
};
use ccmate::registry::{
    delete_global_mcp_server, read_json_file_mcp_servers, read_project_mcp_servers,
    update_global_mcp_server,
};
use ccmate::servers::{check_mcp_server_exists, get_global_mcp_servers};
use ccmate::toggle::remove_mcp_from_settings;

fn s(text: &str) -> String {
    text.to_string()
}

fn obj(fields: Vec<(&str, Json)>) -> Json {
    Json::Obj(fields.into_iter().map(|(k, v)| (s(k), v)).collect())
}

fn json_eq(a: &Json, b: &Json) -> bool {
    match (a, b) {
        (Json::Null, Json::Null) => true,
        (Json::Bool(x), Json::Bool(y)) => x == y,
        (Json::Int(x), Json::Int(y)) => x == y,
        (Json::Str(x), Json::Str(y)) => x == y,
        (Json::Arr(x), Json::Arr(y)) => {
            x.len() == y.len() && x.iter().zip(y.iter()).all(|(u, v)| json_eq(u, v))
        }
        (Json::Obj(x), Json::Obj(y)) => {
            x.len() == y.len()
                && x.iter()
                    .zip(y.iter())
                    .all(|(u, v)| u.0 == v.0 && json_eq(&u.1, &v.1))
        }
        _ => false,
    }
}

#[test]
fn settings_path_follows_scope_preference() {
    let home = s("/h");
    let proj = Some(s("/p"));
    assert_eq!(get_settings_path(&home, &proj, true, false, false), "/p/.agent/settings.local.json");
    assert_eq!(get_settings_path(&home, &proj, false, true, true), "/p/.agent/settings.local.json");
    assert_eq!(get_settings_path(&home, &proj, false, false, true), "/p/.agent/settings.json");
    assert_eq!(get_settings_path(&home, &proj, false, false, false), "/h/.agent/settings.json");
    assert_eq!(get_settings_path(&home, &None, true, true, true), "/h/.agent/settings.json");
}

#[test]
fn memory_and_skill_paths_resolve_per_source() {
    let home = s("/h");
    assert_eq!(global_memory_paths(&home).0, "/h/.agent/MEMORY.md");
    assert_eq!(project_memory_paths(&s("/p")).1, "/p/MEMORY.md.disabled");
    let pair = resolve_memory_paths(&s("project"), &home, &Some(s("/p"))).unwrap();
    assert_eq!(pair.0, "/p/MEMORY.md");
    assert!(matches!(
        resolve_memory_paths(&s("project"), &home, &None),
        Err(EngineError::MalformedInput)
    ));
    assert!(matches!(
        resolve_memory_paths(&s("plugin"), &home, &None),
        Err(EngineError::MalformedInput)
    ));
    assert_eq!(skill_base_dir_for_source(&home, &s("global"), &None).unwrap(), "/h/.agent/skills");
    assert_eq!(security_packs_manifest_path(&home), "/h/.ccconfig/security_packs/installed.json");
    assert_eq!(config_file_path(&home, &s("user")).unwrap(), "/h/.agent/settings.json");
    assert!(matches!(
        config_file_path(&home, &s("nonsense")),
        Err(EngineError::MalformedInput)
    ));
}

#[test]
fn plugin_settings_paths_depend_on_scope() {
    let home = s("/h");
    assert_eq!(
        enabled_plugins_settings_path(&home, &s("user"), &None).unwrap(),
        "/h/.agent/settings.json"
    );
    assert_eq!(
        enabled_plugins_settings_path(&home, &s("local"), &Some(s("/p"))).unwrap(),
        "/p/.agent/settings.local.json"
    );
    assert!(enabled_plugins_settings_path(&home, &s("local"), &None).is_none());
    assert!(matches!(
        plugin_settings_path(&home, &s("local"), &None),
        Err(EngineError::MalformedInput)
    ));
}

#[test]
fn install_filter_matches_scope_and_project() {
    let mk = |scope: &str, proj: Option<&str>| PluginInstallInfo {
        scope: s(scope),
        install_path: s("/plug"),
        version: s("1.0"),
        installed_at: s("t"),
        last_updated: s("t"),
        git_commit_sha: s("deadbeef"),
        project_path: proj.map(s),
    };
    let cwd = Some(s("/p"));
    assert!(should_include_install(&mk("user", None), &cwd));
    assert!(should_include_install(&mk("local", Some("/p")), &cwd));
    assert!(!should_include_install(&mk("local", Some("/q")), &cwd));
    assert!(!should_include_install(&mk("local", None), &cwd));
    assert!(should_include_install(&mk("local", Some("/q")), &None));
    assert!(should_include_install(&mk("local", Some("/q")), &Some(s(""))));
}

#[test]
fn enabled_plugins_default_to_on() {
    let settings = obj(vec![(
        "enabledPlugins",
        obj(vec![("off", Json::Bool(false)), ("on", Json::Bool(true)), ("odd", Json::Int(1))]),
    )]);
    let map = read_enabled_plugins(&settings);
    assert_eq!(map.len(), 2);
    assert!(!plugin_enabled(&map, &s("off")));
    assert!(plugin_enabled(&map, &s("on")));
    assert!(plugin_enabled(&map, &s("odd")));
    assert!(plugin_enabled(&map, &s("unlisted")));
}

#[test]
fn plugin_toggle_records_the_flag() {
    let settings = obj(vec![]);
    let out = update_enabled_plugins(&settings, &s("toolkit"), false).unwrap();
    let expected = obj(vec![("enabledPlugins", obj(vec![("toolkit", Json::Bool(false))]))]);
    assert!(json_eq(&out, &expected));
    assert!(matches!(
        update_enabled_plugins(&Json::Null, &s("toolkit"), true),
        Err(EngineError::MalformedInput)
    ));
}

#[test]
fn plugin_registration_file_object_form() {
    let file = obj(vec![(
        "mcpServers",
        obj(vec![("a", obj(vec![("port", Json::Int(1))])), ("skipme", Json::Int(2))]),
    )]);
    let servers = parse_plugin_mcp_json(&s("plug"), &file);
    assert_eq!(servers.len(), 1);
    assert_eq!(servers[0].0, "a");
}

#[test]
fn plugin_registration_file_array_form_names_by_field_or_index() {
    let file = obj(vec![(
        "mcpServers",
        Json::Arr(vec![
            obj(vec![("name", Json::Str(s("named")))]),
            obj(vec![("port", Json::Int(1))]),
            Json::Int(7),
            obj(vec![("name", Json::Int(3))]),
        ]),
    )]);
    let servers = parse_plugin_mcp_json(&s("plug"), &file);
    assert_eq!(servers.len(), 3);
    assert_eq!(servers[0].0, "named");
    assert_eq!(servers[1].0, "plug-1");
    assert_eq!(servers[2].0, "plug-3");
}

#[test]
fn plugin_registration_file_bare_form_is_one_server() {
    let file = obj(vec![("command", Json::Str(s("run")))]);
    let servers = parse_plugin_mcp_json(&s("plug"), &file);
    assert_eq!(servers.len(), 1);
    assert_eq!(servers[0].0, "plug");
    assert!(json_eq(&servers[0].1, &file));
    let not_obj = Json::Arr(vec![]);
    assert!(parse_plugin_mcp_json(&s("plug"), &not_obj).is_empty());
}

#[test]
fn registration_readers_tolerate_missing_pieces() {
    let file = Some(obj(vec![("mcpServers", obj(vec![("a", obj(vec![]))]))]));
    assert_eq!(read_json_file_mcp_servers(&file).len(), 1);
    assert!(read_json_file_mcp_servers(&None).is_empty());
    let direct = Some(obj(vec![(
        "projects",
        obj(vec![("/p", obj(vec![("mcpServers", obj(vec![("b", obj(vec![]))]))]))]),
    )]));
    assert_eq!(read_project_mcp_servers(&direct, &s("/p")).len(), 1);
    assert!(read_project_mcp_servers(&direct, &s("/q")).is_empty());
}

#[test]
fn registry_update_then_delete_round_trip() {
    let updated = update_global_mcp_server(&None, &s("srv"), obj(vec![("port", Json::Int(1))]))
        .unwrap();
    let expected = obj(vec![(
        "mcpServers",
        obj(vec![("srv", obj(vec![("port", Json::Int(1))]))]),
    )]);
    assert!(json_eq(&updated, &expected));
    let deleted = delete_global_mcp_server(&Some(updated), &s("srv")).unwrap();
    assert!(json_eq(&deleted, &obj(vec![])));
    assert!(matches!(
        delete_global_mcp_server(&None, &s("srv")),
        Err(EngineError::NotFound)
    ));
    assert!(matches!(
        delete_global_mcp_server(&Some(obj(vec![])), &s("srv")),
        Err(EngineError::NotFound)
    ));
    assert!(matches!(
        update_global_mcp_server(&Some(Json::Int(1)), &s("srv"), obj(vec![])),
        Err(EngineError::MalformedInput)
    ));
}

#[test]
fn deleting_a_server_scrubs_the_overlays() {
    let settings = Some(obj(vec![
        ("enabledMcpjsonServers", Json::Arr(vec![Json::Str(s("srv")), Json::Str(s("keep"))])),
        ("disabledMcpjsonServers", Json::Arr(vec![Json::Str(s("srv"))])),
    ]));
    let written = remove_mcp_from_settings(&settings, &s("srv")).unwrap().unwrap();
    let expected = obj(vec![
        ("enabledMcpjsonServers", Json::Arr(vec![Json::Str(s("keep"))])),
        ("disabledMcpjsonServers", Json::Arr(vec![])),
    ]);
    assert!(json_eq(&written, &expected));
    assert!(remove_mcp_from_settings(&None, &s("srv")).unwrap().is_none());
    assert!(matches!(
        remove_mcp_from_settings(&Some(Json::Int(1)), &s("srv")),
        Err(EngineError::MalformedInput)
    ));
}

#[test]
fn global_view_prefers_the_direct_file() {
    let mcpjson = vec![(s("dup"), obj(vec![("port", Json::Int(1))])), (s("only"), obj(vec![]))];
    let direct = vec![(s("dup"), obj(vec![("port", Json::Int(2))]))];
    let merged = get_global_mcp_servers(&mcpjson, &direct, &s("/h"));
    assert_eq!(merged.len(), 2);
    for (name, server) in &merged {
        if name == "dup" {
            assert!(json_eq(&server.config, &obj(vec![("port", Json::Int(2))])));
            assert!(!server.controllable);
        }
    }
    assert!(check_mcp_server_exists(&mcpjson, &direct, &s("only")));
    assert!(!check_mcp_server_exists(&mcpjson, &direct, &s("ghost")));
}

#[test]
fn md_file_names_classify_into_stem_and_state() {
    assert_eq!(classify_md_filename(&s("build.md")), Some((s("build"), false)));
    assert_eq!(classify_md_filename(&s("build.md.disabled")), Some((s("build"), true)));
    assert_eq!(classify_md_filename(&s("notes.txt")), None);
    assert_eq!(classify_md_filename(&s(".md")), Some((s(""), false)));
}

#[test]
fn os_names_map_to_display_forms() {
    assert_eq!(get_os_name(&s("macos")), "macOS");
    assert_eq!(get_os_name(&s("windows")), "Windows");
    assert_eq!(get_os_name(&s("linux")), "Linux");
    assert_eq!(get_os_name(&s("plan9")), "Unknown");
}

#[test]
fn usage_lines_contribute_only_meaningful_records() {
    let line = obj(vec![
        ("uuid", Json::Str(s("u1"))),
        ("timestamp", Json::Str(s("t1"))),
        (
            "message",
            obj(vec![
                ("model", Json::Str(s("m"))),
                ("usage", obj(vec![("input_tokens", Json::Int(3)), ("output_tokens", Json::Int(0))])),
            ]),
        ),
    ]);
    let rec = usage_record_from_line(&line).unwrap();
    assert_eq!(rec.uuid, "u1");
    assert_eq!(rec.model, Some(s("m")));
    let usage = rec.usage.unwrap();
    assert_eq!(usage.input_tokens, Some(3));
    assert_eq!(usage.output_tokens, Some(0));

    let empty_uuid = obj(vec![
        ("uuid", Json::Str(s(""))),
        ("timestamp", Json::Str(s("t"))),
        ("usage", obj(vec![("input_tokens", Json::Int(3))])),
    ]);
    assert!(usage_record_from_line(&empty_uuid).is_none());

    let zero_tokens = obj(vec![
        ("uuid", Json::Str(s("u"))),
        ("timestamp", Json::Str(s("t"))),
        ("usage", obj(vec![("input_tokens", Json::Int(0))])),
    ]);
    assert!(usage_record_from_line(&zero_tokens).is_none());

    let no_usage = obj(vec![("uuid", Json::Str(s("u"))), ("timestamp", Json::Str(s("t")))]);
    assert!(usage_record_from_line(&no_usage).is_none());
}

#[test]
fn memory_entries_prefer_the_active_file() {
    let entry = ccmate::listing::read_memory_entry_from_paths(
        s("/h/.agent/MEMORY.md"),
        s("/h/.agent/MEMORY.md.disabled"),
        s("global"),
        s("global"),
        None,
        true,
        true,
        s("remember"),
    );
    assert!(entry.exists);
    assert!(!entry.disabled);
    assert_eq!(entry.path, "/h/.agent/MEMORY.md");
    assert_eq!(entry.content, "remember");
    let fallback = ccmate::listing::read_memory_entry_from_paths(
        s("/h/a"),
        s("/h/b"),
        s("global"),
        s("global"),
        None,
        false,
        true,
        s("kept"),
    );
    assert!(fallback.disabled);
    assert_eq!(fallback.path, "/h/b");
    let missing = ccmate::listing::read_memory_entry_from_paths(
        s("/h/a"),
        s("/h/b"),
        s("n"),
        s("global"),
        None,
        false,
        false,
        s("ignored"),
    );
    assert!(!missing.exists);
    assert_eq!(missing.content, "");
    assert_eq!(missing.path, "/h/a");
}
