//! Template installation and its exact reversal.

use ccmate::codec::{read_security_packs_manifest, write_security_packs_manifest};
use ccmate::errors::EngineError;
use ccmate::json::Json;
use ccmate::packs::{
    install_security_template, path_escapes, uninstall_security_template, InstallEffect,
    InstalledSecurityPacksFile, SecurityPackInstallPayload, SkillFilePayload, UninstallEffect,
};

fn s(text: &str) -> String {
    text.to_string()
}

fn obj(fields: Vec<(&str, Json)>) -> Json {
    Json::Obj(fields.into_iter().map(|(k, v)| (s(k), v)).collect())
}

fn json_eq(a: &Json, b: &Json) -> bool {
    match (a, b) {
        (Json::Null, Json::Null) => true,
        (Json::Bool(x), Json::Bool(y)) => x == y,
        (Json::Int(x), Json::Int(y)) => x == y,
        (Json::Str(x), Json::Str(y)) => x == y,
        (Json::Arr(x), Json::Arr(y)) => {
            x.len() == y.len() && x.iter().zip(y.iter()).all(|(u, v)| json_eq(u, v))
        }
        (Json::Obj(x), Json::Obj(y)) => {
            x.len() == y.len()
                && x.iter()
                    .zip(y.iter())
                    .all(|(u, v)| u.0 == v.0 && json_eq(&u.1, &v.1))
        }
        _ => false,
    }
}

fn empty_manifest() -> InstalledSecurityPacksFile {
    InstalledSecurityPacksFile { version: 1, items: Vec::new() }
}

fn skill_payload(id: &str, files: Vec<(&str, &str)>) -> SecurityPackInstallPayload {
    SecurityPackInstallPayload {
        template_type: s("skill"),
        id: s(id),
        content: None,
        skill_files: Some(
            files
                .into_iter()
                .map(|(p, c)| SkillFilePayload { relative_path: s(p), content: s(c) })
                .collect(),
        ),
        server_name: None,
        server_config: None,
    }
}

#[test]
fn skill_install_then_uninstall_leaves_no_trace() {
    let payload = skill_payload("demo", vec![("SKILL.md", "x")]);
    let (manifest, effect) =
        install_security_template(payload, empty_manifest(), &s("/h"), false, &None).unwrap();
    assert_eq!(manifest.items.len(), 1);
    assert_eq!(manifest.items[0].template_type, "skill");
    assert_eq!(manifest.items[0].id, "demo");
    assert_eq!(manifest.items[0].target_path, "/h/.agent/skills/demo");
    match &effect {
        InstallEffect::WriteSkillDir { dir, files } => {
            assert_eq!(dir, "/h/.agent/skills/demo");
            assert_eq!(files.len(), 1);
            assert_eq!(files[0].relative_path, "SKILL.md");
            assert_eq!(files[0].content, "x");
        }
        _ => panic!("a skill install writes a directory"),
    }
    let (after, effects) =
        uninstall_security_template(manifest, &s("skill"), &s("demo"), None, None).unwrap();
    assert!(after.items.iter().all(|it| !(it.template_type == "skill" && it.id == "demo")));
    assert!(after.items.is_empty());
    assert_eq!(effects.len(), 1);
    match &effects[0] {
        UninstallEffect::RemoveDir { path } => assert_eq!(path, "/h/.agent/skills/demo"),
        _ => panic!("a skill uninstall removes its directory"),
    }
}

#[test]
fn skill_install_rejects_traversal_paths_before_any_write() {
    let payload = skill_payload("demo", vec![("SKILL.md", "x"), ("../escape.md", "y")]);
    let r = install_security_template(payload, empty_manifest(), &s("/h"), false, &None);
    assert!(matches!(r, Err(EngineError::MalformedInput)));
}

#[test]
fn traversal_detection_works_on_segments_only() {
    assert!(path_escapes(&s("..")));
    assert!(path_escapes(&s("../x")));
    assert!(path_escapes(&s("a/../b")));
    assert!(path_escapes(&s("a\\..\\b")));
    assert!(path_escapes(&s("a/..")));
    assert!(!path_escapes(&s("a..b")));
    assert!(!path_escapes(&s("a/..b")));
    assert!(!path_escapes(&s("a/b..")));
    assert!(!path_escapes(&s("...")));
    assert!(!path_escapes(&s("SKILL.md")));
}

#[test]
fn existing_target_is_never_overwritten() {
    let agent = SecurityPackInstallPayload {
        template_type: s("agent"),
        id: s("helper"),
        content: Some(s("body")),
        skill_files: None,
        server_name: None,
        server_config: None,
    };
    let r = install_security_template(agent, empty_manifest(), &s("/h"), true, &None);
    assert!(matches!(r, Err(EngineError::AlreadyExists)));
    let skill = skill_payload("demo", vec![("SKILL.md", "x")]);
    let r2 = install_security_template(skill, empty_manifest(), &s("/h"), true, &None);
    assert!(matches!(r2, Err(EngineError::AlreadyExists)));
}

#[test]
fn agent_install_writes_one_file_under_the_agents_directory() {
    let payload = SecurityPackInstallPayload {
        template_type: s("agent"),
        id: s("helper"),
        content: Some(s("body")),
        skill_files: None,
        server_name: None,
        server_config: None,
    };
    let (manifest, effect) =
        install_security_template(payload, empty_manifest(), &s("/h"), false, &None).unwrap();
    assert_eq!(manifest.items[0].target_path, "/h/.agent/agents/helper.md");
    match &effect {
        InstallEffect::WriteFile { path, content } => {
            assert_eq!(path, "/h/.agent/agents/helper.md");
            assert_eq!(content, "body");
        }
        _ => panic!("an agent install writes one file"),
    }
}

#[test]
fn command_install_without_content_is_malformed() {
    let payload = SecurityPackInstallPayload {
        template_type: s("command"),
        id: s("c"),
        content: None,
        skill_files: None,
        server_name: None,
        server_config: None,
    };
    let r = install_security_template(payload, empty_manifest(), &s("/h"), false, &None);
    assert!(matches!(r, Err(EngineError::MalformedInput)));
}

#[test]
fn unknown_template_type_is_refused() {
    let payload = SecurityPackInstallPayload {
        template_type: s("theme"),
        id: s("t"),
        content: Some(s("x")),
        skill_files: None,
        server_name: None,
        server_config: None,
    };
    let r = install_security_template(payload, empty_manifest(), &s("/h"), false, &None);
    assert!(matches!(r, Err(EngineError::MalformedInput)));
}

#[test]
fn mcp_install_registers_the_server_and_marks_the_item() {
    let payload = SecurityPackInstallPayload {
        template_type: s("mcp"),
        id: s("pack"),
        content: None,
        skill_files: None,
        server_name: Some(s("scanner")),
        server_config: Some(obj(vec![("port", Json::Int(5))])),
    };
    let (manifest, effect) =
        install_security_template(payload, empty_manifest(), &s("/h"), false, &None).unwrap();
    assert_eq!(manifest.items[0].template_type, "mcp");
    assert_eq!(manifest.items[0].id, "scanner");
    assert_eq!(manifest.items[0].target_path, "mcp");
    match &effect {
        InstallEffect::WriteMcpFile { content } => {
            let expected = obj(vec![(
                "mcpServers",
                obj(vec![("scanner", obj(vec![("port", Json::Int(5))]))]),
            )]);
            assert!(json_eq(content, &expected));
        }
        _ => panic!("a server install rewrites the registration file"),
    }
}

#[test]
fn mcp_uninstall_unregisters_and_cleans_the_overlays() {
    let payload = SecurityPackInstallPayload {
        template_type: s("mcp"),
        id: s("pack"),
        content: None,
        skill_files: None,
        server_name: Some(s("scanner")),
        server_config: Some(obj(vec![])),
    };
    let (manifest, effect) =
        install_security_template(payload, empty_manifest(), &s("/h"), false, &None).unwrap();
    let mcp_file = match effect {
        InstallEffect::WriteMcpFile { content } => content,
        _ => panic!("a server install rewrites the registration file"),
    };
    let settings = obj(vec![
        ("enabledMcpjsonServers", Json::Arr(vec![Json::Str(s("scanner"))])),
        ("disabledMcpjsonServers", Json::Arr(vec![])),
    ]);
    let (after, effects) = uninstall_security_template(
        manifest,
        &s("mcp"),
        &s("scanner"),
        Some(mcp_file),
        Some(settings),
    )
    .unwrap();
    assert!(after.items.is_empty());
    assert_eq!(effects.len(), 2);
    match &effects[0] {
        UninstallEffect::WriteMcpFile { content } => {
            assert!(json_eq(content, &obj(vec![])));
        }
        _ => panic!("the registry write comes first"),
    }
    match &effects[1] {
        UninstallEffect::WriteSettings { content } => {
            let expected = obj(vec![
                ("enabledMcpjsonServers", Json::Arr(vec![])),
                ("disabledMcpjsonServers", Json::Arr(vec![])),
            ]);
            assert!(json_eq(content, &expected));
        }
        _ => panic!("the overlays are cleaned second"),
    }
}

#[test]
fn uninstall_keeps_unrelated_items_and_errors_on_missing_registry() {
    let payload = skill_payload("keepme", vec![("SKILL.md", "x")]);
    let (manifest, _) =
        install_security_template(payload, empty_manifest(), &s("/h"), false, &None).unwrap();
    let (after, effects) =
        uninstall_security_template(manifest, &s("skill"), &s("other"), None, None).unwrap();
    assert_eq!(after.items.len(), 1);
    assert!(effects.is_empty());
    // A recorded server whose registration file is gone aborts the reversal.
    let manifest2 = InstalledSecurityPacksFile {
        version: 1,
        items: vec![ccmate::packs::InstalledSecurityPackItem {
            template_type: s("mcp"),
            id: s("ghost"),
            target_path: s("mcp"),
            installed_at: s("sometime"),
        }],
    };
    let r = uninstall_security_template(manifest2, &s("mcp"), &s("ghost"), None, None);
    assert!(matches!(r, Err(EngineError::NotFound)));
}

#[test]
fn manifest_file_round_trip() {
    let manifest = InstalledSecurityPacksFile {
        version: 3,
        items: vec![ccmate::packs::InstalledSecurityPackItem {
            template_type: s("agent"),
            id: s("helper"),
            target_path: s("/h/.agent/agents/helper.md"),
            installed_at: s("then"),
        }],
    };
    let doc = write_security_packs_manifest(&manifest);
    let decoded = read_security_packs_manifest(&Some(doc)).unwrap();
    assert_eq!(decoded.version, 3);
    assert_eq!(decoded.items.len(), 1);
    assert_eq!(decoded.items[0].id, "helper");
    assert_eq!(decoded.items[0].installed_at, "then");
    let fresh = read_security_packs_manifest(&None).unwrap();
    assert_eq!(fresh.version, 1);
    assert!(fresh.items.is_empty());
    assert!(matches!(
        read_security_packs_manifest(&Some(Json::Int(3))),
        Err(EngineError::MalformedInput)
    ));
}
