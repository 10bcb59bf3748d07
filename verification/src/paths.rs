//! Scope-aware path resolution.
//!
//! Every operation picks the file it works on from the authority level it
//! serves: the user-global settings file, a project's shared settings
//! file, or the project-local override file. The helpers here compute
//! those paths as plain strings, composed with `/`; probing the
//! filesystem for what exists is the embedding application's part, handed
//! in as flags.

use vstd::prelude::*;
use vstd::string::StringExecFns;
use crate::errors::EngineError;

verus! {

/// The settings file that governs a scope-aware read or write. Writing
/// prefers the project-local override file; reading falls back from the
/// local file to the project's shared file to the user-global file. With
/// no selected project (or one that is not registered) the user-global
/// file governs.
pub open spec fn spec_settings_path(
    home: Seq<char>,
    project_path: Option<Seq<char>>,
    prefer_local: bool,
    local_exists: bool,
    project_exists: bool,
) -> Seq<char> {
    match project_path {
        Some(p) => if prefer_local {
            p + "/.agent/settings.local.json"@
        } else if local_exists {
            p + "/.agent/settings.local.json"@
        } else if project_exists {
            p + "/.agent/settings.json"@
        } else {
            home + "/.agent/settings.json"@
        },
        None => home + "/.agent/settings.json"@,
    }
}

/// The settings file path for the selected project, if any; `local_exists`
/// and `project_exists` report whether the project's override and shared
/// settings files are present on disk.
pub fn get_settings_path(
    home: &String,
    project_path: &Option<String>,
    prefer_local: bool,
    local_exists: bool,
    project_exists: bool,
) -> (r: String)
    ensures
        r@ == spec_settings_path(
            home@,
            crate::json::opt_str_view(*project_path),
            prefer_local,
            local_exists,
            project_exists,
        ),
{
    match project_path {
        Some(p) => {
            if prefer_local || local_exists {
                p.clone().concat("/.agent/settings.local.json")
            } else if project_exists {
                p.clone().concat("/.agent/settings.json")
            } else {
                home.clone().concat("/.agent/settings.json")
            }
        },
        None => home.clone().concat("/.agent/settings.json"),
    }
}

/// The active and disabled paths of the user-global memory file.
pub fn global_memory_paths(home: &String) -> (r: (String, String))
    ensures
        r.0@ == home@ + "/.agent/MEMORY.md"@,
        r.1@ == home@ + "/.agent/MEMORY.md.disabled"@,
{
    (home.clone().concat("/.agent/MEMORY.md"), home.clone().concat("/.agent/MEMORY.md.disabled"))
}

/// The active and disabled paths of a project's memory file.
pub fn project_memory_paths(project_path: &String) -> (r: (String, String))
    ensures
        r.0@ == project_path@ + "/MEMORY.md"@,
        r.1@ == project_path@ + "/MEMORY.md.disabled"@,
{
    (project_path.clone().concat("/MEMORY.md"), project_path.clone().concat("/MEMORY.md.disabled"))
}

/// The memory file pair for a source: the user-global pair for `global`,
/// the project pair for `project` (which then needs a project path), and a
/// refusal for anything else.
pub fn resolve_memory_paths(source: &String, home: &String, project_path: &Option<String>) -> (r:
    Result<(String, String), EngineError>)
    ensures
        if source@ == "global"@ {
            r is Ok && r->Ok_0.0@ == home@ + "/.agent/MEMORY.md"@ && r->Ok_0.1@ == home@
                + "/.agent/MEMORY.md.disabled"@
        } else if source@ == "project"@ {
            match *project_path {
                Some(p) => r is Ok && r->Ok_0.0@ == p@ + "/MEMORY.md"@ && r->Ok_0.1@ == p@
                    + "/MEMORY.md.disabled"@,
                None => r == Err::<(String, String), EngineError>(EngineError::MalformedInput),
            }
        } else {
            r == Err::<(String, String), EngineError>(EngineError::MalformedInput)
        },
{
    if *source == String::from_str("global") {
        Ok(global_memory_paths(home))
    } else if *source == String::from_str("project") {
        match project_path {
            Some(p) => Ok(project_memory_paths(p)),
            None => Err(EngineError::MalformedInput),
        }
    } else {
        Err(EngineError::MalformedInput)
    }
}

/// The directory that holds a source's skills: the user-global skills
/// directory for `global`, the project's own for `project` (which then
/// needs a project path), and a refusal for anything else.
pub fn skill_base_dir_for_source(
    home: &String,
    source: &String,
    project_path: &Option<String>,
) -> (r: Result<String, EngineError>)
    ensures
        if source@ == "global"@ {
            r is Ok && r->Ok_0@ == home@ + "/.agent/skills"@
        } else if source@ == "project"@ {
            match *project_path {
                Some(p) => r is Ok && r->Ok_0@ == p@ + "/.agent/skills"@,
                None => r == Err::<String, EngineError>(EngineError::MalformedInput),
            }
        } else {
            r == Err::<String, EngineError>(EngineError::MalformedInput)
        },
{
    if *source == String::from_str("global") {
        Ok(home.clone().concat("/.agent/skills"))
    } else if *source == String::from_str("project") {
        match project_path {
            Some(p) => Ok(p.clone().concat("/.agent/skills")),
            None => Err(EngineError::MalformedInput),
        }
    } else {
        Err(EngineError::MalformedInput)
    }
}

/// Where the install manifest lives, under the application's own
/// configuration directory.
pub fn security_packs_manifest_path(home: &String) -> (r: String)
    ensures
        r@ == home@ + "/.ccconfig/security_packs/installed.json"@,
{
    home.clone().concat("/.ccconfig/security_packs/installed.json")
}

/// The settings file that records whether a plugin install is enabled:
/// local-scope installs answer to their project's override file (and need
/// a recorded project path), every other scope to the user-global file.
pub fn enabled_plugins_settings_path(
    home: &String,
    scope: &String,
    project_path: &Option<String>,
) -> (r: Option<String>)
    ensures
        scope@ == "local"@ ==> match *project_path {
            Some(p) => r is Some && r->0@ == p@ + "/.agent/settings.local.json"@,
            None => r is None,
        },
        scope@ != "local"@ ==> r is Some && r->0@ == home@ + "/.agent/settings.json"@,
{
    if *scope == String::from_str("local") {
        match project_path {
            Some(p) => Some(p.clone().concat("/.agent/settings.local.json")),
            None => None,
        }
    } else {
        Some(home.clone().concat("/.agent/settings.json"))
    }
}

/// The settings file a plugin toggle writes to: as the enabled-plugins
/// path, except that a local-scope toggle without a project path is a
/// refusal rather than a pass.
pub fn plugin_settings_path(home: &String, scope: &String, project_path: &Option<String>) -> (r:
    Result<String, EngineError>)
    ensures
        scope@ == "local"@ ==> match *project_path {
            Some(p) => r is Ok && r->Ok_0@ == p@ + "/.agent/settings.local.json"@,
            None => r == Err::<String, EngineError>(EngineError::MalformedInput),
        },
        scope@ != "local"@ ==> r is Ok && r->Ok_0@ == home@ + "/.agent/settings.json"@,
{
    if *scope == String::from_str("local") {
        match project_path {
            Some(p) => Ok(p.clone().concat("/.agent/settings.local.json")),
            None => Err(EngineError::MalformedInput),
        }
    } else {
        Ok(home.clone().concat("/.agent/settings.json"))
    }
}

/// The path of a configuration file the shell can show: the user's own
/// settings file, or one of the fixed machine-managed locations. Unknown
/// kinds are refused.
pub fn config_file_path(home: &String, config_type: &String) -> (r: Result<String, EngineError>)
    ensures
        if config_type@ == "user"@ {
            r is Ok && r->Ok_0@ == home@ + "/.agent/settings.json"@
        } else if config_type@ == "enterprise_macos"@ {
            r is Ok && r->Ok_0@ == "/Library/Application Support/AgentTool/managed-settings.json"@
        } else if config_type@ == "enterprise_linux"@ {
            r is Ok && r->Ok_0@ == "/etc/agent-tool/managed-settings.json"@
        } else if config_type@ == "enterprise_windows"@ {
            r is Ok && r->Ok_0@ == "C:\\ProgramData\\AgentTool\\managed-settings.json"@
        } else if config_type@ == "mcp_macos"@ {
            r is Ok && r->Ok_0@ == "/Library/Application Support/AgentTool/managed-mcp.json"@
        } else if config_type@ == "mcp_linux"@ {
            r is Ok && r->Ok_0@ == "/etc/agent-tool/managed-mcp.json"@
        } else if config_type@ == "mcp_windows"@ {
            r is Ok && r->Ok_0@ == "C:\\ProgramData\\AgentTool\\managed-mcp.json"@
        } else {
            r == Err::<String, EngineError>(EngineError::MalformedInput)
        },
{
    if *config_type == String::from_str("user") {
        Ok(home.clone().concat("/.agent/settings.json"))
    } else if *config_type == String::from_str("enterprise_macos") {
        Ok(String::from_str("/Library/Application Support/AgentTool/managed-settings.json"))
    } else if *config_type == String::from_str("enterprise_linux") {
        Ok(String::from_str("/etc/agent-tool/managed-settings.json"))
    } else if *config_type == String::from_str("enterprise_windows") {
        Ok(String::from_str("C:\\ProgramData\\AgentTool\\managed-settings.json"))
    } else if *config_type == String::from_str("mcp_macos") {
        Ok(String::from_str("/Library/Application Support/AgentTool/managed-mcp.json"))
    } else if *config_type == String::from_str("mcp_linux") {
        Ok(String::from_str("/etc/agent-tool/managed-mcp.json"))
    } else if *config_type == String::from_str("mcp_windows") {
        Ok(String::from_str("C:\\ProgramData\\AgentTool\\managed-mcp.json"))
    } else {
        Err(EngineError::MalformedInput)
    }
}

} // verus!
