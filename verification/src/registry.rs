//! The server-registration files.
//!
//! The user registration file and the machine-wide direct file each hold a
//! `mcpServers` object mapping server names to configuration objects; the
//! direct file additionally nests per-project entries. This module reads
//! those maps out of parsed file contents and rewrites the user
//! registration file when a server is added or removed.

use vstd::prelude::*;
use vstd::string::StringExecFns;
use crate::errors::EngineError;
use crate::json::Json;
use crate::json::JsonV;
use crate::json::clone_fields;
use crate::json::fields_view;
use crate::json::lemma_fields_view;
use crate::json::lemma_obj_index_of;
use crate::json::obj_get;
use crate::json::obj_index_of;
use crate::json::obj_remove;
use crate::json::obj_set;
use crate::json::opt_json_view;
use crate::json::spec_get;
use crate::json::spec_obj_get;
use crate::json::spec_obj_has_key;
use crate::json::spec_obj_remove;
use crate::json::spec_obj_set;

verus! {

/// The name-keyed server map of a registration file: its `mcpServers`
/// object, or nothing when the file is absent, not an object, or binds
/// the key to something else.
pub open spec fn spec_mcp_servers_of(file: Option<JsonV>) -> Seq<(Seq<char>, JsonV)> {
    match file {
        None => Seq::empty(),
        Some(f) => match spec_get(f, "mcpServers"@) {
            Some(v) => if v is Obj {
                v->Obj_0
            } else {
                Seq::empty()
            },
            None => Seq::empty(),
        },
    }
}

/// The `mcpServers` object of a registration file, empty when absent.
pub fn read_json_file_mcp_servers(file: &Option<Json>) -> (r: Vec<(String, Json)>)
    ensures
        fields_view(r@) == spec_mcp_servers_of(opt_json_view(*file)),
{
    match file {
        Some(f) => match obj_get(f, &String::from_str("mcpServers")) {
            Some(Json::Obj(fields)) => clone_fields(fields),
            _ => {
                let out: Vec<(String, Json)> = Vec::new();
                proof {
                    assert(fields_view(out@) =~= Seq::<(Seq<char>, JsonV)>::empty());
                }
                out
            },
        },
        None => {
            let out: Vec<(String, Json)> = Vec::new();
            proof {
                assert(fields_view(out@) =~= Seq::<(Seq<char>, JsonV)>::empty());
            }
            out
        },
    }
}

/// The selected project's own server map inside the direct file:
/// `projects[cwd].mcpServers`, empty when any level is missing or not an
/// object.
pub open spec fn spec_project_mcp_servers(
    agent_json: Option<JsonV>,
    cwd: Seq<char>,
) -> Seq<(Seq<char>, JsonV)> {
    match agent_json {
        None => Seq::empty(),
        Some(c) => match spec_get(c, "projects"@) {
            Some(projects) => match spec_get(projects, cwd) {
                Some(project) => match spec_get(project, "mcpServers"@) {
                    Some(v) => if v is Obj {
                        v->Obj_0
                    } else {
                        Seq::empty()
                    },
                    None => Seq::empty(),
                },
                None => Seq::empty(),
            },
            None => Seq::empty(),
        },
    }
}

/// The server map under the selected project's entry in the direct file.
pub fn read_project_mcp_servers(agent_json: &Option<Json>, cwd: &String) -> (r: Vec<
    (String, Json),
>)
    ensures
        fields_view(r@) == spec_project_mcp_servers(opt_json_view(*agent_json), cwd@),
{
    if let Some(c) = agent_json {
        if let Some(projects) = obj_get(c, &String::from_str("projects")) {
            if let Some(project) = obj_get(projects, cwd) {
                if let Some(Json::Obj(fields)) = obj_get(project, &String::from_str("mcpServers"))
                {
                    return clone_fields(fields);
                }
            }
        }
    }
    let out: Vec<(String, Json)> = Vec::new();
    proof {
        assert(fields_view(out@) =~= Seq::<(Seq<char>, JsonV)>::empty());
    }
    out
}

/// The registration file after a server is added or overwritten: the
/// `mcpServers` object (brought into being if missing) binds the name to
/// the configuration. A file that is not an object, or whose `mcpServers`
/// is not an object, is refused.
pub open spec fn spec_update_global(
    file: Option<JsonV>,
    name: Seq<char>,
    config: JsonV,
) -> Result<JsonV, EngineError> {
    let base = match file {
        Some(f) => f,
        None => JsonV::Obj(Seq::empty()),
    };
    if !(base is Obj) {
        Err(EngineError::MalformedInput)
    } else {
        let servers = match spec_obj_get(base->Obj_0, "mcpServers"@) {
            Some(v) => v,
            None => JsonV::Obj(Seq::empty()),
        };
        if !(servers is Obj) {
            Err(EngineError::MalformedInput)
        } else {
            Ok(
                JsonV::Obj(
                    spec_obj_set(
                        base->Obj_0,
                        "mcpServers"@,
                        JsonV::Obj(spec_obj_set(servers->Obj_0, name, config)),
                    ),
                ),
            )
        }
    }
}

/// The registration file with `server_name` registered.
pub fn update_global_mcp_server(
    mcp_json: &Option<Json>,
    server_name: &String,
    server_config: Json,
) -> (r: Result<Json, EngineError>)
    ensures
        crate::toggle::res_view(r) == spec_update_global(
            opt_json_view(*mcp_json),
            server_name@,
            server_config@,
        ),
{
    let mut fields: Vec<(String, Json)> = match mcp_json {
        Some(Json::Obj(f)) => clone_fields(f),
        Some(_) => {
            return Err(EngineError::MalformedInput);
        },
        None => Vec::new(),
    };
    proof {
        lemma_fields_view(Seq::<(String, Json)>::empty());
    }
    let key = String::from_str("mcpServers");
    let mut servers: Vec<(String, Json)> = match obj_index_of(&fields, &key) {
        Some(i) => {
            proof {
                lemma_fields_view(fields@);
                lemma_obj_index_of(fields_view(fields@), key@);
            }
            match &fields[i].1 {
                Json::Obj(sf) => clone_fields(sf),
                _ => {
                    return Err(EngineError::MalformedInput);
                },
            }
        },
        None => Vec::new(),
    };
    obj_set(&mut servers, server_name.clone(), server_config);
    obj_set(&mut fields, key, Json::Obj(servers));
    proof {
        assert(fields_view(Seq::<(String, Json)>::empty()) =~= Seq::<(Seq<char>, JsonV)>::empty());
    }
    Ok(Json::Obj(fields))
}

/// The registration file after a server is removed: the name leaves the
/// `mcpServers` object, and the object itself leaves the file when it is
/// emptied. A missing file or an unregistered name is `NotFound`; a file
/// that is not an object is refused.
pub open spec fn spec_delete_global(file: Option<JsonV>, name: Seq<char>) -> Result<
    JsonV,
    EngineError,
> {
    match file {
        None => Err(EngineError::NotFound),
        Some(f) => {
            if !(f is Obj) {
                Err(EngineError::MalformedInput)
            } else {
                let servers = spec_obj_get(f->Obj_0, "mcpServers"@);
                if !(servers matches Some(v) && v is Obj) {
                    Err(EngineError::NotFound)
                } else if !spec_obj_has_key(servers->Some_0->Obj_0, name) {
                    Err(EngineError::NotFound)
                } else {
                    let remaining = spec_obj_remove(servers->Some_0->Obj_0, name);
                    if remaining.len() == 0 {
                        Ok(JsonV::Obj(spec_obj_remove(f->Obj_0, "mcpServers"@)))
                    } else {
                        Ok(
                            JsonV::Obj(
                                spec_obj_set(f->Obj_0, "mcpServers"@, JsonV::Obj(remaining)),
                            ),
                        )
                    }
                }
            }
        },
    }
}

/// The registration file with `server_name` removed.
#[verifier::rlimit(60)]
pub fn delete_global_mcp_server(mcp_json: &Option<Json>, server_name: &String) -> (r: Result<
    Json,
    EngineError,
>)
    ensures
        crate::toggle::res_view(r) == spec_delete_global(opt_json_view(*mcp_json), server_name@),
{
    let f = match mcp_json {
        None => {
            return Err(EngineError::NotFound);
        },
        Some(f) => f,
    };
    let base = match f {
        Json::Obj(fields) => fields,
        _ => {
            return Err(EngineError::MalformedInput);
        },
    };
    let key = String::from_str("mcpServers");
    let mut servers: Vec<(String, Json)> = match obj_index_of(base, &key) {
        Some(i) => {
            proof {
                lemma_fields_view(base@);
                lemma_obj_index_of(fields_view(base@), key@);
            }
            match &base[i].1 {
                Json::Obj(sf) => clone_fields(sf),
                _ => {
                    return Err(EngineError::NotFound);
                },
            }
        },
        None => {
            return Err(EngineError::NotFound);
        },
    };
    if obj_index_of(&servers, server_name).is_none() {
        return Err(EngineError::NotFound);
    }
    obj_remove(&mut servers, server_name);
    let mut fields = clone_fields(base);
    if servers.len() == 0 {
        proof {
            crate::json::lemma_fields_view(servers@);
        }
        obj_remove(&mut fields, &key);
    } else {
        proof {
            crate::json::lemma_fields_view(servers@);
        }
        obj_set(&mut fields, key, Json::Obj(servers));
    }
    Ok(Json::Obj(fields))
}

/// The selected directory as a registered project path: the path itself
/// exactly when the direct file's `projects` object has an entry for it.
pub fn get_project_path_from_agent_json(agent_json: &Option<Json>, cwd: &String) -> (r: Option<
    String,
>)
    ensures
        ({
            let registered = match opt_json_view(*agent_json) {
                Some(c) => match spec_get(c, "projects"@) {
                    Some(projects) => projects is Obj && spec_obj_has_key(projects->Obj_0, cwd@),
                    None => false,
                },
                None => false,
            };
            if registered {
                r is Some && r->0@ == cwd@
            } else {
                r is None
            }
        }),
{
    if let Some(c) = agent_json {
        if let Some(Json::Obj(projects)) = obj_get(c, &String::from_str("projects")) {
            if obj_index_of(projects, cwd).is_some() {
                return Some(cwd.clone());
            }
        }
    }
    None
}

} // verus!
