//! Installed plugins as configuration sources.
//!
//! A plugin install record carries a scope and, for local installs, the
//! project it belongs to; only installs that match the selected project
//! and are not switched off contribute servers. A plugin's own
//! registration file comes in three shapes — an object under `mcpServers`,
//! an array under `mcpServers`, or a bare object — and is normalized here
//! into plain name-and-configuration pairs.

use vstd::prelude::*;
use vstd::string::StringExecFns;
use crate::errors::EngineError;
use crate::json::Json;
use crate::json::JsonV;
use crate::json::clone_fields;
use crate::json::fields_view;
use crate::json::items_view;
use crate::json::json_clone;
use crate::json::lemma_fields_view;
use crate::json::lemma_items_view;
use crate::json::obj_get;
use crate::json::obj_index_of;
use crate::json::obj_set;
use crate::json::spec_get;
use crate::json::spec_obj_get;
use crate::json::spec_obj_set;

verus! {

/// One install of a plugin, as the installed-plugins descriptor records it.
pub struct PluginInstallInfo {
    pub scope: String,
    pub install_path: String,
    pub version: String,
    pub installed_at: String,
    pub last_updated: String,
    pub git_commit_sha: String,
    pub project_path: Option<String>,
}

/// The installed-plugins descriptor: each plugin name with its installs.
/// Names are unique, as the keys of the descriptor's JSON object.
pub struct InstalledPluginsFile {
    pub plugins: Vec<(String, Vec<PluginInstallInfo>)>,
}

/// Which packages a plugin's install directory offers.
pub struct PluginPackages {
    pub has_agents: bool,
    pub has_skills: bool,
    pub has_commands: bool,
    pub has_mcp: bool,
}

/// One plugin install as listed to the shell.
pub struct PluginInfo {
    pub name: String,
    pub scope: String,
    pub version: String,
    pub project_path: Option<String>,
    pub enabled: bool,
    pub packages: PluginPackages,
    pub install_path: String,
    pub installed_at: String,
}

/// One command file contributed by a plugin.
pub struct PluginCommandFile {
    pub name: String,
    pub content: String,
    pub exists: bool,
    pub disabled: bool,
    pub plugin_name: String,
    pub plugin_scope: String,
    pub source_path: String,
}

/// Whether a plugin install takes part under the selected project: with a
/// non-empty selection, user-scope installs always do and local-scope
/// installs do when they were recorded for that project; with no selection
/// every install does.
pub open spec fn spec_include_install(
    scope: Seq<char>,
    project_path: Option<Seq<char>>,
    cwd: Option<Seq<char>>,
) -> bool {
    match cwd {
        Some(c) => if c.len() > 0 {
            scope == "user"@ || (scope == "local"@ && project_path == Some(c))
        } else {
            true
        },
        None => true,
    }
}

/// Whether this install takes part under the selected project.
pub fn should_include_install(install: &PluginInstallInfo, cwd: &Option<String>) -> (r: bool)
    ensures
        r == spec_include_install(
            install.scope@,
            crate::json::opt_str_view(install.project_path),
            crate::json::opt_str_view(*cwd),
        ),
{
    match cwd {
        Some(c) => {
            if c.as_str().is_empty() {
                true
            } else {
                if install.scope == String::from_str("user") {
                    true
                } else if install.scope == String::from_str("local") {
                    match &install.project_path {
                        Some(p) => *p == *c,
                        None => false,
                    }
                } else {
                    false
                }
            }
        },
        None => true,
    }
}

/// The name-to-flag pairs of a settings file's `enabledPlugins` object,
/// keeping only boolean bindings, in order.
pub open spec fn spec_bool_fields(fields: Seq<(Seq<char>, JsonV)>) -> Seq<(Seq<char>, bool)>
    decreases fields.len(),
{
    if fields.len() == 0 {
        Seq::empty()
    } else {
        let rest = spec_bool_fields(fields.drop_last());
        if fields.last().1 is Bool {
            rest.push((fields.last().0, fields.last().1->Bool_0))
        } else {
            rest
        }
    }
}

/// The enabled-plugins map of a settings file: empty when the key is
/// absent or not an object.
pub open spec fn spec_enabled_plugins(v: JsonV) -> Seq<(Seq<char>, bool)> {
    match spec_get(v, "enabledPlugins"@) {
        Some(w) => if w is Obj {
            spec_bool_fields(w->Obj_0)
        } else {
            Seq::empty()
        },
        None => Seq::empty(),
    }
}

/// The view of a name-to-flag list.
pub open spec fn flags_view(pairs: Seq<(String, bool)>) -> Seq<(Seq<char>, bool)> {
    Seq::new(pairs.len(), |i: int| (pairs[i].0@, pairs[i].1))
}

/// The enabled-plugins map held by a settings file.
pub fn read_enabled_plugins(settings: &Json) -> (r: Vec<(String, bool)>)
    ensures
        flags_view(r@) == spec_enabled_plugins(settings@),
{
    let mut out: Vec<(String, bool)> = Vec::new();
    match obj_get(settings, &String::from_str("enabledPlugins")) {
        Some(Json::Obj(fields)) => {
            let ghost fv = fields_view(fields@);
            proof {
                lemma_fields_view(fields@);
            }
            let mut i: usize = 0;
            proof {
                assert(flags_view(out@) =~= spec_bool_fields(fv.take(0)));
            }
            while i < fields.len()
                invariant
                    i <= fields@.len(),
                    fv == fields_view(fields@),
                    fv.len() == fields@.len(),
                    forall|k: int|
                        0 <= k < fields@.len() ==> fv[k] == (fields@[k].0@, fields@[k].1@),
                    flags_view(out@) =~= spec_bool_fields(fv.take(i as int)),
                decreases fields@.len() - i,
            {
                proof {
                    assert(fv.take(i + 1).drop_last() =~= fv.take(i as int));
                    assert(fv.take(i + 1).last() == fv[i as int]);
                }
                match &fields[i].1 {
                    Json::Bool(b) => {
                        out.push((fields[i].0.clone(), *b));
                        assert(flags_view(out@) =~= spec_bool_fields(fv.take(i as int)).push(
                            (fv[i as int].0, fv[i as int].1->Bool_0),
                        ));
                    },
                    _ => {
                        assert(!(fv[i as int].1 is Bool));
                    },
                }
                i = i + 1;
            }
            proof {
                assert(fv.take(fields@.len() as int) =~= fv);
            }
        },
        _ => {
            proof {
                assert(flags_view(out@) =~= Seq::<(Seq<char>, bool)>::empty());
            }
        },
    }
    out
}

/// The first flag recorded for `name`, absence reading as enabled.
pub open spec fn spec_plugin_enabled(pairs: Seq<(Seq<char>, bool)>, name: Seq<char>) -> bool
    decreases pairs.len(),
{
    if pairs.len() == 0 {
        true
    } else if pairs[0].0 == name {
        pairs[0].1
    } else {
        spec_plugin_enabled(pairs.drop_first(), name)
    }
}

/// Whether the map leaves the plugin enabled: its recorded flag, or
/// enabled when none is recorded.
pub fn plugin_enabled(pairs: &Vec<(String, bool)>, name: &String) -> (r: bool)
    ensures
        r == spec_plugin_enabled(flags_view(pairs@), name@),
{
    let ghost pv = flags_view(pairs@);
    let mut i: usize = 0;
    proof {
        assert(pv.skip(0) =~= pv);
    }
    while i < pairs.len()
        invariant
            i <= pairs@.len(),
            pv == flags_view(pairs@),
            spec_plugin_enabled(pv, name@) == spec_plugin_enabled(pv.skip(i as int), name@),
        decreases pairs@.len() - i,
    {
        if pairs[i].0 == *name {
            proof {
                assert(pv.skip(i as int)[0] == pv[i as int]);
            }
            return pairs[i].1;
        }
        proof {
            assert(pv.skip(i as int)[0] == pv[i as int]);
            assert(pv.skip(i as int).drop_first() =~= pv.skip(i + 1));
        }
        i = i + 1;
    }
    proof {
        assert(pv.skip(pairs@.len() as int).len() == 0);
    }
    true
}

/// The decimal digit character for a value below ten.
pub open spec fn spec_digit_char(d: nat) -> Seq<char> {
    if d == 0 {
        "0"@
    } else if d == 1 {
        "1"@
    } else if d == 2 {
        "2"@
    } else if d == 3 {
        "3"@
    } else if d == 4 {
        "4"@
    } else if d == 5 {
        "5"@
    } else if d == 6 {
        "6"@
    } else if d == 7 {
        "7"@
    } else if d == 8 {
        "8"@
    } else {
        "9"@
    }
}

/// The decimal form of a number, most significant digit first.
pub open spec fn spec_decimal(n: nat) -> Seq<char>
    decreases n,
{
    if n < 10 {
        spec_digit_char(n)
    } else {
        spec_decimal(n / 10) + spec_digit_char(n % 10)
    }
}

fn digit_string(d: usize) -> (r: String)
    requires
        d < 10,
    ensures
        r@ == spec_digit_char(d as nat),
{
    if d == 0 {
        String::from_str("0")
    } else if d == 1 {
        String::from_str("1")
    } else if d == 2 {
        String::from_str("2")
    } else if d == 3 {
        String::from_str("3")
    } else if d == 4 {
        String::from_str("4")
    } else if d == 5 {
        String::from_str("5")
    } else if d == 6 {
        String::from_str("6")
    } else if d == 7 {
        String::from_str("7")
    } else if d == 8 {
        String::from_str("8")
    } else {
        String::from_str("9")
    }
}

/// The decimal form of a number.
pub fn decimal_string(n: usize) -> (r: String)
    ensures
        r@ == spec_decimal(n as nat),
    decreases n,
{
    if n < 10 {
        digit_string(n)
    } else {
        decimal_string(n / 10).concat(digit_string(n % 10).as_str())
    }
}

/// The name an array-form entry contributes under: its own `name` string,
/// or the plugin's name and its array index when none is given.
pub open spec fn spec_entry_name(plugin_name: Seq<char>, entry: JsonV, index: nat) -> Seq<char> {
    match spec_get(entry, "name"@) {
        Some(v) => if v is Str {
            v->Str_0
        } else {
            plugin_name + "-"@ + spec_decimal(index)
        },
        None => plugin_name + "-"@ + spec_decimal(index),
    }
}

/// The pairs an array-form registration file contributes: each object
/// element under its entry name; other elements are passed over, without
/// disturbing the indices of those that follow.
pub open spec fn spec_arr_servers(plugin_name: Seq<char>, items: Seq<JsonV>) -> Seq<
    (Seq<char>, JsonV),
>
    decreases items.len(),
{
    if items.len() == 0 {
        Seq::empty()
    } else {
        let rest = spec_arr_servers(plugin_name, items.drop_last());
        let e = items.last();
        if e is Obj {
            rest.push((spec_entry_name(plugin_name, e, (items.len() - 1) as nat), e))
        } else {
            rest
        }
    }
}

/// The pairs an object-form registration file contributes: each binding
/// whose value is an object; other bindings are passed over.
pub open spec fn spec_obj_servers(fields: Seq<(Seq<char>, JsonV)>) -> Seq<(Seq<char>, JsonV)>
    decreases fields.len(),
{
    if fields.len() == 0 {
        Seq::empty()
    } else {
        let rest = spec_obj_servers(fields.drop_last());
        if fields.last().1 is Obj {
            rest.push(fields.last())
        } else {
            rest
        }
    }
}

/// What a plugin's registration file contributes, resolved once per file:
/// the bindings of an object under `mcpServers`; the elements of an array
/// under `mcpServers`, each named by its `name` string or by the plugin
/// name and index; or, with no `mcpServers` key at all, the whole file as
/// one server named after the plugin. A `mcpServers` of any other shape,
/// or a file that is not an object, contributes nothing.
pub open spec fn spec_plugin_mcp_servers(plugin_name: Seq<char>, file: JsonV) -> Seq<
    (Seq<char>, JsonV),
> {
    match spec_get(file, "mcpServers"@) {
        Some(v) => if v is Obj {
            spec_obj_servers(v->Obj_0)
        } else if v is Arr {
            spec_arr_servers(plugin_name, v->Arr_0)
        } else {
            Seq::empty()
        },
        None => if file is Obj {
            seq![(plugin_name, file)]
        } else {
            Seq::empty()
        },
    }
}

/// The normalized server pairs of one plugin registration file.
pub fn parse_plugin_mcp_json(plugin_name: &String, file: &Json) -> (r: Vec<(String, Json)>)
    ensures
        fields_view(r@) == spec_plugin_mcp_servers(plugin_name@, file@),
{
    let mut out: Vec<(String, Json)> = Vec::new();
    match obj_get(file, &String::from_str("mcpServers")) {
        Some(Json::Obj(fields)) => {
            let ghost fv = fields_view(fields@);
            proof {
                lemma_fields_view(fields@);
                assert(fields_view(out@) =~= spec_obj_servers(fv.take(0)));
            }
            let mut i: usize = 0;
            while i < fields.len()
                invariant
                    i <= fields@.len(),
                    fv == fields_view(fields@),
                    fv.len() == fields@.len(),
                    forall|k: int|
                        0 <= k < fields@.len() ==> fv[k] == (fields@[k].0@, fields@[k].1@),
                    fields_view(out@) =~= spec_obj_servers(fv.take(i as int)),
                decreases fields@.len() - i,
            {
                proof {
                    assert(fv.take(i + 1).drop_last() =~= fv.take(i as int));
                    assert(fv.take(i + 1).last() == fv[i as int]);
                }
                match &fields[i].1 {
                    Json::Obj(_) => {
                        let ghost before = out@;
                        let entry = (fields[i].0.clone(), json_clone(&fields[i].1));
                        let ghost ev = (entry.0@, entry.1@);
                        out.push(entry);
                        proof {
                            crate::json::lemma_fields_view_push(
                                before,
                                (fields@[i as int].0, fields@[i as int].1),
                            );
                            lemma_fields_view(out@);
                            lemma_fields_view(before);
                            assert(fields_view(out@) =~= fields_view(before).push(fv[i as int]));
                        }
                    },
                    _ => {
                        proof {
                            assert(!(fv[i as int].1 is Obj));
                        }
                    },
                }
                i = i + 1;
            }
            proof {
                assert(fv.take(fields@.len() as int) =~= fv);
            }
        },
        Some(Json::Arr(items)) => {
            let ghost iv = items_view(items@);
            proof {
                lemma_items_view(items@);
                assert(fields_view(out@) =~= spec_arr_servers(plugin_name@, iv.take(0)));
            }
            let mut i: usize = 0;
            while i < items.len()
                invariant
                    i <= items@.len(),
                    iv == items_view(items@),
                    iv.len() == items@.len(),
                    forall|k: int| 0 <= k < items@.len() ==> iv[k] == items@[k]@,
                    fields_view(out@) =~= spec_arr_servers(plugin_name@, iv.take(i as int)),
                decreases items@.len() - i,
            {
                proof {
                    assert(iv.take(i + 1).drop_last() =~= iv.take(i as int));
                    assert(iv.take(i + 1).last() == iv[i as int]);
                }
                match &items[i] {
                    Json::Obj(entry_fields) => {
                        let name = match obj_get(&items[i], &String::from_str("name")) {
                            Some(Json::Str(s)) => s.clone(),
                            _ => plugin_name.clone().concat("-").concat(
                                decimal_string(i).as_str(),
                            ),
                        };
                        proof {
                            assert(name@ == spec_entry_name(plugin_name@, iv[i as int], i as nat));
                        }
                        let ghost before = out@;
                        out.push((name, json_clone(&items[i])));
                        proof {
                            lemma_fields_view(out@);
                            lemma_fields_view(before);
                            assert(fields_view(out@) =~= fields_view(before).push(
                                (
                                    spec_entry_name(plugin_name@, iv[i as int], i as nat),
                                    iv[i as int],
                                ),
                            ));
                        }
                    },
                    _ => {
                        proof {
                            assert(!(iv[i as int] is Obj));
                        }
                    },
                }
                i = i + 1;
            }
            proof {
                assert(iv.take(items@.len() as int) =~= iv);
            }
        },
        Some(_) => {
            proof {
                assert(fields_view(out@) =~= Seq::<(Seq<char>, JsonV)>::empty());
            }
        },
        None => {
            match file {
                Json::Obj(_) => {
                    out.push((plugin_name.clone(), json_clone(file)));
                    proof {
                        lemma_fields_view(out@);
                        assert(fields_view(out@) =~= seq![(plugin_name@, file@)]);
                    }
                },
                _ => {
                    proof {
                        assert(fields_view(out@) =~= Seq::<(Seq<char>, JsonV)>::empty());
                    }
                },
            }
        },
    }
    out
}

/// The settings file with the plugin's flag set: the `enabledPlugins`
/// object (brought into being if missing) binds the plugin's name to the
/// flag. A settings file that is not an object, or whose `enabledPlugins`
/// is not an object, is refused.
pub open spec fn spec_update_enabled_plugins(
    settings: JsonV,
    plugin_name: Seq<char>,
    enabled: bool,
) -> Result<JsonV, EngineError> {
    if !(settings is Obj) {
        Err(EngineError::MalformedInput)
    } else {
        let plugins = match spec_obj_get(settings->Obj_0, "enabledPlugins"@) {
            Some(v) => v,
            None => JsonV::Obj(Seq::empty()),
        };
        if !(plugins is Obj) {
            Err(EngineError::MalformedInput)
        } else {
            Ok(
                JsonV::Obj(
                    spec_obj_set(
                        settings->Obj_0,
                        "enabledPlugins"@,
                        JsonV::Obj(
                            spec_obj_set(plugins->Obj_0, plugin_name, JsonV::Bool(enabled)),
                        ),
                    ),
                ),
            )
        }
    }
}

/// The settings file with the plugin switched on or off.
pub fn update_enabled_plugins(settings: &Json, plugin_name: &String, enabled: bool) -> (r: Result<
    Json,
    EngineError,
>)
    ensures
        crate::toggle::res_view(r) == spec_update_enabled_plugins(settings@, plugin_name@, enabled),
{
    let base = match settings {
        Json::Obj(f) => f,
        _ => {
            return Err(EngineError::MalformedInput);
        },
    };
    let key = String::from_str("enabledPlugins");
    let mut plugins: Vec<(String, Json)> = match obj_index_of(base, &key) {
        Some(i) => {
            proof {
                lemma_fields_view(base@);
                crate::json::lemma_obj_index_of(fields_view(base@), key@);
            }
            match &base[i].1 {
                Json::Obj(pf) => clone_fields(pf),
                _ => {
                    return Err(EngineError::MalformedInput);
                },
            }
        },
        None => Vec::new(),
    };
    proof {
        lemma_fields_view(Seq::<(String, Json)>::empty());
    }
    obj_set(&mut plugins, plugin_name.clone(), Json::Bool(enabled));
    let mut fields = clone_fields(base);
    obj_set(&mut fields, key, Json::Obj(plugins));
    Ok(Json::Obj(fields))
}

/// One plugin install as listed to the shell, assembled from the install
/// record, its resolved enablement and its detected packages.
pub fn plugin_info_from_install(
    name: &String,
    install: PluginInstallInfo,
    enabled: bool,
    packages: PluginPackages,
) -> (r: PluginInfo)
    ensures
        r.name@ == name@,
        r.scope@ == install.scope@,
        r.version@ == install.version@,
        r.project_path == install.project_path,
        r.enabled == enabled,
        r.install_path@ == install.install_path@,
        r.installed_at@ == install.installed_at@,
        r.packages.has_agents == packages.has_agents,
        r.packages.has_skills == packages.has_skills,
        r.packages.has_commands == packages.has_commands,
        r.packages.has_mcp == packages.has_mcp,
{
    PluginInfo {
        name: name.clone(),
        scope: install.scope,
        version: install.version,
        project_path: install.project_path,
        enabled,
        packages,
        install_path: install.install_path,
        installed_at: install.installed_at,
    }
}

} // verus!
