//! The scope merger.
//!
//! Server definitions come from up to five sources of different authority:
//! the user's registration file, the machine-wide direct file, installed
//! plugins, the selected project's entry in the direct file, and a
//! project-local registration file. The merger folds them into one
//! name-keyed view in which the most local source always wins, while
//! plugin-contributed entries only ever fill names that no user-level
//! source defines.

use vstd::prelude::*;
use vstd::string::StringExecFns;
use crate::enable::EnableState;
use crate::enable::McpEnabledState;
use crate::enable::SourceType;
use crate::enable::compute_server_state;
use crate::enable::contains_string;
use crate::enable::spec_server_state;
use crate::json::Json;
use crate::json::JsonV;
use crate::json::fields_view;
use crate::json::json_clone;
use crate::json::lemma_fields_view;
use crate::json::strs_view;

verus! {

/// One merged server definition with its origin metadata.
pub struct McpServer {
    /// The server's configuration object, carried through opaquely.
    pub config: Json,
    /// Which kind of source defined it.
    pub source_type: SourceType,
    /// The authority level it came from, e.g. `user`, `project`, `local`
    /// or `plugin-` followed by the plugin install's own scope.
    pub scope: String,
    /// The file or plugin that defines it, for display.
    pub defined_in: String,
    /// Whether enable/disable toggling can be written back for it.
    pub controllable: bool,
}

/// The mathematical value of a merged server definition.
#[verifier::ext_equal]
pub struct McpServerV {
    pub config: JsonV,
    pub source_type: SourceType,
    pub scope: Seq<char>,
    pub defined_in: Seq<char>,
    pub controllable: bool,
}

impl View for McpServer {
    type V = McpServerV;

    open spec fn view(&self) -> McpServerV {
        McpServerV {
            config: self.config@,
            source_type: self.source_type,
            scope: self.scope@,
            defined_in: self.defined_in@,
            controllable: self.controllable,
        }
    }
}

/// One server contributed by an installed plugin, already normalized out
/// of the plugin's own registration file.
pub struct PluginServer {
    pub name: String,
    pub config: Json,
    pub plugin_name: String,
    pub plugin_scope: String,
}

/// The view of a name-keyed server list.
pub open spec fn servers_view(entries: Seq<(String, McpServer)>) -> Seq<(Seq<char>, McpServerV)> {
    Seq::new(entries.len(), |i: int| (entries[i].0@, entries[i].1@))
}

/// Index of the first entry named `name`, or `-1`.
pub open spec fn spec_srv_index_of(entries: Seq<(Seq<char>, McpServerV)>, name: Seq<char>) -> int
    decreases entries.len(),
{
    if entries.len() == 0 {
        -1
    } else if entries[0].0 == name {
        0
    } else {
        let rest = spec_srv_index_of(entries.drop_first(), name);
        if rest < 0 {
            -1
        } else {
            rest + 1
        }
    }
}

/// Whether some entry is named `name`.
pub open spec fn spec_srv_has(entries: Seq<(Seq<char>, McpServerV)>, name: Seq<char>) -> bool {
    spec_srv_index_of(entries, name) >= 0
}

/// The first entry named `name`.
pub open spec fn spec_srv_get(entries: Seq<(Seq<char>, McpServerV)>, name: Seq<char>) -> Option<
    McpServerV,
> {
    if spec_srv_has(entries, name) {
        Some(entries[spec_srv_index_of(entries, name)].1)
    } else {
        None
    }
}

/// The index returned by the lookup is the first entry named `name`.
pub proof fn lemma_srv_index_of(entries: Seq<(Seq<char>, McpServerV)>, name: Seq<char>)
    ensures
        spec_srv_index_of(entries, name) >= 0 ==> {
            let i = spec_srv_index_of(entries, name);
            &&& 0 <= i < entries.len()
            &&& entries[i].0 == name
            &&& forall|k: int| 0 <= k < i ==> entries[k].0 != name
        },
        spec_srv_index_of(entries, name) < 0 ==> forall|k: int|
            0 <= k < entries.len() ==> entries[k].0 != name,
    decreases entries.len(),
{
    if entries.len() > 0 && entries[0].0 != name {
        lemma_srv_index_of(entries.drop_first(), name);
        let rest = spec_srv_index_of(entries.drop_first(), name);
        if rest >= 0 {
            assert forall|k: int| 0 <= k < rest + 1 implies entries[k].0 != name by {
                if k > 0 {
                    assert(entries.drop_first()[k - 1].0 != name);
                }
            }
        } else {
            assert forall|k: int| 0 <= k < entries.len() implies entries[k].0 != name by {
                if k > 0 {
                    assert(entries.drop_first()[k - 1].0 != name);
                }
            }
        }
    }
}

/// What the lookup answers on a list extended at the end: the old answer
/// when the name was already bound, else the new entry.
pub proof fn lemma_srv_push_get(
    entries: Seq<(Seq<char>, McpServerV)>,
    e: (Seq<char>, McpServerV),
    probe: Seq<char>,
)
    ensures
        spec_srv_get(entries.push(e), probe) == if spec_srv_has(entries, probe) {
            spec_srv_get(entries, probe)
        } else if probe == e.0 {
            Some(e.1)
        } else {
            None
        },
    decreases entries.len(),
{
    lemma_srv_index_of(entries, probe);
    lemma_srv_index_of(entries.push(e), probe);
    if entries.len() == 0 {
        assert(entries.push(e)[0] == e);
        assert(entries.push(e).drop_first() =~= entries);
    } else {
        assert(entries.push(e)[0] == entries[0]);
        assert(entries.push(e).drop_first() =~= entries.drop_first().push(e));
        lemma_srv_push_get(entries.drop_first(), e, probe);
    }
}

/// One insert-if-absent step of the fold.
pub open spec fn spec_fill_step(
    acc: Seq<(Seq<char>, McpServerV)>,
    e: (Seq<char>, McpServerV),
) -> Seq<(Seq<char>, McpServerV)> {
    if spec_srv_has(acc, e.0) {
        acc
    } else {
        acc.push(e)
    }
}

/// Entries folded into `acc` left to right, each kept only when its name
/// is still free.
pub open spec fn spec_fill(
    acc: Seq<(Seq<char>, McpServerV)>,
    entries: Seq<(Seq<char>, McpServerV)>,
) -> Seq<(Seq<char>, McpServerV)>
    decreases entries.len(),
{
    if entries.len() == 0 {
        acc
    } else {
        spec_fill(spec_fill_step(acc, entries[0]), entries.drop_first())
    }
}

/// A fold extended by one trailing entry.
pub proof fn lemma_fill_push(
    acc: Seq<(Seq<char>, McpServerV)>,
    entries: Seq<(Seq<char>, McpServerV)>,
    e: (Seq<char>, McpServerV),
)
    ensures
        spec_fill(acc, entries.push(e)) == spec_fill_step(spec_fill(acc, entries), e),
    decreases entries.len(),
{
    if entries.len() == 0 {
        assert(entries.push(e)[0] == e);
        assert(entries.push(e).drop_first() =~= entries);
        assert(spec_fill(acc, entries.push(e)) == spec_fill(
            spec_fill_step(acc, e),
            entries,
        ));
    } else {
        assert(entries.push(e)[0] == entries[0]);
        assert(entries.push(e).drop_first() =~= entries.drop_first().push(e));
        assert(spec_fill(acc, entries.push(e)) == spec_fill(
            spec_fill_step(acc, entries[0]),
            entries.drop_first().push(e),
        ));
        lemma_fill_push(spec_fill_step(acc, entries[0]), entries.drop_first(), e);
    }
}

/// What the fold answers for each name: what the accumulator already
/// bound, else the first entry of the folded source bearing the name.
pub proof fn lemma_fill_get(
    acc: Seq<(Seq<char>, McpServerV)>,
    entries: Seq<(Seq<char>, McpServerV)>,
    probe: Seq<char>,
)
    ensures
        spec_srv_get(spec_fill(acc, entries), probe) == if spec_srv_has(acc, probe) {
            spec_srv_get(acc, probe)
        } else {
            spec_srv_get(entries, probe)
        },
    decreases entries.len(),
{
    lemma_srv_index_of(acc, probe);
    lemma_srv_index_of(entries, probe);
    if entries.len() > 0 {
        let e0 = entries[0];
        let acc1 = spec_fill_step(acc, e0);
        lemma_fill_get(acc1, entries.drop_first(), probe);
        lemma_srv_index_of(acc, e0.0);
        if !spec_srv_has(acc, e0.0) {
            lemma_srv_push_get(acc, e0, probe);
            lemma_srv_push_get(acc, e0, e0.0);
        }
        lemma_srv_index_of(acc1, probe);
        lemma_srv_index_of(entries.drop_first(), probe);
        if probe == e0.0 {
        } else {
            assert(spec_srv_get(entries, probe) == spec_srv_get(entries.drop_first(), probe));
        }
    }
}

/// The fold never binds a name twice.
pub proof fn lemma_fill_unique(
    acc: Seq<(Seq<char>, McpServerV)>,
    entries: Seq<(Seq<char>, McpServerV)>,
)
    requires
        forall|i: int, j: int| 0 <= i < j < acc.len() ==> acc[i].0 != acc[j].0,
    ensures
        forall|i: int, j: int|
            0 <= i < j < spec_fill(acc, entries).len() ==> spec_fill(acc, entries)[i].0
                != spec_fill(acc, entries)[j].0,
    decreases entries.len(),
{
    if entries.len() > 0 {
        let e0 = entries[0];
        let acc1 = spec_fill_step(acc, e0);
        if !spec_srv_has(acc, e0.0) {
            lemma_srv_index_of(acc, e0.0);
            assert forall|i: int, j: int| 0 <= i < j < acc1.len() implies acc1[i].0
                != acc1[j].0 by {
                if j == acc.len() {
                    assert(acc[i].0 != e0.0);
                }
            }
        }
        lemma_fill_unique(acc1, entries.drop_first());
        assert(spec_fill(acc, entries) == spec_fill(acc1, entries.drop_first()));
    }
}

/// The entries of one source map, every entry carrying the same metadata.
pub open spec fn spec_entries_of(
    fields: Seq<(Seq<char>, JsonV)>,
    source_type: SourceType,
    scope: Seq<char>,
    defined_in: Seq<char>,
    controllable: bool,
) -> Seq<(Seq<char>, McpServerV)> {
    Seq::new(
        fields.len(),
        |i: int|
            (
                fields[i].0,
                McpServerV {
                    config: fields[i].1,
                    source_type,
                    scope,
                    defined_in,
                    controllable,
                },
            ),
    )
}

/// The entries contributed by plugins: each carries its own plugin's name
/// and scope in its metadata.
pub open spec fn spec_plugin_entries(plugins: Seq<PluginServer>) -> Seq<(Seq<char>, McpServerV)> {
    Seq::new(
        plugins.len(),
        |i: int|
            (
                plugins[i].name@,
                McpServerV {
                    config: plugins[i].config@,
                    source_type: SourceType::Plugin,
                    scope: "plugin-"@ + plugins[i].plugin_scope@,
                    defined_in: "Plugin: "@ + plugins[i].plugin_name@ + " ("@
                        + plugins[i].plugin_scope@ + ")"@,
                    controllable: true,
                },
            ),
    )
}

/// The authoritative definition of `name` over the five sources: the
/// project-local file wins over the project entry, which wins over the
/// direct file, which wins over the user registration file; a plugin's
/// entry counts only when no other source defines the name.
pub open spec fn spec_winner(
    mcpjson: Seq<(Seq<char>, McpServerV)>,
    direct: Seq<(Seq<char>, McpServerV)>,
    plugin: Seq<(Seq<char>, McpServerV)>,
    project: Seq<(Seq<char>, McpServerV)>,
    local: Seq<(Seq<char>, McpServerV)>,
    name: Seq<char>,
) -> Option<McpServerV> {
    if spec_srv_has(local, name) {
        spec_srv_get(local, name)
    } else if spec_srv_has(project, name) {
        spec_srv_get(project, name)
    } else if spec_srv_has(direct, name) {
        spec_srv_get(direct, name)
    } else if spec_srv_has(mcpjson, name) {
        spec_srv_get(mcpjson, name)
    } else {
        spec_srv_get(plugin, name)
    }
}

/// The resolved definition of `name` over the raw sources as the
/// embedding application hands them over: each source map is decorated
/// with its scope metadata, then the five decorated sources answer by
/// [`spec_winner`]. The project and local sources take part only when a
/// project, respectively a registered project path, is selected.
pub open spec fn spec_merged_view(
    sources: ServerSources,
    home: Seq<char>,
    cwd: Option<Seq<char>>,
    project_path: Option<Seq<char>>,
    name: Seq<char>,
) -> Option<McpServerV> {
    spec_winner(
        spec_entries_of(
            fields_view(sources.user_mcpjson@),
            SourceType::Mcpjson,
            "user"@,
            home + "/.mcp.json"@,
            true,
        ),
        spec_entries_of(
            fields_view(sources.user_direct@),
            SourceType::Direct,
            "user"@,
            home + "/.agent.json"@,
            false,
        ),
        spec_plugin_entries(sources.plugin@),
        match cwd {
            Some(c) => spec_entries_of(
                fields_view(sources.project@),
                SourceType::Direct,
                "project"@,
                "~/.agent.json .projects["@ + c + "]"@,
                false,
            ),
            None => Seq::empty(),
        },
        match project_path {
            Some(p) => spec_entries_of(
                fields_view(sources.local@),
                SourceType::Mcpjson,
                "local"@,
                p + "/.mcp.json"@,
                true,
            ),
            None => Seq::empty(),
        },
        name,
    )
}

/// Scope precedence: a name defined in the project-local source resolves
/// to the local definition, whatever the other sources say.
pub proof fn lemma_local_precedence(
    mcpjson: Seq<(Seq<char>, McpServerV)>,
    direct: Seq<(Seq<char>, McpServerV)>,
    plugin: Seq<(Seq<char>, McpServerV)>,
    project: Seq<(Seq<char>, McpServerV)>,
    local: Seq<(Seq<char>, McpServerV)>,
    name: Seq<char>,
)
    requires
        spec_srv_has(local, name),
    ensures
        spec_winner(mcpjson, direct, plugin, project, local, name) == spec_srv_get(local, name),
{
}

/// Plugin non-override: whenever any user, project or local source
/// defines the name, the resolved definition is the same as if no plugin
/// had contributed at all — a plugin entry never overwrites a pre-existing
/// entry; and a plugin entry is itself overwritten by a project- or
/// local-scope entry of the same name.
pub proof fn lemma_plugin_non_override(
    mcpjson: Seq<(Seq<char>, McpServerV)>,
    direct: Seq<(Seq<char>, McpServerV)>,
    plugin: Seq<(Seq<char>, McpServerV)>,
    project: Seq<(Seq<char>, McpServerV)>,
    local: Seq<(Seq<char>, McpServerV)>,
    name: Seq<char>,
)
    ensures
        spec_srv_has(mcpjson, name) || spec_srv_has(direct, name) || spec_srv_has(project, name)
            || spec_srv_has(local, name) ==> spec_winner(
            mcpjson,
            direct,
            plugin,
            project,
            local,
            name,
        ) == spec_winner(mcpjson, direct, Seq::empty(), project, local, name),
        !spec_srv_has(mcpjson, name) && !spec_srv_has(direct, name) && !spec_srv_has(project, name)
            && !spec_srv_has(local, name) ==> spec_winner(
            mcpjson,
            direct,
            plugin,
            project,
            local,
            name,
        ) == spec_srv_get(plugin, name),
        spec_srv_has(project, name) && !spec_srv_has(local, name) ==> spec_winner(
            mcpjson,
            direct,
            plugin,
            project,
            local,
            name,
        ) == spec_srv_get(project, name),
{
}

/// The mathematical value of one resolved entry of the final listing.
#[verifier::ext_equal]
pub struct McpServerStateV {
    pub name: Seq<char>,
    pub config: JsonV,
    pub source_type: SourceType,
    pub scope: Seq<char>,
    pub defined_in: Seq<char>,
    pub controllable: bool,
    pub state: EnableState,
    pub in_enabled_array: bool,
    pub in_disabled_array: bool,
}

/// One entry of the final listing: a merged definition together with its
/// resolved enablement.
pub struct McpServerState {
    pub name: String,
    pub config: Json,
    pub source_type: SourceType,
    pub scope: String,
    pub defined_in: String,
    pub controllable: bool,
    pub state: EnableState,
    pub in_enabled_array: bool,
    pub in_disabled_array: bool,
}

impl View for McpServerState {
    type V = McpServerStateV;

    open spec fn view(&self) -> McpServerStateV {
        McpServerStateV {
            name: self.name@,
            config: self.config@,
            source_type: self.source_type,
            scope: self.scope@,
            defined_in: self.defined_in@,
            controllable: self.controllable,
            state: self.state,
            in_enabled_array: self.in_enabled_array,
            in_disabled_array: self.in_disabled_array,
        }
    }
}

/// The resolved entry for one merged definition under the given overlays.
pub open spec fn spec_state_entry(
    name: Seq<char>,
    server: McpServerV,
    enabled_overlay: Seq<Seq<char>>,
    disabled_overlay: Seq<Seq<char>>,
    disabled_direct: Seq<Seq<char>>,
) -> McpServerStateV {
    McpServerStateV {
        name: name,
        config: server.config,
        source_type: server.source_type,
        scope: server.scope,
        defined_in: server.defined_in,
        controllable: server.controllable,
        state: spec_server_state(
            server.source_type,
            name,
            enabled_overlay,
            disabled_overlay,
            disabled_direct,
        ),
        in_enabled_array: enabled_overlay.contains(name),
        in_disabled_array: disabled_overlay.contains(name),
    }
}

/// The five sources a resolution works from, each already read out of its
/// file by the embedding application. The project and local lists take
/// part only when a project, respectively a registered project path, is
/// selected.
pub struct ServerSources {
    pub user_mcpjson: Vec<(String, Json)>,
    pub user_direct: Vec<(String, Json)>,
    pub plugin: Vec<PluginServer>,
    pub project: Vec<(String, Json)>,
    pub local: Vec<(String, Json)>,
}

/// Index of the first entry named `name` in a server list, or `None`.
fn server_index_of(entries: &Vec<(String, McpServer)>, name: &String) -> (r: Option<usize>)
    ensures
        match r {
            Some(i) => i == spec_srv_index_of(servers_view(entries@), name@),
            None => !spec_srv_has(servers_view(entries@), name@),
        },
{
    let ghost ev = servers_view(entries@);
    proof {
        lemma_srv_index_of(ev, name@);
    }
    let mut i: usize = 0;
    while i < entries.len()
        invariant
            i <= entries@.len(),
            ev == servers_view(entries@),
            forall|k: int| 0 <= k < i ==> ev[k].0 != name@,
            spec_srv_index_of(ev, name@) >= 0 ==> {
                let n = spec_srv_index_of(ev, name@);
                &&& 0 <= n < ev.len()
                &&& ev[n].0 == name@
                &&& forall|k: int| 0 <= k < n ==> ev[k].0 != name@
            },
            spec_srv_index_of(ev, name@) < 0 ==> forall|k: int|
                0 <= k < ev.len() ==> ev[k].0 != name@,
        decreases entries@.len() - i,
    {
        if entries[i].0 == *name {
            proof {
                assert(ev[i as int].0 == name@);
                let n = spec_srv_index_of(ev, name@);
                assert(n >= 0);
                if n < i {
                    assert(ev[n].0 != name@);
                }
                if n > i {
                    assert(ev[i as int].0 != name@);
                }
            }
            return Some(i);
        }
        i = i + 1;
    }
    None
}

/// A copy of a server record, denoting the same definition.
fn clone_server(s: &McpServer) -> (r: McpServer)
    ensures
        r@ == s@,
{
    McpServer {
        config: json_clone(&s.config),
        source_type: s.source_type,
        scope: s.scope.clone(),
        defined_in: s.defined_in.clone(),
        controllable: s.controllable,
    }
}

/// Folds `entries` into `out`, keeping an entry only when its name is
/// still free.
fn fill_entries(out: &mut Vec<(String, McpServer)>, entries: &Vec<(String, McpServer)>)
    ensures
        servers_view(final(out)@) == spec_fill(servers_view(old(out)@), servers_view(entries@)),
{
    let ghost startv = servers_view(old(out)@);
    let ghost ev = servers_view(entries@);
    let mut i: usize = 0;
    proof {
        assert(ev.take(0) =~= Seq::<(Seq<char>, McpServerV)>::empty());
    }
    while i < entries.len()
        invariant
            i <= entries@.len(),
            ev == servers_view(entries@),
            servers_view(out@) == spec_fill(startv, ev.take(i as int)),
        decreases entries@.len() - i,
    {
        let ghost before = servers_view(out@);
        match server_index_of(out, &entries[i].0) {
            Some(_) => {
                proof {
                    assert(ev.take(i + 1) =~= ev.take(i as int).push(ev[i as int]));
                    lemma_fill_push(startv, ev.take(i as int), ev[i as int]);
                }
            },
            None => {
                let name = entries[i].0.clone();
                let server = clone_server(&entries[i].1);
                out.push((name, server));
                proof {
                    assert(servers_view(out@) =~= before.push(ev[i as int]));
                    assert(ev.take(i + 1) =~= ev.take(i as int).push(ev[i as int]));
                    lemma_fill_push(startv, ev.take(i as int), ev[i as int]);
                }
            },
        }
        i = i + 1;
    }
    proof {
        assert(ev.take(entries@.len() as int) =~= ev);
    }
}

/// The entries of one source map, every entry carrying the same metadata.
fn entries_from_map(
    fields: &Vec<(String, Json)>,
    source_type: SourceType,
    scope: &String,
    defined_in: &String,
    controllable: bool,
) -> (r: Vec<(String, McpServer)>)
    ensures
        servers_view(r@) == spec_entries_of(
            fields_view(fields@),
            source_type,
            scope@,
            defined_in@,
            controllable,
        ),
{
    proof {
        lemma_fields_view(fields@);
    }
    let mut out: Vec<(String, McpServer)> = Vec::new();
    let mut i: usize = 0;
    while i < fields.len()
        invariant
            i <= fields@.len(),
            out@.len() == i,
            fields_view(fields@).len() == fields@.len(),
            forall|k: int|
                0 <= k < fields@.len() ==> fields_view(fields@)[k] == (
                    fields@[k].0@,
                    fields@[k].1@,
                ),
            forall|k: int|
                0 <= k < i ==> servers_view(out@)[k] == spec_entries_of(
                    fields_view(fields@),
                    source_type,
                    scope@,
                    defined_in@,
                    controllable,
                )[k],
        decreases fields@.len() - i,
    {
        let name = fields[i].0.clone();
        let server = McpServer {
            config: json_clone(&fields[i].1),
            source_type,
            scope: scope.clone(),
            defined_in: defined_in.clone(),
            controllable,
        };
        let ghost before = out@;
        let ghost sv = server@;
        let ghost nv = name@;
        out.push((name, server));
        proof {
            let target = spec_entries_of(
                fields_view(fields@),
                source_type,
                scope@,
                defined_in@,
                controllable,
            );
            assert forall|k: int| 0 <= k < i + 1 implies servers_view(out@)[k] == target[k] by {
                if k < i {
                    assert(out@[k] == before[k]);
                    assert(servers_view(before)[k] == target[k]);
                } else {
                    assert(out@[k] == (out@[k].0, out@[k].1));
                    assert(out@[k].0@ == nv && out@[k].1@ == sv);
                    assert(target[k] == (
                        fields_view(fields@)[k].0,
                        McpServerV {
                            config: fields_view(fields@)[k].1,
                            source_type,
                            scope: scope@,
                            defined_in: defined_in@,
                            controllable,
                        },
                    ));
                }
            }
        }
        i = i + 1;
    }
    proof {
        assert(servers_view(out@) =~= spec_entries_of(
            fields_view(fields@),
            source_type,
            scope@,
            defined_in@,
            controllable,
        ));
    }
    out
}

/// The entries contributed by plugins, each carrying its plugin's name and
/// scope in its metadata.
fn entries_from_plugins(plugins: &Vec<PluginServer>) -> (r: Vec<(String, McpServer)>)
    ensures
        servers_view(r@) == spec_plugin_entries(plugins@),
{
    let mut out: Vec<(String, McpServer)> = Vec::new();
    let mut i: usize = 0;
    while i < plugins.len()
        invariant
            i <= plugins@.len(),
            out@.len() == i,
            forall|k: int|
                0 <= k < i ==> servers_view(out@)[k] == spec_plugin_entries(plugins@)[k],
        decreases plugins@.len() - i,
    {
        let p = &plugins[i];
        let scope = String::from_str("plugin-").concat(p.plugin_scope.as_str());
        let defined_in = String::from_str("Plugin: ").concat(p.plugin_name.as_str()).concat(
            " (",
        ).concat(p.plugin_scope.as_str()).concat(")");
        let server = McpServer {
            config: json_clone(&p.config),
            source_type: SourceType::Plugin,
            scope,
            defined_in,
            controllable: true,
        };
        out.push((p.name.clone(), server));
        i = i + 1;
    }
    proof {
        assert(servers_view(out@) =~= spec_plugin_entries(plugins@));
    }
    out
}

/// The merged, name-keyed view over all five sources. The most local
/// source always wins: the project-local registration file over the
/// project entry, that over the direct file, that over the user
/// registration file; plugin entries fill only names no other source
/// defines. Each name appears once, and resolves to exactly what
/// [`spec_winner`] names.
pub fn merge_servers(
    sources: &ServerSources,
    home: &String,
    cwd: &Option<String>,
    project_path: &Option<String>,
) -> (r: Vec<(String, McpServer)>)
    ensures
        ({
            let mcpjson = spec_entries_of(
                fields_view(sources.user_mcpjson@),
                SourceType::Mcpjson,
                "user"@,
                home@ + "/.mcp.json"@,
                true,
            );
            let direct = spec_entries_of(
                fields_view(sources.user_direct@),
                SourceType::Direct,
                "user"@,
                home@ + "/.agent.json"@,
                false,
            );
            let plugin = spec_plugin_entries(sources.plugin@);
            let project = match crate::json::opt_str_view(*cwd) {
                Some(c) => spec_entries_of(
                    fields_view(sources.project@),
                    SourceType::Direct,
                    "project"@,
                    "~/.agent.json .projects["@ + c + "]"@,
                    false,
                ),
                None => Seq::empty(),
            };
            let local = match crate::json::opt_str_view(*project_path) {
                Some(p) => spec_entries_of(
                    fields_view(sources.local@),
                    SourceType::Mcpjson,
                    "local"@,
                    p + "/.mcp.json"@,
                    true,
                ),
                None => Seq::empty(),
            };
            &&& forall|i: int, j: int|
                0 <= i < j < servers_view(r@).len() ==> servers_view(r@)[i].0 != servers_view(
                    r@,
                )[j].0
            &&& forall|name: Seq<char>|
                spec_srv_get(servers_view(r@), name) == #[trigger] spec_merged_view(
                    *sources,
                    home@,
                    crate::json::opt_str_view(*cwd),
                    crate::json::opt_str_view(*project_path),
                    name,
                )
        }),
{
    let ghost mcpjson = spec_entries_of(
        fields_view(sources.user_mcpjson@),
        SourceType::Mcpjson,
        "user"@,
        home@ + "/.mcp.json"@,
        true,
    );
    let ghost direct = spec_entries_of(
        fields_view(sources.user_direct@),
        SourceType::Direct,
        "user"@,
        home@ + "/.agent.json"@,
        false,
    );
    let ghost plugin = spec_plugin_entries(sources.plugin@);

    let mut out: Vec<(String, McpServer)> = Vec::new();
    proof {
        assert(servers_view(out@) =~= Seq::<(Seq<char>, McpServerV)>::empty());
    }
    let ghost empty = servers_view(out@);

    // Highest authority first: every later source only fills gaps.
    let ghost mut localv = Seq::<(Seq<char>, McpServerV)>::empty();
    if let Some(p) = project_path {
        let scope = String::from_str("local");
        let defined_in = p.clone().concat("/.mcp.json");
        let entries = entries_from_map(
            &sources.local,
            SourceType::Mcpjson,
            &scope,
            &defined_in,
            true,
        );
        fill_entries(&mut out, &entries);
        proof {
            localv = servers_view(entries@);
        }
    }
    let ghost acc1 = servers_view(out@);

    let ghost mut projectv = Seq::<(Seq<char>, McpServerV)>::empty();
    if let Some(c) = cwd {
        let scope = String::from_str("project");
        let defined_in = String::from_str("~/.agent.json .projects[").concat(c.as_str()).concat(
            "]",
        );
        let entries = entries_from_map(
            &sources.project,
            SourceType::Direct,
            &scope,
            &defined_in,
            false,
        );
        fill_entries(&mut out, &entries);
        proof {
            projectv = servers_view(entries@);
        }
    }
    let ghost acc2 = servers_view(out@);

    {
        let scope = String::from_str("user");
        let defined_in = home.clone().concat("/.agent.json");
        let entries = entries_from_map(
            &sources.user_direct,
            SourceType::Direct,
            &scope,
            &defined_in,
            false,
        );
        fill_entries(&mut out, &entries);
    }
    let ghost acc3 = servers_view(out@);

    {
        let scope = String::from_str("user");
        let defined_in = home.clone().concat("/.mcp.json");
        let entries = entries_from_map(
            &sources.user_mcpjson,
            SourceType::Mcpjson,
            &scope,
            &defined_in,
            true,
        );
        fill_entries(&mut out, &entries);
    }
    let ghost acc4 = servers_view(out@);

    {
        let entries = entries_from_plugins(&sources.plugin);
        fill_entries(&mut out, &entries);
    }

    proof {
        assert(acc1 == spec_fill(empty, localv));
        assert(acc2 == spec_fill(acc1, projectv));
        assert(acc3 == spec_fill(acc2, direct));
        assert(acc4 == spec_fill(acc3, mcpjson));
        assert(servers_view(out@) == spec_fill(acc4, plugin));
        lemma_fill_unique(empty, localv);
        lemma_fill_unique(acc1, projectv);
        lemma_fill_unique(acc2, direct);
        lemma_fill_unique(acc3, mcpjson);
        lemma_fill_unique(acc4, plugin);
        assert forall|name: Seq<char>|
            spec_srv_get(servers_view(out@), name) == #[trigger] spec_merged_view(
                *sources,
                home@,
                crate::json::opt_str_view(*cwd),
                crate::json::opt_str_view(*project_path),
                name,
            ) by {
            assert(spec_merged_view(
                *sources,
                home@,
                crate::json::opt_str_view(*cwd),
                crate::json::opt_str_view(*project_path),
                name,
            ) == spec_winner(mcpjson, direct, plugin, projectv, localv, name));
            lemma_fill_get(acc4, plugin, name);
            lemma_fill_get(acc3, mcpjson, name);
            lemma_fill_get(acc2, direct, name);
            lemma_fill_get(acc1, projectv, name);
            lemma_fill_get(empty, localv, name);
            lemma_srv_index_of(empty, name);
            lemma_srv_index_of(acc1, name);
            lemma_srv_index_of(acc2, name);
            lemma_srv_index_of(acc3, name);
            lemma_srv_index_of(acc4, name);
        }
    }
    out
}

/// The full listing: the merged definitions, each with its resolved
/// three-state enablement and its raw overlay memberships. Every merged
/// name appears exactly once, carrying exactly the winning definition.
#[verifier::rlimit(60)]
pub fn get_mcp_servers_with_state(
    sources: &ServerSources,
    home: &String,
    cwd: &Option<String>,
    project_path: &Option<String>,
    state: &McpEnabledState,
) -> (r: Vec<McpServerState>)
    ensures
        forall|i: int, j: int| 0 <= i < j < r@.len() ==> r@[i]@.name != r@[j]@.name,
        forall|i: int|
            0 <= i < r@.len() ==> spec_merged_view(
                *sources,
                home@,
                crate::json::opt_str_view(*cwd),
                crate::json::opt_str_view(*project_path),
                (#[trigger] r@[i]@).name,
            ) is Some,
        forall|i: int|
            0 <= i < r@.len() ==> (#[trigger] r@[i]@) == spec_state_entry(
                r@[i]@.name,
                spec_merged_view(
                    *sources,
                    home@,
                    crate::json::opt_str_view(*cwd),
                    crate::json::opt_str_view(*project_path),
                    r@[i]@.name,
                )->Some_0,
                strs_view(state.enabled_mcp_json_servers@),
                strs_view(state.disabled_mcp_json_servers@),
                strs_view(state.disabled_mcp_servers@),
            ),
        forall|name: Seq<char>|
            (#[trigger] spec_merged_view(
                *sources,
                home@,
                crate::json::opt_str_view(*cwd),
                crate::json::opt_str_view(*project_path),
                name,
            )) is Some ==> exists|i: int| 0 <= i < r@.len() && (#[trigger] r@[i]@).name == name,
{
    let ghost eov = strs_view(state.enabled_mcp_json_servers@);
    let ghost dov = strs_view(state.disabled_mcp_json_servers@);
    let ghost ddv = strs_view(state.disabled_mcp_servers@);

    let merged = merge_servers(sources, home, cwd, project_path);
    let ghost mv = servers_view(merged@);
    let mut out: Vec<McpServerState> = Vec::new();
    let mut i: usize = 0;
    while i < merged.len()
        invariant
            i <= merged@.len(),
            out@.len() == i,
            mv == servers_view(merged@),
            eov == strs_view(state.enabled_mcp_json_servers@),
            dov == strs_view(state.disabled_mcp_json_servers@),
            ddv == strs_view(state.disabled_mcp_servers@),
            forall|k: int|
                0 <= k < i ==> (#[trigger] out@[k])@ == spec_state_entry(
                    mv[k].0,
                    mv[k].1,
                    eov,
                    dov,
                    ddv,
                ),
        decreases merged@.len() - i,
    {
        let entry = &merged[i];
        let st = compute_server_state(entry.1.source_type, &entry.0, state);
        let in_enabled = contains_string(&state.enabled_mcp_json_servers, &entry.0);
        let in_disabled = contains_string(&state.disabled_mcp_json_servers, &entry.0);
        let item = McpServerState {
            name: entry.0.clone(),
            config: json_clone(&entry.1.config),
            source_type: entry.1.source_type,
            scope: entry.1.scope.clone(),
            defined_in: entry.1.defined_in.clone(),
            controllable: entry.1.controllable,
            state: st,
            in_enabled_array: in_enabled,
            in_disabled_array: in_disabled,
        };
        out.push(item);
        i = i + 1;
    }
    proof {
        assert forall|k: int| 0 <= k < mv.len() implies spec_srv_get(mv, mv[k].0) == Some(
            mv[k].1,
        ) by {
            lemma_srv_index_of(mv, mv[k].0);
            let n = spec_srv_index_of(mv, mv[k].0);
            if n < 0 {
                assert(mv[k].0 != mv[k].0);
            }
            if n != k {
                assert(mv[n].0 == mv[k].0);
            }
        }
        assert forall|name: Seq<char>|
            (#[trigger] spec_merged_view(
                *sources,
                home@,
                crate::json::opt_str_view(*cwd),
                crate::json::opt_str_view(*project_path),
                name,
            )) is Some implies exists|i2: int| 0 <= i2 < out@.len() && (#[trigger] out@[i2]@).name
            == name by {
            lemma_srv_index_of(mv, name);
            let n = spec_srv_index_of(mv, name);
            assert(out@[n]@.name == name);
        }
    }
    out
}

/// The resolved definition of `name` at the user level alone: the direct
/// file's entry wins over the user registration file's.
pub open spec fn spec_global_view(
    user_mcpjson: Seq<(String, Json)>,
    user_direct: Seq<(String, Json)>,
    home: Seq<char>,
    name: Seq<char>,
) -> Option<McpServerV> {
    spec_winner(
        spec_entries_of(
            fields_view(user_mcpjson),
            SourceType::Mcpjson,
            "user"@,
            home + "/.mcp.json"@,
            true,
        ),
        spec_entries_of(
            fields_view(user_direct),
            SourceType::Direct,
            "user"@,
            home + "/.agent.json"@,
            false,
        ),
        Seq::empty(),
        Seq::empty(),
        Seq::empty(),
        name,
    )
}

/// The machine-wide server map: the user registration file and the direct
/// file folded into one name-keyed view, the direct file winning on a
/// shared name.
pub fn get_global_mcp_servers(
    user_mcpjson: &Vec<(String, Json)>,
    user_direct: &Vec<(String, Json)>,
    home: &String,
) -> (r: Vec<(String, McpServer)>)
    ensures
        forall|i: int, j: int|
            0 <= i < j < servers_view(r@).len() ==> servers_view(r@)[i].0 != servers_view(
                r@,
            )[j].0,
        forall|name: Seq<char>|
            spec_srv_get(servers_view(r@), name) == #[trigger] spec_global_view(
                user_mcpjson@,
                user_direct@,
                home@,
                name,
            ),
{
    let ghost mcpjson = spec_entries_of(
        fields_view(user_mcpjson@),
        SourceType::Mcpjson,
        "user"@,
        home@ + "/.mcp.json"@,
        true,
    );
    let ghost direct = spec_entries_of(
        fields_view(user_direct@),
        SourceType::Direct,
        "user"@,
        home@ + "/.agent.json"@,
        false,
    );
    let mut out: Vec<(String, McpServer)> = Vec::new();
    proof {
        assert(servers_view(out@) =~= Seq::<(Seq<char>, McpServerV)>::empty());
    }
    let ghost empty = servers_view(out@);
    {
        let scope = String::from_str("user");
        let defined_in = home.clone().concat("/.agent.json");
        let entries = entries_from_map(
            user_direct,
            SourceType::Direct,
            &scope,
            &defined_in,
            false,
        );
        fill_entries(&mut out, &entries);
    }
    let ghost acc1 = servers_view(out@);
    {
        let scope = String::from_str("user");
        let defined_in = home.clone().concat("/.mcp.json");
        let entries = entries_from_map(
            user_mcpjson,
            SourceType::Mcpjson,
            &scope,
            &defined_in,
            true,
        );
        fill_entries(&mut out, &entries);
    }
    proof {
        assert(acc1 == spec_fill(empty, direct));
        assert(servers_view(out@) == spec_fill(acc1, mcpjson));
        lemma_fill_unique(empty, direct);
        lemma_fill_unique(acc1, mcpjson);
        assert forall|name: Seq<char>|
            spec_srv_get(servers_view(out@), name) == #[trigger] spec_global_view(
                user_mcpjson@,
                user_direct@,
                home@,
                name,
            ) by {
            lemma_fill_get(acc1, mcpjson, name);
            lemma_fill_get(empty, direct, name);
            lemma_srv_index_of(empty, name);
            lemma_srv_index_of(acc1, name);
            lemma_srv_index_of(Seq::empty(), name);
        }
    }
    out
}

/// Whether any user-level source registers the name.
pub fn check_mcp_server_exists(
    user_mcpjson: &Vec<(String, Json)>,
    user_direct: &Vec<(String, Json)>,
    server_name: &String,
) -> (r: bool)
    ensures
        r == (crate::json::spec_obj_has_key(fields_view(user_mcpjson@), server_name@)
            || crate::json::spec_obj_has_key(fields_view(user_direct@), server_name@)),
{
    crate::json::obj_index_of(user_mcpjson, server_name).is_some()
        || crate::json::obj_index_of(user_direct, server_name).is_some()
}

} // verus!
