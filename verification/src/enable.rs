//! The enablement resolver.
//!
//! A server definition is never deleted to switch it off; instead overlay
//! arrays in the settings files mark names as enabled or disabled. For
//! registered (`mcpjson`) and plugin servers two arrays cooperate and yield
//! a three-state answer; direct servers know only a single disabled-list,
//! read from the machine-wide registration file at the root or, when a
//! project is selected, from that project's entry.

use vstd::prelude::*;
use vstd::string::StringExecFns;
use crate::json::Json;
use crate::json::JsonV;
use crate::json::obj_get;
use crate::json::opt_json_view;
use crate::json::opt_str_view;
use crate::json::spec_get;
use crate::json::strs_view;
use crate::json::items_view;
use crate::json::lemma_items_view;

verus! {

/// Where a merged server definition came from.
#[derive(Clone, Copy, PartialEq, Eq, Structural, Debug)]
pub enum SourceType {
    /// A registration file's `mcpServers` object, user or project local.
    Mcpjson,
    /// The machine-wide direct-registration file.
    Direct,
    /// An installed plugin's own registration file.
    Plugin,
}

/// The resolved enablement of one server definition.
#[derive(Clone, Copy, PartialEq, Eq, Structural, Debug)]
pub enum EnableState {
    Enabled,
    Disabled,
    /// Flagged disabled yet re-enabled at the runtime layer: the name is in
    /// both overlay arrays at once. Surfaced as is, never resolved silently.
    RuntimeDisabled,
}

/// The overlay arrays that govern enablement, as read from the settings
/// file chosen by scope-aware path resolution plus the direct file.
pub struct McpEnabledState {
    pub enabled_mcp_json_servers: Vec<String>,
    pub disabled_mcp_json_servers: Vec<String>,
    pub disabled_mcp_servers: Vec<String>,
}

/// Whether `name` occurs in the string list.
pub fn contains_string(items: &Vec<String>, name: &String) -> (r: bool)
    ensures
        r == strs_view(items@).contains(name@),
{
    let mut i: usize = 0;
    while i < items.len()
        invariant
            i <= items@.len(),
            forall|k: int| 0 <= k < i ==> strs_view(items@)[k] != name@,
        decreases items@.len() - i,
    {
        if items[i] == *name {
            assert(strs_view(items@)[i as int] == name@);
            return true;
        }
        i = i + 1;
    }
    proof {
        if strs_view(items@).contains(name@) {
            let k = choose|k: int|
                0 <= k < strs_view(items@).len() && strs_view(items@)[k] == name@;
            assert(strs_view(items@)[k] != name@);
        }
    }
    false
}

/// The strings among `items`, in order; other elements are passed over.
pub open spec fn spec_strings_of(items: Seq<JsonV>) -> Seq<Seq<char>>
    decreases items.len(),
{
    if items.len() == 0 {
        Seq::empty()
    } else {
        let rest = spec_strings_of(items.drop_last());
        if items.last() is Str {
            rest.push(items.last()->Str_0)
        } else {
            rest
        }
    }
}

/// The strings of the array bound to `key` in `v`; empty when the key is
/// absent or not bound to an array.
pub open spec fn spec_extract_string_array(v: JsonV, key: Seq<char>) -> Seq<Seq<char>> {
    match spec_get(v, key) {
        Some(w) => if w is Arr {
            spec_strings_of(w->Arr_0)
        } else {
            Seq::empty()
        },
        None => Seq::empty(),
    }
}

/// The string elements of `items`, in order.
pub fn strings_of_items(items: &Vec<Json>) -> (r: Vec<String>)
    ensures
        strs_view(r@) == spec_strings_of(items_view(items@)),
{
    let ghost iv = items_view(items@);
    proof {
        lemma_items_view(items@);
    }
    let mut out: Vec<String> = Vec::new();
    let mut i: usize = 0;
    assert(strs_view(out@) =~= spec_strings_of(iv.take(0)));
    while i < items.len()
        invariant
            i <= items@.len(),
            iv == items_view(items@),
            iv.len() == items@.len(),
            forall|k: int| 0 <= k < items@.len() ==> iv[k] == items@[k]@,
            strs_view(out@) =~= spec_strings_of(iv.take(i as int)),
        decreases items@.len() - i,
    {
        proof {
            assert(iv.take(i + 1).drop_last() =~= iv.take(i as int));
            assert(iv.take(i + 1).last() == iv[i as int]);
        }
        match &items[i] {
            Json::Str(s) => {
                out.push(s.clone());
                assert(strs_view(out@) =~= spec_strings_of(iv.take(i as int)).push(
                    iv[i as int]->Str_0,
                ));
            },
            _ => {
                assert(!(iv[i as int] is Str));
            },
        }
        i = i + 1;
    }
    proof {
        assert(iv.take(items@.len() as int) =~= iv);
    }
    out
}

/// The string elements of the array bound to `key` in `value`.
pub fn extract_string_array(value: &Json, key: &String) -> (r: Vec<String>)
    ensures
        strs_view(r@) == spec_extract_string_array(value@, key@),
{
    match obj_get(value, key) {
        Some(Json::Arr(items)) => strings_of_items(items),
        _ => {
            let out: Vec<String> = Vec::new();
            assert(strs_view(out@) =~= Seq::<Seq<char>>::empty());
            out
        },
    }
}

/// The overlay arrays held by one settings file, absent files reading as
/// three empty arrays.
pub fn read_settings_from_file(settings_file: &Option<Json>) -> (r: McpEnabledState)
    ensures
        match *settings_file {
            Some(f) => {
                &&& strs_view(r.enabled_mcp_json_servers@) == spec_extract_string_array(
                    f@,
                    "enabledMcpjsonServers"@,
                )
                &&& strs_view(r.disabled_mcp_json_servers@) == spec_extract_string_array(
                    f@,
                    "disabledMcpjsonServers"@,
                )
                &&& strs_view(r.disabled_mcp_servers@) == spec_extract_string_array(
                    f@,
                    "disabledMcpServers"@,
                )
            },
            None => {
                &&& r.enabled_mcp_json_servers@.len() == 0
                &&& r.disabled_mcp_json_servers@.len() == 0
                &&& r.disabled_mcp_servers@.len() == 0
            },
        },
{
    match settings_file {
        Some(f) => McpEnabledState {
            enabled_mcp_json_servers: extract_string_array(
                f,
                &String::from_str("enabledMcpjsonServers"),
            ),
            disabled_mcp_json_servers: extract_string_array(
                f,
                &String::from_str("disabledMcpjsonServers"),
            ),
            disabled_mcp_servers: extract_string_array(f, &String::from_str("disabledMcpServers")),
        },
        None => McpEnabledState {
            enabled_mcp_json_servers: Vec::new(),
            disabled_mcp_json_servers: Vec::new(),
            disabled_mcp_servers: Vec::new(),
        },
    }
}

/// The disabled-list that governs direct servers: the selected project's
/// own list when one is present, else the root-level list.
pub open spec fn spec_disabled_direct(
    agent_json: Option<JsonV>,
    cwd: Option<Seq<char>>,
) -> Seq<Seq<char>> {
    match agent_json {
        None => Seq::empty(),
        Some(c) => {
            let project_list = if cwd is Some {
                match spec_get(c, "projects"@) {
                    Some(projects) => match spec_get(projects, cwd->0) {
                        Some(project) => match spec_get(project, "disabledMcpServers"@) {
                            Some(d) => if d is Arr {
                                Some(spec_strings_of(d->Arr_0))
                            } else {
                                None
                            },
                            None => None,
                        },
                        None => None,
                    },
                    None => None,
                }
            } else {
                None
            };
            match project_list {
                Some(list) => list,
                None => spec_extract_string_array(c, "disabledMcpServers"@),
            }
        },
    }
}

/// The disabled-list for direct servers out of the direct-registration
/// file: the project entry's list takes precedence over the root list.
pub fn read_disabled_mcp_servers_from_agent_json(
    agent_json: &Option<Json>,
    cwd: &Option<String>,
) -> (r: Vec<String>)
    ensures
        strs_view(r@) == spec_disabled_direct(opt_json_view(*agent_json), opt_str_view(*cwd)),
{
    let c = match agent_json {
        Some(c) => c,
        None => {
            let out: Vec<String> = Vec::new();
            assert(strs_view(out@) =~= Seq::<Seq<char>>::empty());
            return out;
        },
    };
    if let Some(cwd_str) = cwd {
        if let Some(projects) = obj_get(c, &String::from_str("projects")) {
            if let Some(project) = obj_get(projects, cwd_str) {
                if let Some(d) = obj_get(project, &String::from_str("disabledMcpServers")) {
                    if let Json::Arr(items) = d {
                        return strings_of_items(items);
                    }
                }
            }
        }
    }
    extract_string_array(c, &String::from_str("disabledMcpServers"))
}

/// The state's direct-server list replaced by what the direct file says;
/// the two registered-server overlays pass through unchanged.
pub fn merge_disabled_mcp_servers(
    state: McpEnabledState,
    agent_json: &Option<Json>,
    cwd: &Option<String>,
) -> (r: McpEnabledState)
    ensures
        r.enabled_mcp_json_servers@ == state.enabled_mcp_json_servers@,
        r.disabled_mcp_json_servers@ == state.disabled_mcp_json_servers@,
        strs_view(r.disabled_mcp_servers@) == spec_disabled_direct(
            opt_json_view(*agent_json),
            opt_str_view(*cwd),
        ),
{
    McpEnabledState {
        enabled_mcp_json_servers: state.enabled_mcp_json_servers,
        disabled_mcp_json_servers: state.disabled_mcp_json_servers,
        disabled_mcp_servers: read_disabled_mcp_servers_from_agent_json(agent_json, cwd),
    }
}

/// The full overlay state: the two registered-server arrays out of the
/// chosen settings file, the direct-server list out of the direct file.
pub fn get_mcp_enabled_state(
    settings_file: &Option<Json>,
    agent_json: &Option<Json>,
    cwd: &Option<String>,
) -> (r: McpEnabledState)
    ensures
        match *settings_file {
            Some(f) => {
                &&& strs_view(r.enabled_mcp_json_servers@) == spec_extract_string_array(
                    f@,
                    "enabledMcpjsonServers"@,
                )
                &&& strs_view(r.disabled_mcp_json_servers@) == spec_extract_string_array(
                    f@,
                    "disabledMcpjsonServers"@,
                )
            },
            None => {
                &&& r.enabled_mcp_json_servers@.len() == 0
                &&& r.disabled_mcp_json_servers@.len() == 0
            },
        },
        strs_view(r.disabled_mcp_servers@) == spec_disabled_direct(
            opt_json_view(*agent_json),
            opt_str_view(*cwd),
        ),
{
    let state = read_settings_from_file(settings_file);
    merge_disabled_mcp_servers(state, agent_json, cwd)
}

/// The three-state rule. Direct servers know only the direct disabled-list;
/// all other servers answer to the two overlay arrays, where membership in
/// both at once is the deliberate in-between state.
pub open spec fn spec_server_state(
    source: SourceType,
    name: Seq<char>,
    enabled_overlay: Seq<Seq<char>>,
    disabled_overlay: Seq<Seq<char>>,
    disabled_direct: Seq<Seq<char>>,
) -> EnableState {
    if source is Direct {
        if disabled_direct.contains(name) {
            EnableState::Disabled
        } else {
            EnableState::Enabled
        }
    } else {
        if disabled_overlay.contains(name) && !enabled_overlay.contains(name) {
            EnableState::Disabled
        } else if enabled_overlay.contains(name) && disabled_overlay.contains(name) {
            EnableState::RuntimeDisabled
        } else {
            EnableState::Enabled
        }
    }
}

/// The resolved state of one server under the given overlays.
pub fn compute_server_state(source: SourceType, name: &String, st: &McpEnabledState) -> (r:
    EnableState)
    ensures
        r == spec_server_state(
            source,
            name@,
            strs_view(st.enabled_mcp_json_servers@),
            strs_view(st.disabled_mcp_json_servers@),
            strs_view(st.disabled_mcp_servers@),
        ),
{
    match source {
        SourceType::Direct => {
            if contains_string(&st.disabled_mcp_servers, name) {
                EnableState::Disabled
            } else {
                EnableState::Enabled
            }
        },
        _ => {
            let in_enabled = contains_string(&st.enabled_mcp_json_servers, name);
            let in_disabled = contains_string(&st.disabled_mcp_json_servers, name);
            if in_disabled && !in_enabled {
                EnableState::Disabled
            } else if in_enabled && in_disabled {
                EnableState::RuntimeDisabled
            } else {
                EnableState::Enabled
            }
        },
    }
}

/// Three-state correctness for a non-direct server: in both overlays at
/// once means runtime-disabled; only in the disabled overlay means
/// disabled; anything else means enabled.
pub proof fn lemma_three_state(
    source: SourceType,
    name: Seq<char>,
    enabled_overlay: Seq<Seq<char>>,
    disabled_overlay: Seq<Seq<char>>,
    disabled_direct: Seq<Seq<char>>,
)
    requires
        !(source is Direct),
    ensures
        enabled_overlay.contains(name) && disabled_overlay.contains(name)
            ==> spec_server_state(source, name, enabled_overlay, disabled_overlay, disabled_direct)
            == EnableState::RuntimeDisabled,
        disabled_overlay.contains(name) && !enabled_overlay.contains(name)
            ==> spec_server_state(source, name, enabled_overlay, disabled_overlay, disabled_direct)
            == EnableState::Disabled,
        !disabled_overlay.contains(name) ==> spec_server_state(
            source,
            name,
            enabled_overlay,
            disabled_overlay,
            disabled_direct,
        ) == EnableState::Enabled,
{
}

} // verus!
