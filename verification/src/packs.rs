//! The install manifest tracker.
//!
//! Installing a template writes files, a skill directory, or a server
//! registration; the manifest records each installation so it can be
//! reversed exactly. The functions here decide: they validate a payload,
//! name the filesystem effects the embedding application must perform, and
//! hand back the manifest to persist only once those effects succeeded —
//! the explicit two-phase contract for the untransactional pair of writes.

use vstd::prelude::*;
use vstd::string::StringExecFns;
use vstd::string::StringSliceAdditionalSpecFns;
use crate::errors::EngineError;
use crate::json::Json;
use crate::json::JsonV;
use crate::json::json_clone;
use crate::registry::spec_update_global;
use crate::registry::update_global_mcp_server;
use crate::sys::now_rfc3339;

verus! {

/// One file of a skill template: where it goes under the skill's
/// directory, and what it holds.
pub struct SkillFilePayload {
    pub relative_path: String,
    pub content: String,
}

/// The mathematical value of a skill file.
#[verifier::ext_equal]
pub struct SkillFilePayloadV {
    pub relative_path: Seq<char>,
    pub content: Seq<char>,
}

impl View for SkillFilePayload {
    type V = SkillFilePayloadV;

    open spec fn view(&self) -> SkillFilePayloadV {
        SkillFilePayloadV { relative_path: self.relative_path@, content: self.content@ }
    }
}

/// A template installation request, dispatched on `template_type`:
/// `agent` and `command` carry `content`, `skill` carries `skill_files`,
/// `mcp` carries `server_name` and `server_config`.
pub struct SecurityPackInstallPayload {
    pub template_type: String,
    pub id: String,
    pub content: Option<String>,
    pub skill_files: Option<Vec<SkillFilePayload>>,
    pub server_name: Option<String>,
    pub server_config: Option<Json>,
}

/// One recorded installation: what was installed and where, so the
/// artifact can be removed exactly. For `mcp` items `target_path` is the
/// fixed marker `mcp` and `id` is the registered server name.
pub struct InstalledSecurityPackItem {
    pub template_type: String,
    pub id: String,
    pub target_path: String,
    pub installed_at: String,
}

/// The mathematical value of a manifest item.
#[verifier::ext_equal]
pub struct InstalledSecurityPackItemV {
    pub template_type: Seq<char>,
    pub id: Seq<char>,
    pub target_path: Seq<char>,
    pub installed_at: Seq<char>,
}

impl View for InstalledSecurityPackItem {
    type V = InstalledSecurityPackItemV;

    open spec fn view(&self) -> InstalledSecurityPackItemV {
        InstalledSecurityPackItemV {
            template_type: self.template_type@,
            id: self.id@,
            target_path: self.target_path@,
            installed_at: self.installed_at@,
        }
    }
}

/// The manifest file: a version stamp and the ordered installation ledger.
pub struct InstalledSecurityPacksFile {
    pub version: u32,
    pub items: Vec<InstalledSecurityPackItem>,
}

/// The view of a manifest item list.
pub open spec fn items_v(items: Seq<InstalledSecurityPackItem>) -> Seq<
    InstalledSecurityPackItemV,
> {
    Seq::new(items.len(), |i: int| items[i]@)
}

/// A copy of a manifest item, denoting the same record.
pub fn clone_item(item: &InstalledSecurityPackItem) -> (r: InstalledSecurityPackItem)
    ensures
        r@ == item@,
{
    InstalledSecurityPackItem {
        template_type: item.template_type.clone(),
        id: item.id.clone(),
        target_path: item.target_path.clone(),
        installed_at: item.installed_at.clone(),
    }
}

/// An installable agent template, as the catalog describes it.
pub struct AgentTemplate {
    pub id: String,
    pub title: String,
    pub description: String,
    pub source_path: String,
}

/// An installable skill template, as the catalog describes it.
pub struct SkillTemplate {
    pub id: String,
    pub title: String,
    pub description: String,
    pub source_path: String,
}

/// An installable command template, as the catalog describes it.
pub struct CommandTemplate {
    pub id: String,
    pub title: String,
    pub description: String,
    pub source_path: String,
}

/// An installable server registration, as the catalog describes it.
pub struct McpTemplate {
    pub id: String,
    pub title: String,
    pub description: String,
    pub server_name: String,
    pub server_config: Json,
}

/// The template catalog, as shipped with the application.
pub struct SecurityTemplatesFile {
    pub agents: Vec<AgentTemplate>,
    pub skills: Vec<SkillTemplate>,
    pub commands: Vec<CommandTemplate>,
    pub mcp: Vec<McpTemplate>,
    pub plugins: Vec<Json>,
    pub hooks: Vec<Json>,
}

/// A parent-directory traversal in the encoded path: a `..` segment,
/// delimited by the string's ends or by `/` or `\` separators. The check
/// runs over the UTF-8 bytes; multi-byte characters never contain these
/// ASCII bytes, so byte windows and character windows agree.
pub open spec fn spec_sep_byte(b: u8) -> bool {
    b == 47 || b == 92
}

/// Whether the encoded path contains a `..` segment.
pub open spec fn spec_has_dotdot(bytes: Seq<u8>) -> bool {
    exists|a: int|
        0 <= a && a + 2 <= bytes.len() && #[trigger] bytes[a] == 46 && bytes[a + 1] == 46 && (a
            == 0 || spec_sep_byte(bytes[a - 1])) && (a + 2 == bytes.len() || spec_sep_byte(
            bytes[a + 2],
        ))
}

/// Whether the path contains a parent-directory traversal segment.
pub open spec fn spec_path_escapes(path: Seq<char>) -> bool {
    spec_has_dotdot(vstd::utf8::encode_utf8(path))
}

/// Whether `path` holds a `..` segment that would escape the directory it
/// is resolved under.
pub fn path_escapes(path: &String) -> (r: bool)
    ensures
        r == spec_path_escapes(path@),
{
    let s = path.as_str();
    let bytes = s.as_bytes();
    let ghost bv = s.spec_bytes();
    let n = bytes.len();
    let mut i: usize = 0;
    while i < n
        invariant
            i <= n,
            n == bytes@.len(),
            bytes@ == bv,
            bv == vstd::utf8::encode_utf8(path@),
            forall|a: int|
                0 <= a < i ==> !(a + 2 <= bv.len() && #[trigger] bv[a] == 46 && bv[a + 1] == 46
                    && (a == 0 || spec_sep_byte(bv[a - 1])) && (a + 2 == bv.len()
                    || spec_sep_byte(bv[a + 2]))),
        decreases n - i,
    {
        if n - i >= 2 && bytes[i] == 46 && bytes[i + 1] == 46 {
            let left_ok = if i == 0 {
                true
            } else {
                let prev = bytes[i - 1];
                prev == 47 || prev == 92
            };
            let right_ok = if n - i == 2 {
                true
            } else {
                let next = bytes[i + 2];
                next == 47 || next == 92
            };
            if left_ok && right_ok {
                proof {
                    assert(spec_has_dotdot(bv)) by {
                        let a = i as int;
                        assert(0 <= a && a + 2 <= bv.len() && bv[a] == 46 && bv[a + 1] == 46 && (a
                            == 0 || spec_sep_byte(bv[a - 1])) && (a + 2 == bv.len()
                            || spec_sep_byte(bv[a + 2])));
                    }
                }
                return true;
            }
        }
        i = i + 1;
    }
    proof {
        if spec_has_dotdot(bv) {
            let a = choose|a: int|
                0 <= a && a + 2 <= bv.len() && #[trigger] bv[a] == 46 && bv[a + 1] == 46 && (a
                    == 0 || spec_sep_byte(bv[a - 1])) && (a + 2 == bv.len() || spec_sep_byte(
                    bv[a + 2],
                ));
            assert(a < i);
        }
    }
    false
}

/// Whether any file of the payload escapes the skill directory.
pub open spec fn spec_any_path_escapes(files: Seq<SkillFilePayload>) -> bool {
    exists|k: int| 0 <= k < files.len() && spec_path_escapes(files[k].relative_path@)
}

/// Index of the first file whose path escapes, or `None` when none does.
pub fn find_escaping_path(files: &Vec<SkillFilePayload>) -> (r: Option<usize>)
    ensures
        match r {
            Some(i) => i < files@.len() && spec_path_escapes(files@[i as int].relative_path@),
            None => !spec_any_path_escapes(files@),
        },
{
    let mut i: usize = 0;
    while i < files.len()
        invariant
            i <= files@.len(),
            forall|k: int| 0 <= k < i ==> !spec_path_escapes(files@[k].relative_path@),
        decreases files@.len() - i,
    {
        if path_escapes(&files[i].relative_path) {
            return Some(i);
        }
        i = i + 1;
    }
    None
}

/// One filesystem or registry effect the embedding application must
/// perform to realize an installation.
pub enum InstallEffect {
    /// Write one markdown file at `path`.
    WriteFile { path: String, content: String },
    /// Create the directory `dir` and write each file beneath it at its
    /// relative path.
    WriteSkillDir { dir: String, files: Vec<SkillFilePayload> },
    /// Overwrite the user registration file with `content`.
    WriteMcpFile { content: Json },
}

/// The mathematical value of an install effect.
#[verifier::ext_equal]
pub enum InstallEffectV {
    WriteFile { path: Seq<char>, content: Seq<char> },
    WriteSkillDir { dir: Seq<char>, files: Seq<SkillFilePayloadV> },
    WriteMcpFile { content: JsonV },
}

/// The view of a skill file list.
pub open spec fn sfiles_v(files: Seq<SkillFilePayload>) -> Seq<SkillFilePayloadV> {
    Seq::new(files.len(), |i: int| files[i]@)
}

impl View for InstallEffect {
    type V = InstallEffectV;

    open spec fn view(&self) -> InstallEffectV {
        match self {
            InstallEffect::WriteFile { path, content } => InstallEffectV::WriteFile {
                path: path@,
                content: content@,
            },
            InstallEffect::WriteSkillDir { dir, files } => InstallEffectV::WriteSkillDir {
                dir: dir@,
                files: sfiles_v(files@),
            },
            InstallEffect::WriteMcpFile { content } => InstallEffectV::WriteMcpFile {
                content: content@,
            },
        }
    }
}

/// The single markdown file an agent or command template installs: its
/// target path under the fixed subdirectory, refused when the target is
/// already there.
pub fn install_file_template(
    home: &String,
    id: &String,
    content: String,
    subdirectory: &String,
    target_exists: bool,
) -> (r: Result<(String, String), EngineError>)
    ensures
        r is Err <==> target_exists,
        r is Err ==> r->Err_0 == EngineError::AlreadyExists,
        r is Ok ==> r->Ok_0.0@ == home@ + "/.agent/"@ + subdirectory@ + "/"@ + id@ + ".md"@
            && r->Ok_0.1 == content,
{
    if target_exists {
        return Err(EngineError::AlreadyExists);
    }
    let target = home.clone().concat("/.agent/").concat(subdirectory.as_str()).concat(
        "/",
    ).concat(id.as_str()).concat(".md");
    Ok((target, content))
}

/// The planned outcome of an installation at a known instant: the new
/// manifest item list and the effect to perform. The dispatch mirrors the
/// request: `agent` and `command` write one file and refuse an existing
/// target; `skill` writes a fresh directory, refusing an existing one and
/// any file path with a parent-directory traversal segment, before any
/// write; `mcp` registers the server in the user registration file; any
/// other type is refused.
pub open spec fn spec_install(
    payload: SecurityPackInstallPayload,
    items: Seq<InstalledSecurityPackItemV>,
    home: Seq<char>,
    target_exists: bool,
    mcp_file: Option<JsonV>,
    now: Seq<char>,
) -> Result<(Seq<InstalledSecurityPackItemV>, InstallEffectV), EngineError> {
    let tt = payload.template_type@;
    if tt == "agent"@ || tt == "command"@ {
        match payload.content {
            None => Err(EngineError::MalformedInput),
            Some(content) => if target_exists {
                Err(EngineError::AlreadyExists)
            } else {
                let subdir = if tt == "agent"@ {
                    "agents"@
                } else {
                    "commands"@
                };
                let target = home + "/.agent/"@ + subdir + "/"@ + payload.id@ + ".md"@;
                Ok(
                    (
                        items.push(
                            InstalledSecurityPackItemV {
                                template_type: tt,
                                id: payload.id@,
                                target_path: target,
                                installed_at: now,
                            },
                        ),
                        InstallEffectV::WriteFile { path: target, content: content@ },
                    ),
                )
            },
        }
    } else if tt == "skill"@ {
        match payload.skill_files {
            None => Err(EngineError::MalformedInput),
            Some(files) => if target_exists {
                Err(EngineError::AlreadyExists)
            } else if spec_any_path_escapes(files@) {
                Err(EngineError::MalformedInput)
            } else {
                let dir = home + "/.agent/skills/"@ + payload.id@;
                Ok(
                    (
                        items.push(
                            InstalledSecurityPackItemV {
                                template_type: tt,
                                id: payload.id@,
                                target_path: dir,
                                installed_at: now,
                            },
                        ),
                        InstallEffectV::WriteSkillDir { dir, files: sfiles_v(files@) },
                    ),
                )
            },
        }
    } else if tt == "mcp"@ {
        match (payload.server_name, payload.server_config) {
            (Some(name), Some(config)) => match spec_update_global(mcp_file, name@, config@) {
                Err(e) => Err(e),
                Ok(new_file) => Ok(
                    (
                        items.push(
                            InstalledSecurityPackItemV {
                                template_type: tt,
                                id: name@,
                                target_path: "mcp"@,
                                installed_at: now,
                            },
                        ),
                        InstallEffectV::WriteMcpFile { content: new_file },
                    ),
                ),
            },
            _ => Err(EngineError::MalformedInput),
        }
    } else {
        Err(EngineError::MalformedInput)
    }
}

/// The view of a planned installation.
pub open spec fn install_res_view(
    r: Result<(InstalledSecurityPacksFile, InstallEffect), EngineError>,
) -> Result<(Seq<InstalledSecurityPackItemV>, InstallEffectV), EngineError> {
    match r {
        Ok((manifest, effect)) => Ok((items_v(manifest.items@), effect@)),
        Err(e) => Err(e),
    }
}

/// An installation planned at a known instant: exactly what
/// [`spec_install`] names.
pub fn install_security_template_at(
    payload: SecurityPackInstallPayload,
    manifest: InstalledSecurityPacksFile,
    home: &String,
    target_exists: bool,
    mcp_file: &Option<Json>,
    now: String,
) -> (r: Result<(InstalledSecurityPacksFile, InstallEffect), EngineError>)
    ensures
        install_res_view(r) == spec_install(
            payload,
            items_v(manifest.items@),
            home@,
            target_exists,
            crate::json::opt_json_view(*mcp_file),
            now@,
        ),
        r is Ok ==> r->Ok_0.0.version == manifest.version,
{
    let ghost iv = items_v(manifest.items@);
    let tt = payload.template_type;
    let is_agent = tt == String::from_str("agent");
    let is_command = tt == String::from_str("command");
    let is_skill = tt == String::from_str("skill");
    let is_mcp = tt == String::from_str("mcp");
    if is_agent || is_command {
        let content = match payload.content {
            None => {
                return Err(EngineError::MalformedInput);
            },
            Some(c) => c,
        };
        let subdir = if is_agent {
            String::from_str("agents")
        } else {
            String::from_str("commands")
        };
        let (target, content) = match install_file_template(
            home,
            &payload.id,
            content,
            &subdir,
            target_exists,
        ) {
            Err(e) => {
                return Err(e);
            },
            Ok(t) => t,
        };
        let item = InstalledSecurityPackItem {
            template_type: tt,
            id: payload.id,
            target_path: target.clone(),
            installed_at: now,
        };
        let ghost itemv = item@;
        let mut items = manifest.items;
        items.push(item);
        proof {
            assert(items_v(items@) =~= iv.push(itemv));
        }
        Ok((
            InstalledSecurityPacksFile { version: manifest.version, items },
            InstallEffect::WriteFile { path: target, content },
        ))
    } else if is_skill {
        let files = match payload.skill_files {
            None => {
                return Err(EngineError::MalformedInput);
            },
            Some(f) => f,
        };
        if target_exists {
            return Err(EngineError::AlreadyExists);
        }
        if find_escaping_path(&files).is_some() {
            proof {
                assert(spec_any_path_escapes(files@));
            }
            return Err(EngineError::MalformedInput);
        }
        let dir = home.clone().concat("/.agent/skills/").concat(payload.id.as_str());
        let item = InstalledSecurityPackItem {
            template_type: tt,
            id: payload.id,
            target_path: dir.clone(),
            installed_at: now,
        };
        let ghost itemv = item@;
        let mut items = manifest.items;
        items.push(item);
        proof {
            assert(items_v(items@) =~= iv.push(itemv));
        }
        Ok((
            InstalledSecurityPacksFile { version: manifest.version, items },
            InstallEffect::WriteSkillDir { dir, files },
        ))
    } else if is_mcp {
        let name = match payload.server_name {
            None => {
                return Err(EngineError::MalformedInput);
            },
            Some(n) => n,
        };
        let config = match payload.server_config {
            None => {
                return Err(EngineError::MalformedInput);
            },
            Some(c) => c,
        };
        let new_file = match update_global_mcp_server(mcp_file, &name, config) {
            Err(e) => {
                return Err(e);
            },
            Ok(f) => f,
        };
        let item = InstalledSecurityPackItem {
            template_type: tt,
            id: name,
            target_path: String::from_str("mcp"),
            installed_at: now,
        };
        let ghost itemv = item@;
        let mut items = manifest.items;
        items.push(item);
        proof {
            assert(items_v(items@) =~= iv.push(itemv));
        }
        Ok((
            InstalledSecurityPacksFile { version: manifest.version, items },
            InstallEffect::WriteMcpFile { content: new_file },
        ))
    } else {
        Err(EngineError::MalformedInput)
    }
}

/// An installation as the caller sees it: the instant is read from the
/// clock, so the contract pins everything except the recorded timestamp;
/// [`install_security_template_at`] pins the rest.
pub fn install_security_template(
    payload: SecurityPackInstallPayload,
    manifest: InstalledSecurityPacksFile,
    home: &String,
    target_exists: bool,
    mcp_file: &Option<Json>,
) -> (r: Result<(InstalledSecurityPacksFile, InstallEffect), EngineError>)
    ensures
        exists|now: Seq<char>|
            install_res_view(r) == #[trigger] spec_install(
                payload,
                items_v(manifest.items@),
                home@,
                target_exists,
                crate::json::opt_json_view(*mcp_file),
                now,
            ),
        r is Ok ==> r->Ok_0.0.version == manifest.version,
{
    let now = now_rfc3339();
    let r = install_security_template_at(payload, manifest, home, target_exists, mcp_file, now);
    proof {
        assert(install_res_view(r) == spec_install(
            payload,
            items_v(manifest.items@),
            home@,
            target_exists,
            crate::json::opt_json_view(*mcp_file),
            now@,
        ));
    }
    r
}

/// One effect the embedding application must perform to reverse an
/// installation.
pub enum UninstallEffect {
    /// Remove the single file at `path`, when it is present.
    RemoveFile { path: String },
    /// Remove the directory at `path` recursively, when it is present.
    RemoveDir { path: String },
    /// Overwrite the user registration file with `content`.
    WriteMcpFile { content: Json },
    /// Overwrite the live settings file with `content`.
    WriteSettings { content: Json },
}

/// The mathematical value of an uninstall effect.
#[verifier::ext_equal]
pub enum UninstallEffectV {
    RemoveFile { path: Seq<char> },
    RemoveDir { path: Seq<char> },
    WriteMcpFile { content: JsonV },
    WriteSettings { content: JsonV },
}

impl View for UninstallEffect {
    type V = UninstallEffectV;

    open spec fn view(&self) -> UninstallEffectV {
        match self {
            UninstallEffect::RemoveFile { path } => UninstallEffectV::RemoveFile { path: path@ },
            UninstallEffect::RemoveDir { path } => UninstallEffectV::RemoveDir { path: path@ },
            UninstallEffect::WriteMcpFile { content } => UninstallEffectV::WriteMcpFile {
                content: content@,
            },
            UninstallEffect::WriteSettings { content } => UninstallEffectV::WriteSettings {
                content: content@,
            },
        }
    }
}

/// The view of an effect list.
pub open spec fn effects_v(effects: Seq<UninstallEffect>) -> Seq<UninstallEffectV> {
    Seq::new(effects.len(), |i: int| effects[i]@)
}

/// The planned reversal over a suffix of the manifest: items matching the
/// requested type and id leave the manifest and contribute their removal
/// effects in order; all other items stay. Agents and commands remove
/// their file, skills their directory; an `mcp` item leaves the
/// registration file and the settings overlays, threading the rewritten
/// file contents through any later matching item. Errors on the way
/// propagate, and a matching item of an unknown type is dropped with no
/// effect.
pub open spec fn spec_uninstall(
    items: Seq<InstalledSecurityPackItemV>,
    template_type: Seq<char>,
    id: Seq<char>,
    mcp_file: Option<JsonV>,
    settings: Option<JsonV>,
) -> Result<(Seq<InstalledSecurityPackItemV>, Seq<UninstallEffectV>), EngineError>
    decreases items.len(),
{
    if items.len() == 0 {
        Ok((Seq::empty(), Seq::empty()))
    } else {
        let it = items[0];
        let rest = items.drop_first();
        if it.template_type == template_type && it.id == id {
            if template_type == "agent"@ || template_type == "command"@ {
                match spec_uninstall(rest, template_type, id, mcp_file, settings) {
                    Err(e) => Err(e),
                    Ok((kept, effects)) => Ok(
                        (
                            kept,
                            seq![UninstallEffectV::RemoveFile { path: it.target_path }] + effects,
                        ),
                    ),
                }
            } else if template_type == "skill"@ {
                match spec_uninstall(rest, template_type, id, mcp_file, settings) {
                    Err(e) => Err(e),
                    Ok((kept, effects)) => Ok(
                        (
                            kept,
                            seq![UninstallEffectV::RemoveDir { path: it.target_path }] + effects,
                        ),
                    ),
                }
            } else if template_type == "mcp"@ {
                match crate::registry::spec_delete_global(mcp_file, it.id) {
                    Err(e) => Err(e),
                    Ok(new_mcp) => match crate::toggle::spec_remove_mcp_from_settings(
                        settings,
                        it.id,
                    ) {
                        Err(e) => Err(e),
                        Ok(new_settings) => {
                            let own_effects = seq![
                                UninstallEffectV::WriteMcpFile { content: new_mcp },
                            ] + (match new_settings {
                                Some(w) => seq![UninstallEffectV::WriteSettings { content: w }],
                                None => Seq::empty(),
                            });
                            let threaded_settings = match new_settings {
                                Some(w) => Some(w),
                                None => settings,
                            };
                            match spec_uninstall(
                                rest,
                                template_type,
                                id,
                                Some(new_mcp),
                                threaded_settings,
                            ) {
                                Err(e) => Err(e),
                                Ok((kept, effects)) => Ok((kept, own_effects + effects)),
                            }
                        },
                    },
                }
            } else {
                spec_uninstall(rest, template_type, id, mcp_file, settings)
            }
        } else {
            match spec_uninstall(rest, template_type, id, mcp_file, settings) {
                Err(e) => Err(e),
                Ok((kept, effects)) => Ok((seq![it] + kept, effects)),
            }
        }
    }
}

/// The view of a planned reversal.
pub open spec fn uninstall_res_view(
    r: Result<(Vec<InstalledSecurityPackItem>, Vec<UninstallEffect>), EngineError>,
) -> Result<(Seq<InstalledSecurityPackItemV>, Seq<UninstallEffectV>), EngineError> {
    match r {
        Ok((kept, effects)) => Ok((items_v(kept@), effects_v(effects@))),
        Err(e) => Err(e),
    }
}

/// The reversal over the manifest suffix starting at `idx`.
fn uninstall_from(
    items: &Vec<InstalledSecurityPackItem>,
    idx: usize,
    template_type: &String,
    id: &String,
    mcp_file: Option<Json>,
    settings: Option<Json>,
) -> (r: Result<(Vec<InstalledSecurityPackItem>, Vec<UninstallEffect>), EngineError>)
    requires
        idx <= items@.len(),
    ensures
        uninstall_res_view(r) == spec_uninstall(
            items_v(items@).skip(idx as int),
            template_type@,
            id@,
            crate::json::opt_json_view(mcp_file),
            crate::json::opt_json_view(settings),
        ),
    decreases items@.len() - idx,
{
    let ghost suffix = items_v(items@).skip(idx as int);
    let ghost mv0 = crate::json::opt_json_view(mcp_file);
    let ghost sv0 = crate::json::opt_json_view(settings);
    let ghost goal = spec_uninstall(suffix, template_type@, id@, mv0, sv0);
    if idx == items.len() {
        let kept: Vec<InstalledSecurityPackItem> = Vec::new();
        let effects: Vec<UninstallEffect> = Vec::new();
        proof {
            assert(suffix.len() == 0);
            assert(items_v(kept@) =~= Seq::<InstalledSecurityPackItemV>::empty());
            assert(effects_v(effects@) =~= Seq::<UninstallEffectV>::empty());
        }
        return Ok((kept, effects));
    }
    let it = &items[idx];
    proof {
        assert(suffix[0] == items_v(items@)[idx as int]);
        assert(suffix.drop_first() =~= items_v(items@).skip(idx + 1));
    }
    let matches_item = it.template_type == *template_type && it.id == *id;
    if matches_item {
        let is_file = *template_type == String::from_str("agent") || *template_type
            == String::from_str("command");
        let is_skill = *template_type == String::from_str("skill");
        let is_mcp = *template_type == String::from_str("mcp");
        if is_file || is_skill {
            let own = if is_file {
                UninstallEffect::RemoveFile { path: it.target_path.clone() }
            } else {
                UninstallEffect::RemoveDir { path: it.target_path.clone() }
            };
            let ghost ownv = own@;
            match uninstall_from(items, idx + 1, template_type, id, mcp_file, settings) {
                Err(e) => Err(e),
                Ok((kept, effects)) => {
                    let ghost effv = effects_v(effects@);
                    let mut with_own: Vec<UninstallEffect> = Vec::new();
                    with_own.push(own);
                    let mut effects = effects;
                    with_own.append(&mut effects);
                    proof {
                        assert(effects_v(with_own@) =~= seq![ownv] + effv);
                        assert(goal == Ok::<_, EngineError>((items_v(kept@), effects_v(with_own@))));
                    }
                    Ok((kept, with_own))
                },
            }
        } else if is_mcp {
            let new_mcp = match crate::registry::delete_global_mcp_server(&mcp_file, &it.id) {
                Err(e) => {
                    return Err(e);
                },
                Ok(f) => f,
            };
            let ghost nmv = new_mcp@;
            let new_settings = match crate::toggle::remove_mcp_from_settings(&settings, &it.id) {
                Err(e) => {
                    return Err(e);
                },
                Ok(w) => w,
            };
            let ghost nsv = crate::json::opt_json_view(new_settings);
            let mut own: Vec<UninstallEffect> = Vec::new();
            own.push(UninstallEffect::WriteMcpFile { content: json_clone(&new_mcp) });
            let threaded_settings: Option<Json> = match new_settings {
                Some(w) => {
                    own.push(UninstallEffect::WriteSettings { content: json_clone(&w) });
                    Some(w)
                },
                None => settings,
            };
            let ghost ownv = effects_v(own@);
            proof {
                assert(ownv =~= seq![UninstallEffectV::WriteMcpFile { content: nmv }] + (
                match nsv {
                    Some(w) => seq![UninstallEffectV::WriteSettings { content: w }],
                    None => Seq::<UninstallEffectV>::empty(),
                }));
                assert(crate::json::opt_json_view(threaded_settings) == (match nsv {
                    Some(w) => Some(w),
                    None => sv0,
                }));
            }
            match uninstall_from(
                items,
                idx + 1,
                template_type,
                id,
                Some(new_mcp),
                threaded_settings,
            ) {
                Err(e) => Err(e),
                Ok((kept, effects)) => {
                    let ghost effv = effects_v(effects@);
                    let mut with_own = own;
                    let mut effects = effects;
                    with_own.append(&mut effects);
                    proof {
                        assert(effects_v(with_own@) =~= ownv + effv);
                        assert(goal == Ok::<_, EngineError>((items_v(kept@), effects_v(with_own@))));
                    }
                    Ok((kept, with_own))
                },
            }
        } else {
            uninstall_from(items, idx + 1, template_type, id, mcp_file, settings)
        }
    } else {
        match uninstall_from(items, idx + 1, template_type, id, mcp_file, settings) {
            Err(e) => Err(e),
            Ok((kept, effects)) => {
                let ghost keptv = items_v(kept@);
                let mut with_it: Vec<InstalledSecurityPackItem> = Vec::new();
                with_it.push(clone_item(it));
                let mut kept = kept;
                with_it.append(&mut kept);
                proof {
                    assert(items_v(with_it@) =~= seq![suffix[0]] + keptv);
                    assert(goal == Ok::<_, EngineError>((items_v(with_it@), effects_v(effects@))));
                }
                Ok((with_it, effects))
            },
        }
    }
}

/// The manifest and effects of removing every installation of the given
/// type and id: exactly what [`spec_uninstall`] names over the whole
/// ledger, the version stamp kept.
pub fn uninstall_security_template(
    manifest: InstalledSecurityPacksFile,
    template_type: &String,
    id: &String,
    mcp_file: Option<Json>,
    settings: Option<Json>,
) -> (r: Result<(InstalledSecurityPacksFile, Vec<UninstallEffect>), EngineError>)
    ensures
        install_res_view_uninstall(r) == spec_uninstall(
            items_v(manifest.items@),
            template_type@,
            id@,
            crate::json::opt_json_view(mcp_file),
            crate::json::opt_json_view(settings),
        ),
        r is Ok ==> r->Ok_0.0.version == manifest.version,
{
    proof {
        assert(items_v(manifest.items@).skip(0) =~= items_v(manifest.items@));
    }
    match uninstall_from(&manifest.items, 0, template_type, id, mcp_file, settings) {
        Err(e) => Err(e),
        Ok((kept, effects)) => Ok((
            InstalledSecurityPacksFile { version: manifest.version, items: kept },
            effects,
        )),
    }
}

/// The view of a reversal's outcome.
pub open spec fn install_res_view_uninstall(
    r: Result<(InstalledSecurityPacksFile, Vec<UninstallEffect>), EngineError>,
) -> Result<(Seq<InstalledSecurityPackItemV>, Seq<UninstallEffectV>), EngineError> {
    match r {
        Ok((manifest, effects)) => Ok((items_v(manifest.items@), effects_v(effects@))),
        Err(e) => Err(e),
    }
}

} // verus!
