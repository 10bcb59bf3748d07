//! Listings around the engine: memory files, commands, agents, skills and
//! usage records.
//!
//! The embedding application walks the directories and reads the files;
//! the decisions — how a file name classifies, which of an active/disabled
//! pair is the one to read, what a usage line contributes — are made here,
//! on plain values.

use vstd::prelude::*;
use vstd::string::StringExecFns;
use vstd::string::StringSliceAdditionalSpecFns;
use crate::json::Json;
use crate::json::JsonV;
use crate::json::obj_get;
use crate::json::spec_get;

verus! {

/// A whole memory file, as shown to the shell.
pub struct MemoryFile {
    pub path: String,
    pub content: String,
    pub exists: bool,
}

/// One memory entry of the listing: the user-global one or a project's.
pub struct MemoryEntry {
    pub name: String,
    pub path: String,
    pub content: String,
    pub exists: bool,
    pub source: String,
    pub project_path: Option<String>,
    pub disabled: bool,
}

/// One command file of the user's command directory.
pub struct CommandFile {
    pub name: String,
    pub content: String,
    pub exists: bool,
    pub disabled: bool,
}

/// One skill of the listing, from the user, a plugin or a project.
pub struct SkillFile {
    pub name: String,
    pub content: String,
    pub exists: bool,
    pub source: String,
    pub plugin_name: Option<String>,
    pub project_path: Option<String>,
    pub disabled: bool,
}

/// One agent file of the user's agent directory.
pub struct AgentFile {
    pub name: String,
    pub content: String,
    pub exists: bool,
    pub disabled: bool,
}

/// One agent file contributed by a plugin.
pub struct PluginAgentFile {
    pub name: String,
    pub content: String,
    pub exists: bool,
    pub plugin_name: String,
    pub plugin_scope: String,
    pub source_path: String,
}

/// What a release check reports to the shell.
pub struct UpdateInfo {
    pub available: bool,
    pub version: Option<String>,
    pub body: Option<String>,
    pub date: Option<String>,
}

/// The token counts of one usage record.
pub struct UsageData {
    pub input_tokens: Option<u64>,
    pub cache_read_input_tokens: Option<u64>,
    pub output_tokens: Option<u64>,
}

/// One usage record of a project's log.
pub struct ProjectUsageRecord {
    pub uuid: String,
    pub timestamp: String,
    pub model: Option<String>,
    pub usage: Option<UsageData>,
}

/// Whether the encoded name ends in the given ASCII suffix.
pub open spec fn spec_ends_with(bytes: Seq<u8>, suffix: Seq<u8>) -> bool {
    bytes.len() >= suffix.len() && bytes.skip(bytes.len() - suffix.len()) == suffix
}

/// How a directory entry classifies: a disabled file when its name ends in
/// `.md.disabled`, an active file when it ends in `.md`, and no entry at
/// all otherwise. The returned stem is the name with the matched suffix
/// cut off; names and suffixes are compared over their UTF-8 bytes, where
/// the ASCII suffixes coincide with their character forms.
pub open spec fn spec_classify(name: Seq<u8>) -> Option<(Seq<u8>, bool)> {
    if spec_ends_with(name, vstd::utf8::encode_utf8(".md.disabled"@)) {
        Some((name.take(name.len() - 12), true))
    } else if spec_ends_with(name, vstd::utf8::encode_utf8(".md"@)) {
        Some((name.take(name.len() - 3), false))
    } else {
        None
    }
}

fn ends_with_md(bytes: &[u8]) -> (r: bool)
    ensures
        r == spec_ends_with(bytes@, vstd::utf8::encode_utf8(".md"@)),
        r ==> bytes@.len() >= 3,
{
    let ghost suffix = vstd::utf8::encode_utf8(".md"@);
    proof {
        reveal_strlit(".md");
        assert(vstd::utf8::is_ascii_chars(".md"@));
        vstd::utf8::is_ascii_chars_encode_utf8(".md"@);
        assert(suffix.len() == 3);
        assert(suffix[0] == 46 && suffix[1] == 109 && suffix[2] == 100);
    }
    let n = bytes.len();
    let r = n >= 3 && bytes[n - 3] == 46 && bytes[n - 2] == 109 && bytes[n - 1] == 100;
    proof {
        if r {
            assert(bytes@.skip(n - 3) =~= suffix);
        } else if n >= 3 && bytes@.skip(n - 3) == suffix {
            assert(bytes@[n - 3] == bytes@.skip(n - 3)[0]);
            assert(bytes@[n - 2] == bytes@.skip(n - 3)[1]);
            assert(bytes@[n - 1] == bytes@.skip(n - 3)[2]);
        }
    }
    r
}

fn ends_with_md_disabled(bytes: &[u8]) -> (r: bool)
    ensures
        r == spec_ends_with(bytes@, vstd::utf8::encode_utf8(".md.disabled"@)),
        r ==> bytes@.len() >= 12,
{
    let ghost suffix = vstd::utf8::encode_utf8(".md.disabled"@);
    proof {
        reveal_strlit(".md.disabled");
        assert(vstd::utf8::is_ascii_chars(".md.disabled"@));
        vstd::utf8::is_ascii_chars_encode_utf8(".md.disabled"@);
        assert(suffix.len() == 12);
        assert(suffix[0] == 46 && suffix[1] == 109 && suffix[2] == 100 && suffix[3] == 46
            && suffix[4] == 100 && suffix[5] == 105 && suffix[6] == 115 && suffix[7] == 97
            && suffix[8] == 98 && suffix[9] == 108 && suffix[10] == 101 && suffix[11] == 100);
    }
    let n = bytes.len();
    if n < 12 {
        return false;
    }
    let r = bytes[n - 12] == 46 && bytes[n - 11] == 109 && bytes[n - 10] == 100 && bytes[n - 9]
        == 46 && bytes[n - 8] == 100 && bytes[n - 7] == 105 && bytes[n - 6] == 115 && bytes[n - 5]
        == 97 && bytes[n - 4] == 98 && bytes[n - 3] == 108 && bytes[n - 2] == 101 && bytes[n - 1]
        == 100;
    proof {
        if r {
            assert(bytes@.skip(n - 12) =~= suffix);
        } else if bytes@.skip(n - 12) == suffix {
            assert forall|k: int| 0 <= k < 12 implies bytes@[n - 12 + k] == suffix[k] by {
                assert(bytes@.skip(n - 12)[k] == bytes@[n - 12 + k]);
            }
            assert(bytes@[n - 12] == 46);
            assert(bytes@[n - 11] == 109);
            assert(bytes@[n - 10] == 100);
            assert(bytes@[n - 9] == 46);
            assert(bytes@[n - 8] == 100);
            assert(bytes@[n - 7] == 105);
            assert(bytes@[n - 6] == 115);
            assert(bytes@[n - 5] == 97);
            assert(bytes@[n - 4] == 98);
            assert(bytes@[n - 3] == 108);
            assert(bytes@[n - 2] == 101);
            assert(bytes@[n - 1] == 100);
        }
    }
    r
}

/// The classification of a directory entry's file name. The cut point is
/// re-checked as a character boundary at run time (it always is one, since
/// the matched suffix byte there is an ASCII dot) rather than proved, so a
/// failed check also classifies as no entry.
pub fn classify_md_filename(file_name: &String) -> (r: Option<(String, bool)>)
    ensures
        match r {
            Some((stem, disabled)) => spec_classify(vstd::utf8::encode_utf8(file_name@)) == Some(
                (vstd::utf8::encode_utf8(stem@), disabled),
            ),
            None => spec_classify(vstd::utf8::encode_utf8(file_name@)) is None
                || !vstd::utf8::is_char_boundary(
                vstd::utf8::encode_utf8(file_name@),
                vstd::utf8::encode_utf8(file_name@).len() - (if spec_ends_with(
                    vstd::utf8::encode_utf8(file_name@),
                    vstd::utf8::encode_utf8(".md.disabled"@),
                ) {
                    12int
                } else {
                    3int
                }),
            ),
        },
        r is Some ==> spec_classify(vstd::utf8::encode_utf8(file_name@)) is Some,
{
    let s = file_name.as_str();
    let bytes = s.as_bytes();
    if ends_with_md_disabled(bytes) {
        let at = bytes.len() - 12;
        if !s.is_char_boundary(at) {
            return None;
        }
        let (stem, _) = s.split_at(at);
        proof {
            assert(stem.spec_bytes() =~= s.spec_bytes().take(s.spec_bytes().len() - 12));
        }
        Some((stem.to_owned(), true))
    } else if ends_with_md(bytes) {
        let at = bytes.len() - 3;
        if !s.is_char_boundary(at) {
            return None;
        }
        let (stem, _) = s.split_at(at);
        proof {
            assert(stem.spec_bytes() =~= s.spec_bytes().take(s.spec_bytes().len() - 3));
        }
        Some((stem.to_owned(), false))
    } else {
        None
    }
}

/// The memory entry for a name whose file pair was probed: the active file
/// when present, else the disabled one; with neither, an empty entry under
/// the active path. `content` is what the chosen file holds, and is unused
/// when neither is present.
pub fn read_memory_entry_from_paths(
    active_path: String,
    disabled_path: String,
    name: String,
    source: String,
    project_path: Option<String>,
    active_is_file: bool,
    disabled_is_file: bool,
    content: String,
) -> (r: MemoryEntry)
    ensures
        r.name@ == name@,
        r.source@ == source@,
        r.project_path == project_path,
        active_is_file ==> r.path@ == active_path@ && r.content@ == content@ && r.exists
            && !r.disabled,
        !active_is_file && disabled_is_file ==> r.path@ == disabled_path@ && r.content@ == content@
            && r.exists && r.disabled,
        !active_is_file && !disabled_is_file ==> r.path@ == active_path@ && r.content@.len() == 0
            && !r.exists && !r.disabled,
{
    if active_is_file {
        MemoryEntry { name, path: active_path, content, exists: true, source, project_path,
            disabled: false }
    } else if disabled_is_file {
        MemoryEntry { name, path: disabled_path, content, exists: true, source, project_path,
            disabled: true }
    } else {
        MemoryEntry {
            name,
            path: active_path,
            content: String::new(),
            exists: false,
            source,
            project_path,
            disabled: false,
        }
    }
}

/// The operating system's display name, from its identifier.
pub fn get_os_name(os: &String) -> (r: String)
    ensures
        if os@ == "macos"@ {
            r@ == "macOS"@
        } else if os@ == "windows"@ {
            r@ == "Windows"@
        } else if os@ == "linux"@ {
            r@ == "Linux"@
        } else {
            r@ == "Unknown"@
        },
{
    if *os == String::from_str("macos") {
        String::from_str("macOS")
    } else if *os == String::from_str("windows") {
        String::from_str("Windows")
    } else if *os == String::from_str("linux") {
        String::from_str("Linux")
    } else {
        String::from_str("Unknown")
    }
}

/// A string field of a record, read from the top level.
pub open spec fn spec_str_field(line: JsonV, key: Seq<char>) -> Seq<char> {
    match spec_get(line, key) {
        Some(v) => if v is Str {
            v->Str_0
        } else {
            Seq::empty()
        },
        None => Seq::empty(),
    }
}

/// A string field of a record, read from the top level or from under the
/// record's `message` object.
pub open spec fn spec_nested_str_field(line: JsonV, key: Seq<char>) -> Option<Seq<char>> {
    match spec_get(line, key) {
        Some(v) => if v is Str {
            Some(v->Str_0)
        } else {
            spec_nested_str_under_message(line, key)
        },
        None => spec_nested_str_under_message(line, key),
    }
}

/// The string under `message`'s own binding of the key.
pub open spec fn spec_nested_str_under_message(line: JsonV, key: Seq<char>) -> Option<Seq<char>> {
    match spec_get(line, "message"@) {
        Some(m) => match spec_get(m, key) {
            Some(v) => if v is Str {
                Some(v->Str_0)
            } else {
                None
            },
            None => None,
        },
        None => None,
    }
}

/// The usage object of a record: the top-level one, else the one under
/// `message`.
pub open spec fn spec_usage_of(line: JsonV) -> Option<JsonV> {
    match spec_get(line, "usage"@) {
        Some(u) => Some(u),
        None => match spec_get(line, "message"@) {
            Some(m) => spec_get(m, "usage"@),
            None => None,
        },
    }
}

/// One token count of a usage object: its nonnegative integral binding.
pub open spec fn spec_token_count(u: JsonV, key: Seq<char>) -> Option<u64> {
    match spec_get(u, key) {
        Some(v) => if v is Int && v->Int_0 >= 0 {
            Some(v->Int_0 as u64)
        } else {
            None
        },
        None => None,
    }
}

fn str_field(line: &Json, key: &String) -> (r: String)
    ensures
        r@ == spec_str_field(line@, key@),
{
    match obj_get(line, key) {
        Some(Json::Str(s)) => s.clone(),
        _ => String::new(),
    }
}

fn nested_str_field(line: &Json, key: &String) -> (r: Option<String>)
    ensures
        crate::json::opt_str_view(r) == spec_nested_str_field(line@, key@),
{
    match obj_get(line, key) {
        Some(Json::Str(s)) => {
            return Some(s.clone());
        },
        _ => {},
    }
    match obj_get(line, &String::from_str("message")) {
        Some(m) => match obj_get(m, key) {
            Some(Json::Str(s)) => Some(s.clone()),
            _ => None,
        },
        None => None,
    }
}

fn token_count(u: &Json, key: &String) -> (r: Option<u64>)
    ensures
        r == spec_token_count(u@, key@),
{
    match obj_get(u, key) {
        Some(Json::Int(n)) => {
            if *n >= 0 {
                Some(*n as u64)
            } else {
                None
            }
        },
        _ => None,
    }
}

/// The usage record one log line contributes, if any: a record with a
/// non-empty `uuid` and `timestamp` and a usage object whose input and
/// output token counts are not both zero or missing. The `model` and the
/// usage object are also looked up under the record's `message` object.
pub fn usage_record_from_line(line: &Json) -> (r: Option<ProjectUsageRecord>)
    ensures
        match r {
            Some(rec) => {
                &&& rec.uuid@ == spec_str_field(line@, "uuid"@)
                &&& rec.uuid@.len() > 0
                &&& rec.timestamp@ == spec_str_field(line@, "timestamp"@)
                &&& rec.timestamp@.len() > 0
                &&& crate::json::opt_str_view(rec.model) == spec_nested_str_field(line@, "model"@)
                &&& spec_usage_of(line@) is Some
                &&& rec.usage is Some
                &&& rec.usage->0.input_tokens == spec_token_count(
                    spec_usage_of(line@)->0,
                    "input_tokens"@,
                )
                &&& rec.usage->0.cache_read_input_tokens == spec_token_count(
                    spec_usage_of(line@)->0,
                    "cache_read_input_tokens"@,
                )
                &&& rec.usage->0.output_tokens == spec_token_count(
                    spec_usage_of(line@)->0,
                    "output_tokens"@,
                )
                &&& {
                    let input = match rec.usage->0.input_tokens {
                        Some(n) => n as int,
                        None => 0,
                    };
                    let output = match rec.usage->0.output_tokens {
                        Some(n) => n as int,
                        None => 0,
                    };
                    input + output > 0
                }
            },
            None => {
                ||| spec_str_field(line@, "uuid"@).len() == 0
                ||| spec_str_field(line@, "timestamp"@).len() == 0
                ||| spec_usage_of(line@) is None
                ||| {
                    let u = spec_usage_of(line@)->0;
                    let input = match spec_token_count(u, "input_tokens"@) {
                        Some(n) => n as int,
                        None => 0,
                    };
                    let output = match spec_token_count(u, "output_tokens"@) {
                        Some(n) => n as int,
                        None => 0,
                    };
                    input + output <= 0
                }
            },
        },
{
    let uuid = str_field(line, &String::from_str("uuid"));
    let timestamp = str_field(line, &String::from_str("timestamp"));
    if uuid.as_str().is_empty() || timestamp.as_str().is_empty() {
        return None;
    }
    let usage_obj = match obj_get(line, &String::from_str("usage")) {
        Some(u) => u,
        None => {
            match obj_get(line, &String::from_str("message")) {
                Some(m) => match obj_get(m, &String::from_str("usage")) {
                    Some(u) => u,
                    None => {
                        return None;
                    },
                },
                None => {
                    return None;
                },
            }
        },
    };
    let input_tokens = token_count(usage_obj, &String::from_str("input_tokens"));
    let cache_read = token_count(usage_obj, &String::from_str("cache_read_input_tokens"));
    let output_tokens = token_count(usage_obj, &String::from_str("output_tokens"));
    let input_positive = match input_tokens {
        Some(n) => n > 0,
        None => false,
    };
    let output_positive = match output_tokens {
        Some(n) => n > 0,
        None => false,
    };
    if !input_positive && !output_positive {
        return None;
    }
    let model = nested_str_field(line, &String::from_str("model"));
    Some(
        ProjectUsageRecord {
            uuid,
            timestamp,
            model,
            usage: Some(
                UsageData {
                    input_tokens,
                    cache_read_input_tokens: cache_read,
                    output_tokens,
                },
            ),
        },
    )
}

} // verus!
