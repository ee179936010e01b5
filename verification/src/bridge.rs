//! The engine bridge: the request/response protocol spoken with the
//! external engine process over line-delimited JSON, the tool dispatcher
//! with its mode-based permission gate, and the records one exchange keeps.
//!
//! Spawning the engine, pumping its streams and watching the clock is the
//! caller's part; every protocol decision — what a received line means,
//! which tool call is allowed, what goes back on the wire — is decided
//! here.

use vstd::prelude::*;
use crate::jsonval::JsonValue;
use crate::jsonval::Json;
use crate::jsonval::spec_get;
use crate::jsonval::spec_as_i64;
use crate::jsonval::spec_as_u32;
use crate::jsonval::view_json_list;
use crate::jsonval::lemma_view_json_list_len;
use crate::jsonval::lemma_view_json_list_index;
use crate::jsonval::clone_json;
use crate::session::SessionMode;
use crate::session::ToolCall;
use crate::session::ToolCallStatus;
use crate::text::spec_trim;
use crate::text::trim_chars;
use crate::text::chars_of_str;
use crate::text::string_of_chars;
use crate::text::spec_all_digits;
use crate::text::all_digits;
use crate::text::spec_digits_value;
use crate::text::parse_u32_digits;
use crate::text::spec_contains;
use crate::text::contains_chars;
use crate::text::push_str_chars;
use crate::text::starts_with_str;
use crate::text::ends_with_str;
use crate::text::subrange_chars;
use crate::security::spec_is_prefix;

verus! {

/// One chat request as handed to the bridge: opaque provider and parameter
/// descriptors, the prompt and history, the project root, and the session's
/// permission state. Immutable for the duration of the request.
pub struct ChatRequest {
    pub provider: JsonValue,
    pub parameters: JsonValue,
    pub system_prompt: String,
    pub messages: Vec<JsonValue>,
    pub project_dir: String,
    pub mode: SessionMode,
    pub chapter_id: Option<String>,
    pub allow_write: bool,
}

/// The terminal answer of one exchange: the final text and every tool call
/// the exchange ran, in order.
pub struct ChatResponse {
    pub content: String,
    pub tool_calls: Vec<ToolCall>,
}

/// Notification that a tool call is about to run.
pub struct ToolCallStartEvent {
    pub id: String,
    pub name: String,
    pub args: JsonValue,
}

/// Notification that a tool call finished.
pub struct ToolCallEndEvent {
    pub id: String,
    pub result: Option<String>,
    pub error: Option<String>,
}

/// One tool call as the engine requested it, before execution.
pub struct PendingCall {
    pub id: String,
    pub name: String,
    pub args: JsonValue,
}

/// What one received protocol line means.
pub enum LineStep {
    /// The engine is done; the exchange ends with this content.
    Done { content: String },
    /// The engine reports an error; the exchange fails with this message.
    EngineError { message: String },
    /// The engine asks for tool calls, to run in order.
    ToolRound { calls: Vec<PendingCall> },
    /// The line violates the protocol; the exchange fails with this error.
    Violation { error: String },
}

/// The string field `key` of `v`, when present.
pub open spec fn spec_get_str(v: Json, key: Seq<char>) -> Option<Seq<char>> {
    match spec_get(v, key) {
        Some(Json::Str(s)) => Some(s),
        _ => None,
    }
}

/// The discriminant of a protocol line: its `type` field.
pub open spec fn spec_line_type(v: Json) -> Option<Seq<char>> {
    spec_get_str(v, "type"@)
}

/// A string field read leniently: a missing or non-string field falls back
/// to the given default.
pub open spec fn spec_str_or(v: Json, key: Seq<char>, default: Seq<char>) -> Seq<char> {
    match spec_get_str(v, key) {
        Some(s) => s,
        None => default,
    }
}

/// The identifier of one requested call; missing: empty.
pub open spec fn spec_call_id(c: Json) -> Seq<char> {
    spec_str_or(c, "id"@, Seq::empty())
}

/// The tool name of one requested call; missing: empty.
pub open spec fn spec_call_name(c: Json) -> Seq<char> {
    spec_str_or(c, "name"@, Seq::empty())
}

/// The argument object of one requested call; missing: null.
pub open spec fn spec_call_args(c: Json) -> Json {
    match spec_get(c, "args"@) {
        Some(j) => j,
        None => Json::Null,
    }
}

fn get_str_or<'a>(v: &JsonValue, key: &str, default: &str) -> (r: String)
    ensures
        r@ == spec_str_or(v@, key@, default@),
{
    match v.get(key) {
        Some(field) => match field.as_str() {
            Some(s) => s.clone(),
            None => default.to_owned(),
        },
        None => default.to_owned(),
    }
}

/// Reads one engine line, already parsed as a JSON value, and decides what
/// it means. `raw` is the line's original text, kept for diagnostics.
///
/// An unknown discriminant is a protocol violation whose error embeds the
/// raw line.
pub fn classify_line(parsed: &JsonValue, raw: &str) -> (r: LineStep)
    ensures
        spec_line_type(parsed@) == Some("done"@) ==> (r matches LineStep::Done { content }
            && content@ == spec_str_or(parsed@, "content"@, Seq::empty())),
        spec_line_type(parsed@) == Some("error"@) ==> (r matches LineStep::EngineError {
            message,
        } && message@ == spec_str_or(parsed@, "message"@, "Unknown error"@)),
        spec_line_type(parsed@) == Some("tool_call"@) ==> match spec_get(parsed@, "calls"@) {
            Some(Json::Arr(arr)) => (r matches LineStep::ToolRound { calls } && calls@.len()
                == arr.len() && (forall|i: int|
                0 <= i < arr.len() ==> (#[trigger] calls@[i]).id@ == spec_call_id(arr[i])
                    && calls@[i].name@ == spec_call_name(arr[i]) && calls@[i].args@
                    == spec_call_args(arr[i]))),
            _ => (r matches LineStep::Violation { error } && error@
                == "Invalid tool_call format"@),
        },
        (spec_line_type(parsed@) != Some("done"@) && spec_line_type(parsed@) != Some("error"@)
            && spec_line_type(parsed@) != Some("tool_call"@)) ==> (r matches LineStep::Violation {
            error,
        } && error@ == "Unknown response type: "@ + raw@),
{
    let type_field = get_str_or(parsed, "type", "");
    let is_done = crate::text::str_eq_str(type_field.as_str(), "done");
    let is_error = crate::text::str_eq_str(type_field.as_str(), "error");
    let is_tool_call = crate::text::str_eq_str(type_field.as_str(), "tool_call");
    proof {
        reveal_strlit("");
        reveal_strlit("done");
        reveal_strlit("error");
        reveal_strlit("tool_call");
        assert(""@.len() == 0);
        assert("done"@.len() == 4);
        assert("error"@.len() == 5);
        assert("tool_call"@.len() == 9);
    }
    if is_done {
        let content = get_str_or(parsed, "content", "");
        return LineStep::Done { content };
    }
    if is_error {
        let message = get_str_or(parsed, "message", "Unknown error");
        return LineStep::EngineError { message };
    }
    if is_tool_call {
        let calls_field = parsed.get("calls");
        match calls_field {
            Some(field) => match field.as_arr() {
                Some(arr) => {
                    let ghost model = field@->Arr_0;
                    proof {
                        lemma_view_json_list_len(arr@);
                    }
                    let mut calls: Vec<PendingCall> = Vec::new();
                    let mut i: usize = 0;
                    while i < arr.len()
                        invariant
                            i <= arr@.len(),
                            model == view_json_list(arr@),
                            model.len() == arr@.len(),
                            calls@.len() == i,
                            forall|j: int|
                                0 <= j < i ==> (#[trigger] calls@[j]).id@ == spec_call_id(model[j])
                                    && calls@[j].name@ == spec_call_name(model[j])
                                    && calls@[j].args@ == spec_call_args(model[j]),
                        decreases arr@.len() - i,
                    {
                        proof {
                            reveal_strlit("");
                            lemma_view_json_list_index(arr@, i as int);
                        }
                        let c = &arr[i];
                        let id = get_str_or(c, "id", "");
                        let name = get_str_or(c, "name", "");
                        let args = match c.get("args") {
                            Some(a) => clone_json(a),
                            None => JsonValue::Null,
                        };
                        calls.push(PendingCall { id, name, args });
                        i = i + 1;
                    }
                    proof {
                        assert(spec_get(parsed@, "calls"@) == Some(Json::Arr(model)));
                    }
                    return LineStep::ToolRound { calls };
                },
                None => {
                    return LineStep::Violation {
                        error: "Invalid tool_call format".to_owned(),
                    };
                },
            },
            None => {
                return LineStep::Violation { error: "Invalid tool_call format".to_owned() };
            },
        }
    }
    let mut error = String::new();
    error.append("Unknown response type: ");
    error.append(raw);
    LineStep::Violation { error }
}

/// The message an exchange stopped by its caller returns.
pub fn cancelled_message() -> (r: String)
    ensures
        r@ == "已停止生成"@,
{
    "已停止生成".to_owned()
}

/// The message a chat exchange returns when the engine stalls past its
/// deadline.
pub fn chat_timeout_message() -> (r: String)
    ensures
        r@ == "AI 请求超时（请重试或更换模型/Provider）"@,
{
    "AI 请求超时（请重试或更换模型/Provider）".to_owned()
}

/// The message a one-shot completion returns when the engine stalls past
/// its deadline.
pub fn complete_timeout_message() -> (r: String)
    ensures
        r@ == "补全请求超时（请重试或更换模型/Provider）"@,
{
    "补全请求超时（请重试或更换模型/Provider）".to_owned()
}

/// The error returned when the engine leaves before a terminal message:
/// its exit status, and the reason the stream ended when one was signalled.
pub fn engine_exit_error(status: &str, reason: Option<&String>) -> (r: String)
    ensures
        match reason {
            Some(why) => r@ == "ai-engine exited unexpectedly: "@ + status@ + ". "@ + why@,
            None => r@ == "ai-engine exited unexpectedly: "@ + status@,
        },
{
    let mut out = String::new();
    out.append("ai-engine exited unexpectedly: ");
    out.append(status);
    match reason {
        Some(why) => {
            out.append(". ");
            out.append(why.as_str());
        },
        None => {},
    }
    out
}

/// The provider's endpoint address, as its descriptor carries it.
pub open spec fn spec_base_url(provider: Json) -> Seq<char> {
    spec_str_or(provider, "baseURL"@, Seq::empty())
}

/// Whether the provider's endpoint cannot take a second round of tool
/// results, so the exchange must end right after the tools ran. Named after
/// the capability rather than the address that lacks it.
pub open spec fn spec_direct_return(provider: Json) -> bool {
    spec_contains(spec_base_url(provider), "/geminicli/v1"@)
}

/// Decides, from the provider descriptor, whether tool results can go back
/// to the engine or the exchange must end with the tool round.
pub fn provider_direct_return(provider: &JsonValue) -> (r: bool)
    ensures
        r == spec_direct_return(provider@),
{
    proof {
        reveal_strlit("");
        assert(""@ =~= Seq::<char>::empty());
    }
    let base_url = get_str_or(provider, "baseURL", "");
    let hay = chars_of_str(base_url.as_str());
    let needle = chars_of_str("/geminicli/v1");
    contains_chars(&hay, &needle)
}

} // verus!

verus! {

use crate::file_ops::read::ReadParams;
use crate::file_ops::write::WriteParams;
use crate::file_ops::append::AppendParams;
use crate::text::spec_zero_padded;

/// The normalization of a chapter identifier argument: the canonical
/// `chapter_NNN` form is kept as given, a bare or zero-padded number is
/// rewritten to it, anything else is refused with the exact error shown.
pub open spec fn spec_normalize_chapter_id(s: Seq<char>) -> Result<Seq<char>, Seq<char>> {
    let t = spec_trim(s);
    if t.len() == 0 {
        Err("chapterId is empty"@)
    } else if spec_is_prefix("chapter_"@, t) {
        if t.len() > "chapter_"@.len() && spec_all_digits(t.skip("chapter_"@.len() as int)) {
            Ok(t)
        } else {
            Err("Invalid chapterId (expected 'chapter_XXX')"@)
        }
    } else if spec_all_digits(t) {
        if spec_digits_value(t) <= u32::MAX {
            Ok("chapter_"@ + spec_zero_padded(spec_digits_value(t), 3))
        } else {
            Err("Invalid chapterId (expected digits)"@)
        }
    } else {
        Err("Invalid chapterId"@)
    }
}

/// Normalizes a chapter identifier: accepts `chapter_NNN` or a bare number.
pub fn normalize_chapter_id(value: &str) -> (r: Result<String, String>)
    ensures
        r matches Ok(s) ==> spec_normalize_chapter_id(value@) == Ok::<Seq<char>, Seq<char>>(s@),
        r matches Err(e) ==> spec_normalize_chapter_id(value@) == Err::<Seq<char>, Seq<char>>(
            e@,
        ),
{
    proof {
        reveal_strlit("chapter_");
    }
    let chars = chars_of_str(value);
    let t = trim_chars(&chars);
    if t.len() == 0 {
        return Err("chapterId is empty".to_owned());
    }
    if starts_with_str(&t, "chapter_") {
        let suffix = subrange_chars(&t, 8, t.len());
        assert(suffix@ =~= spec_trim(value@).skip("chapter_"@.len() as int));
        if suffix.len() > 0 && all_digits(&suffix) {
            return Ok(string_of_chars(&t));
        }
        return Err("Invalid chapterId (expected 'chapter_XXX')".to_owned());
    }
    if all_digits(&t) {
        match parse_u32_digits(&t) {
            Some(n) => {
                let formatted = crate::chapter::format_chapter_id(n);
                return Ok(formatted);
            },
            None => {
                return Err("Invalid chapterId (expected digits)".to_owned());
            },
        }
    }
    Err("Invalid chapterId".to_owned())
}

/// The tools whose effects change the project, and which the permission
/// gate can refuse.
pub open spec fn spec_is_write_tool(name: Seq<char>) -> bool {
    name == "write"@ || name == "append"@ || name == "save_summary"@
}

/// What the permission gate says before any tool runs: a write tool is
/// always refused in discussion mode, and refused in continuation mode
/// until the caller has confirmed writes.
pub open spec fn spec_gate_blocked(
    mode: SessionMode,
    allow_write: bool,
    name: Seq<char>,
) -> Option<Seq<char>> {
    if mode is Discussion && spec_is_write_tool(name) {
        Some("Tool not allowed in Discussion mode"@)
    } else if mode is Continue && !allow_write && spec_is_write_tool(name) {
        Some("Tool not allowed before user confirmation"@)
    } else {
        None
    }
}

/// What the dispatcher decided a permitted tool call must do.
pub enum ToolAction {
    /// Read a window of a text file.
    ReadFile { params: ReadParams },
    /// Replace a file's content behind a backup.
    WriteFile { params: WriteParams },
    /// Append to a file behind a backup; a chapter file's index record is
    /// refreshed afterwards.
    AppendFile { params: AppendParams },
    /// List a directory's visible entries.
    ListDir { path: Option<String> },
    /// Search project files for a substring.
    SearchFiles { query: String, path: Option<String> },
    /// Report the active chapter's index record.
    ChapterInfo { chapter_id: String },
    /// Persist a chapter summary.
    SaveSummary { chapter_id: String, summary: String },
    /// Search the knowledge base.
    KnowledgeSearch { query: String, top_k: u32 },
}

/// An optional numeric field, read as the engine sends it.
pub open spec fn spec_opt_i64(args: Json, key: Seq<char>) -> Option<i64> {
    match spec_get(args, key) {
        Some(j) => spec_as_i64(j),
        None => None,
    }
}

/// An optional numeric field, read as the engine sends it.
pub open spec fn spec_opt_u32(args: Json, key: Seq<char>) -> Option<u32> {
    match spec_get(args, key) {
        Some(j) => spec_as_u32(j),
        None => None,
    }
}

fn get_opt_i64(args: &JsonValue, key: &str) -> (r: Option<i64>)
    ensures
        r == spec_opt_i64(args@, key@),
{
    match args.get(key) {
        Some(j) => crate::jsonval::json_as_i64(j),
        None => None,
    }
}

fn get_opt_u32(args: &JsonValue, key: &str) -> (r: Option<u32>)
    ensures
        r == spec_opt_u32(args@, key@),
{
    match args.get(key) {
        Some(j) => crate::jsonval::json_as_u32(j),
        None => None,
    }
}

fn get_opt_str(args: &JsonValue, key: &str) -> (r: Option<String>)
    ensures
        match r {
            Some(s) => spec_get_str(args@, key@) == Some(s@),
            None => spec_get_str(args@, key@) is None,
        },
{
    match args.get(key) {
        Some(field) => match field.as_str() {
            Some(s) => Some(s.clone()),
            None => None,
        },
        None => None,
    }
}

/// Decides one requested tool call: refuses it when the mode forbids it,
/// validates and narrows its arguments, and names the action to perform.
/// Arguments are never trusted blindly: a missing or mistyped field is an
/// error naming the field.
pub fn dispatch_tool(
    mode: SessionMode,
    allow_write: bool,
    chapter_id: Option<&String>,
    name: &str,
    args: &JsonValue,
) -> (r: Result<ToolAction, String>)
    ensures
        spec_gate_blocked(mode, allow_write, name@) matches Some(m) ==> (r matches Err(e) && e@
            == m),
        spec_gate_blocked(mode, allow_write, name@) is None && name@ == "read"@ ==> match
            spec_get_str(args@, "path"@) {
            Some(p) => (r matches Ok(a) && a matches ToolAction::ReadFile { params }
                && params.path@ == p && params.offset == spec_opt_i64(args@, "offset"@)
                && params.limit == spec_opt_u32(args@, "limit"@)),
            None => (r matches Err(e) && e@ == "Missing path"@),
        },
        spec_gate_blocked(mode, allow_write, name@) is None && name@ == "write"@ ==> match (
            spec_get_str(args@, "path"@),
            spec_get_str(args@, "content"@),
        ) {
            (Some(p), Some(c)) => (r matches Ok(a) && a matches ToolAction::WriteFile { params }
                && params.path@ == p && params.content@ == c),
            (None, _) => (r matches Err(e) && e@ == "Missing path"@),
            (Some(_), None) => (r matches Err(e) && e@ == "Missing content"@),
        },
        spec_gate_blocked(mode, allow_write, name@) is None && name@ == "append"@ ==> match (
            spec_get_str(args@, "path"@),
            spec_get_str(args@, "content"@),
        ) {
            (Some(p), Some(c)) => (r matches Ok(a) && a matches ToolAction::AppendFile { params }
                && params.path@ == p && params.content@ == c),
            (None, _) => (r matches Err(e) && e@ == "Missing path"@),
            (Some(_), None) => (r matches Err(e) && e@ == "Missing content"@),
        },
        name@ == "list"@ ==> (r matches Ok(a) && a matches ToolAction::ListDir { path } && (match
            path {
            Some(p) => spec_get_str(args@, "path"@) == Some(p@),
            None => spec_get_str(args@, "path"@) is None,
        })),
        name@ == "search"@ ==> match spec_get_str(args@, "query"@) {
            Some(q) => (r matches Ok(a) && a matches ToolAction::SearchFiles { query, path }
                && query@ == q && (match path {
                Some(p) => spec_get_str(args@, "path"@) == Some(p@),
                None => spec_get_str(args@, "path"@) is None,
            })),
            None => (r matches Err(e) && e@ == "Missing query"@),
        },
        name@ == "get_chapter_info"@ ==> match chapter_id {
            None => (r matches Err(e) && e@ == "No chapter selected"@),
            Some(cid) => match spec_normalize_chapter_id(cid@) {
                Ok(n) => (r matches Ok(a) && a matches ToolAction::ChapterInfo { chapter_id }
                    && chapter_id@ == n),
                Err(m) => (r matches Err(e) && e@ == m),
            },
        },
        spec_gate_blocked(mode, allow_write, name@) is None && name@ == "save_summary"@ ==> {
            let raw = match spec_get_str(args@, "chapterId"@) {
                Some(s) => Some(s),
                None => spec_get_str(args@, "chapter_id"@),
            };
            match raw {
                None => (r matches Err(e) && e@ == "Missing chapterId"@),
                Some(rawid) => match spec_normalize_chapter_id(rawid) {
                    Err(m) => (r matches Err(e) && e@ == m),
                    Ok(n) => match spec_get_str(args@, "summary"@) {
                        None => (r matches Err(e) && e@ == "Missing summary"@),
                        Some(s) => (r matches Ok(a) && a matches ToolAction::SaveSummary {
                            chapter_id,
                            summary,
                        } && chapter_id@ == n && summary@ == s),
                    },
                },
            }
        },
        name@ == "rag_search"@ ==> match spec_get_str(args@, "query"@) {
            None => (r matches Err(e) && e@ == "Missing query"@),
            Some(q) => (r matches Ok(a) && a matches ToolAction::KnowledgeSearch {
                query,
                top_k,
            } && query@ == q && top_k == (match spec_opt_u32(args@, "topK"@) {
                Some(k) => k,
                None => match spec_opt_u32(args@, "top_k"@) {
                    Some(k) => k,
                    None => 5u32,
                },
            })),
        },
        (name@ != "read"@ && name@ != "write"@ && name@ != "append"@ && name@ != "list"@ && name@
            != "search"@ && name@ != "get_chapter_info"@ && name@ != "save_summary"@ && name@
            != "rag_search"@) ==> (r matches Err(e) && e@ == "Unknown tool: "@ + name@),
{
    proof {
        reveal_strlit("read");
        reveal_strlit("write");
        reveal_strlit("append");
        reveal_strlit("list");
        reveal_strlit("search");
        reveal_strlit("get_chapter_info");
        reveal_strlit("save_summary");
        reveal_strlit("rag_search");
        assert("read"@ != "list"@) by {
            assert("read"@[0] == 'r');
            assert("list"@[0] == 'l');
        }
        assert("append"@ != "search"@) by {
            assert("append"@[0] == 'a');
            assert("search"@[0] == 's');
        }
        assert("read"@.len() == 4);
        assert("write"@.len() == 5);
        assert("append"@.len() == 6);
        assert("list"@.len() == 4);
        assert("search"@.len() == 6);
        assert("get_chapter_info"@.len() == 16);
        assert("save_summary"@.len() == 12);
        assert("rag_search"@.len() == 10);
    }
    let is_write = crate::text::str_eq_str(name, "write");
    let is_append = crate::text::str_eq_str(name, "append");
    let is_save_summary = crate::text::str_eq_str(name, "save_summary");
    let write_tool = is_write || is_append || is_save_summary;
    if write_tool {
        match mode {
            SessionMode::Discussion => {
                return Err("Tool not allowed in Discussion mode".to_owned());
            },
            SessionMode::Continue => {
                if !allow_write {
                    return Err("Tool not allowed before user confirmation".to_owned());
                }
            },
        }
    }
    if crate::text::str_eq_str(name, "read") {
        let path = match get_opt_str(args, "path") {
            Some(p) => p,
            None => {
                return Err("Missing path".to_owned());
            },
        };
        let offset = get_opt_i64(args, "offset");
        let limit = get_opt_u32(args, "limit");
        return Ok(ToolAction::ReadFile { params: ReadParams { path, offset, limit } });
    }
    if is_write {
        let path = match get_opt_str(args, "path") {
            Some(p) => p,
            None => {
                return Err("Missing path".to_owned());
            },
        };
        let content = match get_opt_str(args, "content") {
            Some(c) => c,
            None => {
                return Err("Missing content".to_owned());
            },
        };
        return Ok(ToolAction::WriteFile { params: WriteParams { path, content } });
    }
    if is_append {
        let path = match get_opt_str(args, "path") {
            Some(p) => p,
            None => {
                return Err("Missing path".to_owned());
            },
        };
        let content = match get_opt_str(args, "content") {
            Some(c) => c,
            None => {
                return Err("Missing content".to_owned());
            },
        };
        return Ok(ToolAction::AppendFile { params: AppendParams { path, content } });
    }
    if crate::text::str_eq_str(name, "list") {
        let path = get_opt_str(args, "path");
        return Ok(ToolAction::ListDir { path });
    }
    if crate::text::str_eq_str(name, "search") {
        let query = match get_opt_str(args, "query") {
            Some(q) => q,
            None => {
                return Err("Missing query".to_owned());
            },
        };
        let path = get_opt_str(args, "path");
        return Ok(ToolAction::SearchFiles { query, path });
    }
    if crate::text::str_eq_str(name, "get_chapter_info") {
        let cid = match chapter_id {
            Some(c) => c,
            None => {
                return Err("No chapter selected".to_owned());
            },
        };
        let normalized = match normalize_chapter_id(cid.as_str()) {
            Ok(n) => n,
            Err(e) => {
                return Err(e);
            },
        };
        return Ok(ToolAction::ChapterInfo { chapter_id: normalized });
    }
    if is_save_summary {
        let raw = match get_opt_str(args, "chapterId") {
            Some(s) => Some(s),
            None => get_opt_str(args, "chapter_id"),
        };
        let rawid = match raw {
            Some(s) => s,
            None => {
                return Err("Missing chapterId".to_owned());
            },
        };
        let normalized = match normalize_chapter_id(rawid.as_str()) {
            Ok(n) => n,
            Err(e) => {
                return Err(e);
            },
        };
        let summary = match get_opt_str(args, "summary") {
            Some(s) => s,
            None => {
                return Err("Missing summary".to_owned());
            },
        };
        return Ok(ToolAction::SaveSummary { chapter_id: normalized, summary });
    }
    if crate::text::str_eq_str(name, "rag_search") {
        let query = match get_opt_str(args, "query") {
            Some(q) => q,
            None => {
                return Err("Missing query".to_owned());
            },
        };
        let top_k = match get_opt_u32(args, "topK") {
            Some(k) => k,
            None => match get_opt_u32(args, "top_k") {
                Some(k) => k,
                None => 5,
            },
        };
        return Ok(ToolAction::KnowledgeSearch { query, top_k });
    }
    let mut e = String::new();
    e.append("Unknown tool: ");
    e.append(name);
    Err(e)
}

} // verus!

verus! {

use crate::jsonval::view_json_obj;
use crate::jsonval::lemma_view_json_obj_len;
use crate::jsonval::lemma_view_json_obj_index;
use crate::jsonval::spec_json;
use crate::jsonval::json_to_string;
use crate::text::spec_trim_end;
use crate::text::trim_end_chars;

/// Finalizes one executed call: the record kept for the response, and the
/// entry that goes back to the engine. A failing tool yields an error entry
/// but never aborts the round by itself.
pub fn record_tool_call(pending: PendingCall, outcome: Result<String, String>, duration: u64) -> (r:
    (ToolCall, JsonValue))
    ensures
        r.0.id@ == pending.id@,
        r.0.name@ == pending.name@,
        r.0.args@ == pending.args@,
        r.0.duration == Some(duration),
        outcome matches Ok(v) ==> {
            &&& r.0.status is Success
            &&& (r.0.result matches Some(x) && x@ == v@)
            &&& r.0.error is None
            &&& r.1@ == Json::Obj(
                seq![("id"@, Json::Str(pending.id@)), ("result"@, Json::Str(v@))],
            )
        },
        outcome matches Err(e) ==> {
            &&& r.0.status is Error
            &&& r.0.result is None
            &&& (r.0.error matches Some(x) && x@ == e@)
            &&& r.1@ == Json::Obj(
                seq![
                    ("id"@, Json::Str(pending.id@)),
                    ("result"@, Json::Str(Seq::empty())),
                    ("error"@, Json::Str(e@)),
                ],
            )
        },
{
    proof {
        reveal_strlit("");
        assert(""@ =~= Seq::<char>::empty());
    }
    match outcome {
        Ok(v) => {
            let mut entries: Vec<(String, JsonValue)> = Vec::new();
            entries.push(("id".to_owned(), JsonValue::Str(pending.id.clone())));
            entries.push(("result".to_owned(), JsonValue::Str(v.clone())));
            proof {
                lemma_view_json_obj_len(entries@);
                lemma_view_json_obj_index(entries@, 0);
                lemma_view_json_obj_index(entries@, 1);
                assert(view_json_obj(entries@) =~= seq![
                    ("id"@, Json::Str(pending.id@)),
                    ("result"@, Json::Str(v@)),
                ]);
            }
            let entry = JsonValue::Obj(entries);
            let record = ToolCall {
                id: pending.id,
                name: pending.name,
                args: pending.args,
                status: ToolCallStatus::Success,
                result: Some(v),
                error: None,
                duration: Some(duration),
            };
            (record, entry)
        },
        Err(e) => {
            let mut entries: Vec<(String, JsonValue)> = Vec::new();
            entries.push(("id".to_owned(), JsonValue::Str(pending.id.clone())));
            entries.push(("result".to_owned(), JsonValue::Str("".to_owned())));
            entries.push(("error".to_owned(), JsonValue::Str(e.clone())));
            proof {
                lemma_view_json_obj_len(entries@);
                lemma_view_json_obj_index(entries@, 0);
                lemma_view_json_obj_index(entries@, 1);
                lemma_view_json_obj_index(entries@, 2);
                assert(view_json_obj(entries@) =~= seq![
                    ("id"@, Json::Str(pending.id@)),
                    ("result"@, Json::Str(Seq::<char>::empty())),
                    ("error"@, Json::Str(e@)),
                ]);
            }
            let entry = JsonValue::Obj(entries);
            let record = ToolCall {
                id: pending.id,
                name: pending.name,
                args: pending.args,
                status: ToolCallStatus::Error,
                result: None,
                error: Some(e),
                duration: Some(duration),
            };
            (record, entry)
        },
    }
}

/// The model of the line that carries a round's tool results back to the
/// engine.
pub open spec fn spec_tool_results_json(results: Seq<Json>) -> Json {
    Json::Obj(
        seq![("type"@, Json::Str("tool_result"@)), ("results"@, Json::Arr(results))],
    )
}

/// Serializes a round's tool results as the engine expects them.
pub fn tool_results_line(results: Vec<JsonValue>) -> (r: String)
    ensures
        r@ == spec_json(spec_tool_results_json(view_json_list(results@))),
{
    let ghost results_model = view_json_list(results@);
    let mut entries: Vec<(String, JsonValue)> = Vec::new();
    entries.push(("type".to_owned(), JsonValue::Str("tool_result".to_owned())));
    entries.push(("results".to_owned(), JsonValue::Arr(results)));
    proof {
        lemma_view_json_obj_len(entries@);
        lemma_view_json_obj_index(entries@, 0);
        lemma_view_json_obj_index(entries@, 1);
        assert(view_json_obj(entries@) =~= seq![
            ("type"@, Json::Str("tool_result"@)),
            ("results"@, Json::Arr(results_model)),
        ]);
    }
    let obj = JsonValue::Obj(entries);
    json_to_string(&obj)
}

/// The model of the opening line of one exchange.
pub open spec fn spec_request_json(kind: Seq<char>, request: ChatRequest) -> Json {
    Json::Obj(
        seq![
            ("type"@, Json::Str(kind)),
            ("provider"@, request.provider@),
            ("parameters"@, request.parameters@),
            ("systemPrompt"@, Json::Str(request.system_prompt@)),
            ("messages"@, Json::Arr(view_json_list(request.messages@))),
        ],
    )
}

/// Serializes the opening request line of one exchange; `kind` names the
/// request's variant on the wire.
pub fn chat_request_line(request: &ChatRequest, kind: &str) -> (r: String)
    ensures
        r@ == spec_json(spec_request_json(kind@, *request)),
{
    let mut entries: Vec<(String, JsonValue)> = Vec::new();
    entries.push(("type".to_owned(), JsonValue::Str(kind.to_owned())));
    entries.push(("provider".to_owned(), clone_json(&request.provider)));
    entries.push(("parameters".to_owned(), clone_json(&request.parameters)));
    entries.push(("systemPrompt".to_owned(), JsonValue::Str(request.system_prompt.clone())));
    entries.push(("messages".to_owned(), JsonValue::Arr(crate::jsonval::clone_json_vec(&request.messages))));
    proof {
        lemma_view_json_obj_len(entries@);
        lemma_view_json_obj_index(entries@, 0);
        lemma_view_json_obj_index(entries@, 1);
        lemma_view_json_obj_index(entries@, 2);
        lemma_view_json_obj_index(entries@, 3);
        lemma_view_json_obj_index(entries@, 4);
        assert(view_json_obj(entries@) =~= seq![
            ("type"@, Json::Str(kind@)),
            ("provider"@, request.provider@),
            ("parameters"@, request.parameters@),
            ("systemPrompt"@, Json::Str(request.system_prompt@)),
            ("messages"@, Json::Arr(view_json_list(request.messages@))),
        ]);
    }
    let obj = JsonValue::Obj(entries);
    json_to_string(&obj)
}

/// One executed call formatted for a synthesized answer.
pub open spec fn spec_tool_run_block(run: ToolCall) -> Seq<char> {
    let head = "[tool] "@ + run.name@ + seq!['\n'] + "id: "@ + run.id@ + seq!['\n'] + "args: "@
        + spec_json(run.args@) + seq!['\n'];
    match run.result {
        Some(v) => head + "result: "@ + v@ + seq!['\n', '\n'],
        None => match run.error {
            Some(e) => head + "error: "@ + e@ + seq!['\n', '\n'],
            None => head,
        },
    }
}

/// Every executed call formatted in order.
pub open spec fn spec_tool_runs_text(runs: Seq<ToolCall>) -> Seq<char>
    decreases runs.len(),
{
    if runs.len() == 0 {
        Seq::empty()
    } else {
        spec_tool_runs_text(runs.drop_last()) + spec_tool_run_block(runs.last())
    }
}

/// The synthesized answer used when the exchange must end with the tool
/// round: every executed call's name, identifier, arguments and outcome,
/// with trailing whitespace removed.
#[verifier::rlimit(60)]
pub fn format_tool_runs(runs: &Vec<ToolCall>) -> (r: String)
    ensures
        r@ == spec_trim_end(spec_tool_runs_text(runs@)),
{
    let mut out: Vec<char> = Vec::new();
    let mut i: usize = 0;
    while i < runs.len()
        invariant
            i <= runs@.len(),
            out@ == spec_tool_runs_text(runs@.subrange(0, i as int)),
        decreases runs@.len() - i,
    {
        let ghost pre = runs@.subrange(0, i as int);
        let ghost post = runs@.subrange(0, i + 1 as int);
        assert(post.drop_last() =~= pre);
        assert(post.last() == runs@[i as int]);
        let run = &runs[i];
        push_str_chars(&mut out, "[tool] ");
        push_str_chars(&mut out, run.name.as_str());
        out.push('\n');
        push_str_chars(&mut out, "id: ");
        push_str_chars(&mut out, run.id.as_str());
        out.push('\n');
        push_str_chars(&mut out, "args: ");
        let args_json = json_to_string(&run.args);
        push_str_chars(&mut out, args_json.as_str());
        out.push('\n');
        match &run.result {
            Some(v) => {
                push_str_chars(&mut out, "result: ");
                push_str_chars(&mut out, v.as_str());
                out.push('\n');
                out.push('\n');
            },
            None => {
                match &run.error {
                    Some(e) => {
                        push_str_chars(&mut out, "error: ");
                        push_str_chars(&mut out, e.as_str());
                        out.push('\n');
                        out.push('\n');
                    },
                    None => {},
                }
            },
        }
        assert(out@ =~= spec_tool_runs_text(post));
        i = i + 1;
    }
    assert(runs@.subrange(0, runs@.len() as int) =~= runs@);
    let trimmed = trim_end_chars(&out);
    string_of_chars(&trimmed)
}

/// The chapter a project-relative file path belongs to: a `.txt` file under
/// `chapters/` whose name is `chapter_` followed by digits.
pub open spec fn spec_chapter_file_id(rel: Seq<char>) -> Option<Seq<char>> {
    if !spec_is_prefix("chapters/"@, rel) || !(rel.len() >= ".txt"@.len() && rel.subrange(
        rel.len() - ".txt"@.len(),
        rel.len() as int,
    ) == ".txt"@) {
        None
    } else {
        let filename = crate::text::spec_split(rel, '/').last();
        if filename.len() >= ".txt"@.len() && filename.subrange(
            filename.len() - ".txt"@.len(),
            filename.len() as int,
        ) == ".txt"@ {
            let stem = filename.subrange(0, filename.len() - ".txt"@.len());
            if spec_is_prefix("chapter_"@, stem) && spec_all_digits(
                stem.skip("chapter_"@.len() as int),
            ) {
                Some(stem)
            } else {
                None
            }
        } else {
            None
        }
    }
}

/// Decides whether an appended file is a chapter file, and which chapter's
/// index record must be refreshed.
pub fn chapter_file_id(relative: &str) -> (r: Option<String>)
    ensures
        match r {
            Some(s) => spec_chapter_file_id(relative@) == Some(s@),
            None => spec_chapter_file_id(relative@) is None,
        },
{
    proof {
        reveal_strlit("chapters/");
        reveal_strlit(".txt");
        reveal_strlit("chapter_");
    }
    let chars = chars_of_str(relative);
    if !starts_with_str(&chars, "chapters/") {
        return None;
    }
    if !ends_with_str(&chars, ".txt") {
        return None;
    }
    let parts = crate::text::split_chars(&chars, '/');
    proof {
        crate::text::lemma_split_len_pos(relative@, '/');
    }
    assert(parts.deep_view().len() == parts@.len());
    let filename = &parts[parts.len() - 1];
    assert(filename@ == parts.deep_view().last());
    if !ends_with_str(filename, ".txt") {
        return None;
    }
    let stem = subrange_chars(filename, 0, filename.len() - 4);
    assert(stem@ =~= filename@.subrange(0, filename@.len() - ".txt"@.len()));
    if !starts_with_str(&stem, "chapter_") {
        return None;
    }
    let digits = subrange_chars(&stem, 8, stem.len());
    assert(digits@ =~= stem@.skip("chapter_"@.len() as int));
    if !all_digits(&digits) {
        return None;
    }
    Some(string_of_chars(&stem))
}

} // verus!

verus! {

/// What the protocol loop does at the top of one poll round.
pub enum LoopCheck {
    /// Keep waiting for the engine.
    Proceed,
    /// The caller cancelled: kill the engine and return the cancellation
    /// error.
    CancelledNow,
    /// The deadline passed with no line received: kill the engine and
    /// return the timeout error.
    TimedOutNow,
}

/// Law: one poll round ends the exchange the moment cancellation is
/// observed, ends it when the clock since the last received line passes the
/// deadline, and otherwise continues.
pub fn check_deadline(cancelled: bool, elapsed_ms: u64, timeout_ms: u64) -> (r: LoopCheck)
    ensures
        cancelled ==> r is CancelledNow,
        !cancelled && elapsed_ms > timeout_ms ==> r is TimedOutNow,
        !cancelled && elapsed_ms <= timeout_ms ==> r is Proceed,
{
    if cancelled {
        LoopCheck::CancelledNow
    } else if elapsed_ms > timeout_ms {
        LoopCheck::TimedOutNow
    } else {
        LoopCheck::Proceed
    }
}

/// The default chat deadline between received lines, in milliseconds.
pub const CHAT_TIMEOUT_MS: u64 = 600000;

/// The default one-shot completion deadline, in milliseconds.
pub const COMPLETE_TIMEOUT_MS: u64 = 30000;

/// The deadline an exchange runs with: a positive decimal override wins,
/// anything else falls back to the given default.
pub fn effective_timeout_ms(override_raw: Option<&String>, default: u64) -> (r: u64)
    ensures
        match override_raw {
            Some(raw) => {
                let t = spec_trim(raw@);
                if t.len() > 0 && spec_all_digits(t) && spec_digits_value(t) > 0
                    && spec_digits_value(t) <= u64::MAX {
                    r == spec_digits_value(t)
                } else {
                    r == default
                }
            },
            None => r == default,
        },
{
    match override_raw {
        Some(raw) => {
            let chars = chars_of_str(raw.as_str());
            let t = trim_chars(&chars);
            if t.len() == 0 {
                return default;
            }
            if !crate::text::all_digits(&t) {
                return default;
            }
            match crate::text::parse_u64_digits(&t) {
                Some(ms) => if ms > 0 {
                    ms
                } else {
                    default
                },
                None => default,
            }
        },
        None => default,
    }
}

} // verus!
