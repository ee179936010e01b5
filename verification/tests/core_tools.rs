use creatorai::bridge::{
    classify_line, dispatch_tool, normalize_chapter_id, provider_direct_return, record_tool_call,
    chapter_file_id, chat_request_line, check_deadline, effective_timeout_ms, format_tool_runs,
    tool_results_line, cancelled_message, chat_timeout_message, engine_exit_error, ChatRequest,
    LineStep, LoopCheck, PendingCall, ToolAction, CHAT_TIMEOUT_MS, COMPLETE_TIMEOUT_MS,
};
use creatorai::file_ops::append::appended_content;
use creatorai::file_ops::read::{render_read, read_result_json, contains_nul, ReadResult};
use creatorai::jsonval::{json_to_string, json_as_i64, json_as_u32, JsonValue};
use creatorai::session::{SessionMode, ToolCallStatus};

fn obj(entries: Vec<(&str, JsonValue)>) -> JsonValue {
    JsonValue::Obj(
        entries
            .into_iter()
            .map(|(k, v)| (k.to_string(), v))
            .collect(),
    )
}

fn s(v: &str) -> JsonValue {
    JsonValue::Str(v.to_string())
}

#[test]
fn read_round_trip_two_lines() {
    let r = render_read("hello\nworld", None, None);
    assert_eq!(r.content, "00001| hello\n00002| world");
    assert_eq!(r.total_lines, 2);
    assert!(!r.truncated);
}

#[test]
fn read_round_trip_keeps_exact_text() {
    let text = "第一行：开头要有钩子。\n第二行：铺垫冲突。\n";
    let r = render_read(text, None, None);
    assert_eq!(r.content, "00001| 第一行：开头要有钩子。\n00002| 第二行：铺垫冲突。");
    assert_eq!(r.total_lines, 2);
    assert!(!r.truncated);
}

#[test]
fn read_tail_returns_last_line() {
    let r = render_read("first\nsecond\n", Some(-1), None);
    assert_eq!(r.content, "00002| second");
    assert_eq!(r.total_lines, 2);
    assert!(!r.truncated);
}

#[test]
fn read_offset_skips_lines() {
    let r = render_read("a\nb\nc", Some(1), None);
    assert_eq!(r.content, "00002| b\n00003| c");
    assert_eq!(r.total_lines, 3);
    assert!(!r.truncated);
}

#[test]
fn read_limit_truncates() {
    let r = render_read("a\nb\nc", Some(0), Some(2));
    assert_eq!(r.content, "00001| a\n00002| b");
    assert_eq!(r.total_lines, 3);
    assert!(r.truncated);
}

#[test]
fn read_long_line_is_cut_with_ellipsis() {
    let long: String = std::iter::repeat('x').take(2001).collect();
    let r = render_read(&long, None, None);
    assert!(r.truncated);
    assert!(r.content.ends_with("..."));
    assert_eq!(r.content.chars().count(), 7 + 2000 + 3);
}

#[test]
fn read_strips_carriage_returns() {
    let r = render_read("a\r\nb", None, None);
    assert_eq!(r.content, "00001| a\n00002| b");
}

#[test]
fn binary_probe_finds_nul() {
    assert!(contains_nul(&vec![1u8, 0u8, 2u8]));
    assert!(!contains_nul(&vec![1u8, 2u8, 3u8]));
}

#[test]
fn read_result_serializes_plainly() {
    let r = ReadResult {
        content: "00001| a".to_string(),
        total_lines: 1,
        truncated: false,
    };
    assert_eq!(
        read_result_json(&r),
        "{\"content\":\"00001| a\",\"total_lines\":1,\"truncated\":false}"
    );
}

#[test]
fn append_inserts_missing_newline() {
    assert_eq!(appended_content("hello", "world"), "hello\nworld");
    assert_eq!(appended_content("hello\n", "world"), "hello\nworld");
    assert_eq!(appended_content("", "world"), "world");
}

#[test]
fn json_escapes_strings() {
    let v = s("a\"b\\c\nd");
    assert_eq!(json_to_string(&v), "\"a\\\"b\\\\c\\nd\"");
}

#[test]
fn json_numbers_parse() {
    assert_eq!(json_as_i64(&JsonValue::Num("-1".to_string())), Some(-1));
    assert_eq!(json_as_i64(&JsonValue::Num("42".to_string())), Some(42));
    assert_eq!(json_as_i64(&JsonValue::Num("x".to_string())), None);
    assert_eq!(json_as_u32(&JsonValue::Num("20".to_string())), Some(20));
    assert_eq!(json_as_u32(&JsonValue::Num("5000000000".to_string())), None);
    assert_eq!(json_as_u32(&s("20")), None);
}

#[test]
fn classify_done_line() {
    let v = obj(vec![("type", s("done")), ("content", s("all set"))]);
    match classify_line(&v, "{\"type\":\"done\"}") {
        LineStep::Done { content } => assert_eq!(content, "all set"),
        _ => panic!("expected done"),
    }
}

#[test]
fn classify_error_line_defaults_message() {
    let v = obj(vec![("type", s("error"))]);
    match classify_line(&v, "{}") {
        LineStep::EngineError { message } => assert_eq!(message, "Unknown error"),
        _ => panic!("expected error"),
    }
}

#[test]
fn unknown_discriminant_is_protocol_violation() {
    let raw = "{\"type\":\"bogus\"}";
    let v = obj(vec![("type", s("bogus"))]);
    match classify_line(&v, raw) {
        LineStep::Violation { error } => {
            assert_eq!(error, "Unknown response type: {\"type\":\"bogus\"}");
        }
        _ => panic!("expected violation"),
    }
}

#[test]
fn classify_tool_call_extracts_calls() {
    let call = obj(vec![
        ("id", s("call_1")),
        ("name", s("read")),
        ("args", obj(vec![("path", s("chapters/chapter_001.txt"))])),
    ]);
    let v = obj(vec![("type", s("tool_call")), ("calls", JsonValue::Arr(vec![call]))]);
    match classify_line(&v, "") {
        LineStep::ToolRound { calls } => {
            assert_eq!(calls.len(), 1);
            assert_eq!(calls[0].id, "call_1");
            assert_eq!(calls[0].name, "read");
        }
        _ => panic!("expected tool round"),
    }
}

#[test]
fn classify_tool_call_requires_array() {
    let v = obj(vec![("type", s("tool_call")), ("calls", s("nope"))]);
    match classify_line(&v, "") {
        LineStep::Violation { error } => assert_eq!(error, "Invalid tool_call format"),
        _ => panic!("expected violation"),
    }
}

#[test]
fn discussion_mode_blocks_append() {
    let args = obj(vec![("path", s("chapters/chapter_001.txt")), ("content", s("world"))]);
    let r = dispatch_tool(SessionMode::Discussion, true, None, "append", &args);
    assert_eq!(r.err().as_deref(), Some("Tool not allowed in Discussion mode"));
}

#[test]
fn continue_mode_blocks_write_tools_before_confirmation() {
    let args = obj(vec![("path", s("a.txt")), ("content", s("x"))]);
    for name in ["write", "append", "save_summary"] {
        let r = dispatch_tool(SessionMode::Continue, false, None, name, &args);
        assert_eq!(r.err().as_deref(), Some("Tool not allowed before user confirmation"));
    }
}

#[test]
fn continue_mode_allows_append_after_confirmation() {
    let args = obj(vec![("path", s("chapters/chapter_003.txt")), ("content", s("更多"))]);
    match dispatch_tool(SessionMode::Continue, true, None, "append", &args) {
        Ok(ToolAction::AppendFile { params }) => {
            assert_eq!(params.path, "chapters/chapter_003.txt");
            assert_eq!(params.content, "更多");
        }
        _ => panic!("expected append action"),
    }
}

#[test]
fn read_tool_is_always_permitted() {
    let args = obj(vec![("path", s("notes.txt")), ("offset", JsonValue::Num("-1".to_string()))]);
    match dispatch_tool(SessionMode::Discussion, false, None, "read", &args) {
        Ok(ToolAction::ReadFile { params }) => {
            assert_eq!(params.path, "notes.txt");
            assert_eq!(params.offset, Some(-1));
            assert_eq!(params.limit, None);
        }
        _ => panic!("expected read action"),
    }
}

#[test]
fn missing_arguments_are_named() {
    let r = dispatch_tool(SessionMode::Discussion, false, None, "read", &obj(vec![]));
    assert_eq!(r.err().as_deref(), Some("Missing path"));
    let r = dispatch_tool(SessionMode::Discussion, false, None, "search", &obj(vec![]));
    assert_eq!(r.err().as_deref(), Some("Missing query"));
}

#[test]
fn unknown_tool_is_named() {
    let r = dispatch_tool(SessionMode::Discussion, false, None, "bogus", &obj(vec![]));
    assert_eq!(r.err().as_deref(), Some("Unknown tool: bogus"));
}

#[test]
fn chapter_info_needs_active_chapter() {
    let r = dispatch_tool(SessionMode::Discussion, false, None, "get_chapter_info", &obj(vec![]));
    assert_eq!(r.err().as_deref(), Some("No chapter selected"));
    let cid = "003".to_string();
    match dispatch_tool(SessionMode::Discussion, false, Some(&cid), "get_chapter_info", &obj(vec![])) {
        Ok(ToolAction::ChapterInfo { chapter_id }) => assert_eq!(chapter_id, "chapter_003"),
        _ => panic!("expected chapter info action"),
    }
}

#[test]
fn knowledge_search_defaults_to_five() {
    let args = obj(vec![("query", s("伏笔"))]);
    match dispatch_tool(SessionMode::Continue, false, None, "rag_search", &args) {
        Ok(ToolAction::KnowledgeSearch { query, top_k }) => {
            assert_eq!(query, "伏笔");
            assert_eq!(top_k, 5);
        }
        _ => panic!("expected knowledge search"),
    }
}

#[test]
fn normalize_chapter_id_accepts_both_forms() {
    assert_eq!(normalize_chapter_id("chapter_003").ok().as_deref(), Some("chapter_003"));
    assert_eq!(normalize_chapter_id("3").ok().as_deref(), Some("chapter_003"));
    assert_eq!(normalize_chapter_id("03").ok().as_deref(), Some("chapter_003"));
    assert_eq!(normalize_chapter_id(" 12 ").ok().as_deref(), Some("chapter_012"));
    assert_eq!(normalize_chapter_id("").err().as_deref(), Some("chapterId is empty"));
    assert_eq!(
        normalize_chapter_id("chapter_x").err().as_deref(),
        Some("Invalid chapterId (expected 'chapter_XXX')")
    );
    assert_eq!(normalize_chapter_id("abc").err().as_deref(), Some("Invalid chapterId"));
    assert_eq!(
        normalize_chapter_id("99999999999").err().as_deref(),
        Some("Invalid chapterId (expected digits)")
    );
}

#[test]
fn chapter_file_paths_are_recognized() {
    assert_eq!(chapter_file_id("chapters/chapter_003.txt").as_deref(), Some("chapter_003"));
    assert_eq!(chapter_file_id("chapters/chapter_12.txt").as_deref(), Some("chapter_12"));
    assert_eq!(chapter_file_id("notes/chapter_003.txt"), None);
    assert_eq!(chapter_file_id("chapters/summary.txt"), None);
    assert_eq!(chapter_file_id("chapters/chapter_003.md"), None);
}

#[test]
fn tool_outcomes_are_recorded_once() {
    let pending = PendingCall {
        id: "call_1".to_string(),
        name: "read".to_string(),
        args: JsonValue::Null,
    };
    let (record, entry) = record_tool_call(pending, Ok("data".to_string()), 7);
    assert!(matches!(record.status, ToolCallStatus::Success));
    assert_eq!(record.result.as_deref(), Some("data"));
    assert_eq!(record.error, None);
    assert_eq!(record.duration, Some(7));
    assert_eq!(json_to_string(&entry), "{\"id\":\"call_1\",\"result\":\"data\"}");

    let pending = PendingCall {
        id: "call_2".to_string(),
        name: "append".to_string(),
        args: JsonValue::Null,
    };
    let (record, entry) = record_tool_call(pending, Err("Tool not allowed in Discussion mode".to_string()), 0);
    assert!(matches!(record.status, ToolCallStatus::Error));
    assert_eq!(record.result, None);
    assert_eq!(record.error.as_deref(), Some("Tool not allowed in Discussion mode"));
    assert_eq!(
        json_to_string(&entry),
        "{\"id\":\"call_2\",\"result\":\"\",\"error\":\"Tool not allowed in Discussion mode\"}"
    );
}

#[test]
fn tool_result_line_matches_protocol() {
    let entry = obj(vec![("id", s("call_1")), ("result", s("ok"))]);
    let line = tool_results_line(vec![entry]);
    assert_eq!(
        line,
        "{\"type\":\"tool_result\",\"results\":[{\"id\":\"call_1\",\"result\":\"ok\"}]}"
    );
}

#[test]
fn request_line_matches_protocol() {
    let request = ChatRequest {
        provider: obj(vec![("baseURL", s("http://mock/v1"))]),
        parameters: obj(vec![("model", s("test-model"))]),
        system_prompt: "test".to_string(),
        messages: vec![obj(vec![("role", s("user")), ("content", s("hi"))])],
        project_dir: "/tmp/p".to_string(),
        mode: SessionMode::Discussion,
        chapter_id: None,
        allow_write: false,
    };
    let line = chat_request_line(&request, "chat");
    assert_eq!(
        line,
        "{\"type\":\"chat\",\"provider\":{\"baseURL\":\"http://mock/v1\"},\"parameters\":{\"model\":\"test-model\"},\"systemPrompt\":\"test\",\"messages\":[{\"role\":\"user\",\"content\":\"hi\"}]}"
    );
}

#[test]
fn direct_return_follows_endpoint_capability() {
    let p1 = obj(vec![("baseURL", s("https://host/geminicli/v1"))]);
    let p2 = obj(vec![("baseURL", s("https://host/v1"))]);
    assert!(provider_direct_return(&p1));
    assert!(!provider_direct_return(&p2));
}

#[test]
fn tool_runs_format_for_synthesized_answer() {
    let pending = PendingCall {
        id: "call_1".to_string(),
        name: "read".to_string(),
        args: JsonValue::Null,
    };
    let (record, _) = record_tool_call(pending, Ok("data".to_string()), 3);
    let text = format_tool_runs(&vec![record]);
    assert_eq!(text, "[tool] read\nid: call_1\nargs: null\nresult: data");
}

#[test]
fn cancellation_wins_every_poll_round() {
    assert!(matches!(check_deadline(true, 0, 1000), LoopCheck::CancelledNow));
    assert!(matches!(check_deadline(true, 5000, 1000), LoopCheck::CancelledNow));
    assert!(matches!(check_deadline(false, 1001, 1000), LoopCheck::TimedOutNow));
    assert!(matches!(check_deadline(false, 50, 1000), LoopCheck::Proceed));
    assert_eq!(cancelled_message(), "已停止生成");
    assert_eq!(chat_timeout_message(), "AI 请求超时（请重试或更换模型/Provider）");
}

#[test]
fn engine_exit_errors_carry_status_and_reason() {
    let why = "EOF".to_string();
    assert_eq!(
        engine_exit_error("exit status: 1", Some(&why)),
        "ai-engine exited unexpectedly: exit status: 1. EOF"
    );
    assert_eq!(
        engine_exit_error("exit status: 0", None),
        "ai-engine exited unexpectedly: exit status: 0"
    );
}

#[test]
fn timeout_overrides_must_be_positive_numbers() {
    assert_eq!(effective_timeout_ms(None, CHAT_TIMEOUT_MS), 600000);
    let good = "1500".to_string();
    assert_eq!(effective_timeout_ms(Some(&good), CHAT_TIMEOUT_MS), 1500);
    let zero = "0".to_string();
    assert_eq!(effective_timeout_ms(Some(&zero), COMPLETE_TIMEOUT_MS), 30000);
    let junk = "soon".to_string();
    assert_eq!(effective_timeout_ms(Some(&junk), COMPLETE_TIMEOUT_MS), 30000);
    let blank = "  ".to_string();
    assert_eq!(effective_timeout_ms(Some(&blank), COMPLETE_TIMEOUT_MS), 30000);
}

#[test]
fn discussion_round_blocks_append_and_reports_it() {
    let call = obj(vec![
        ("id", s("call_append_blocked")),
        ("name", s("append")),
        ("args", obj(vec![("path", s("chapters/chapter_001.txt")), ("content", s("world"))])),
    ]);
    let line = obj(vec![("type", s("tool_call")), ("calls", JsonValue::Arr(vec![call]))]);
    let LineStep::ToolRound { calls } = classify_line(&line, "") else {
        panic!("expected tool round");
    };
    assert_eq!(calls.len(), 1);

    let mut records = Vec::new();
    let mut results = Vec::new();
    for pending in calls {
        let outcome = dispatch_tool(
            SessionMode::Discussion,
            true,
            None,
            &pending.name,
            &pending.args,
        )
        .map(|_| "unreachable".to_string());
        let (record, entry) = record_tool_call(pending, outcome, 1);
        records.push(record);
        results.push(entry);
    }
    assert!(matches!(records[0].status, ToolCallStatus::Error));
    assert_eq!(records[0].error.as_deref(), Some("Tool not allowed in Discussion mode"));
    assert_eq!(
        tool_results_line(results),
        "{\"type\":\"tool_result\",\"results\":[{\"id\":\"call_append_blocked\",\"result\":\"\",\"error\":\"Tool not allowed in Discussion mode\"}]}"
    );
}
