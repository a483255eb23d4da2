use coding_agent_search::connectors::codex::{
    detection, parse_rollout, scan_files, sessions_dir, RolloutFile,
};
use coding_agent_search::connectors::{ConnectorError, NormalizedConversation, ScanContext};

/// Scans files given as (path under the root, content).
fn scan(ctx: &ScanContext, files: &[(&str, &str)]) -> Vec<NormalizedConversation> {
    let files: Vec<RolloutFile> = files
        .iter()
        .map(|(path, text)| RolloutFile {
            path: format!("{}/{}", ctx.data_root, path),
            text: text.to_string(),
        })
        .collect();
    scan_files(&files, ctx.since_ts)
}

fn context() -> ScanContext {
    ScanContext { data_root: "/home/dev/.codex".to_string(), since_ts: None }
}

#[test]
fn codex_connector_reads_modern_envelope_jsonl() {
    // Modern envelope format with {type, timestamp, payload}
    let sample = r#"{"timestamp":"2025-09-30T15:42:34.559Z","type":"session_meta","payload":{"id":"test-id","cwd":"/test/workspace","cli_version":"0.42.0"}}
{"timestamp":"2025-09-30T15:42:36.190Z","type":"response_item","payload":{"type":"message","role":"user","content":[{"type":"input_text","text":"write a hello program"}]}}
{"timestamp":"2025-09-30T15:42:43.000Z","type":"response_item","payload":{"type":"message","role":"assistant","content":[{"type":"text","text":"here is code"}]}}
"#;
    let ctx = context();
    let convs = scan(&ctx, &[("sessions/2025/11/21/rollout-1.jsonl", sample)]);
    assert_eq!(convs.len(), 1);
    let c = &convs[0];
    assert_eq!(c.agent_slug, "codex");
    assert_eq!(c.messages.len(), 2);
    assert!(c.title.as_ref().unwrap().contains("write a hello program"));
    // Verify workspace was extracted from session_meta
    assert_eq!(c.workspace, Some("/test/workspace".to_string()));
    // Verify timestamps were parsed from ISO-8601
    assert!(c.started_at.is_some());
    assert!(c.ended_at.is_some());
    assert_eq!(c.started_at, Some(1759246956190));
    assert_eq!(c.ended_at, Some(1759246963000));
    assert_eq!(c.source_path, "/home/dev/.codex/sessions/2025/11/21/rollout-1.jsonl");
    assert_eq!(c.metadata_get("session_id"), Some("test-id"));
    assert_eq!(c.metadata_get("cli_version"), Some("0.42.0"));
    assert_eq!(c.metadata_get("source"), None);
}

#[test]
fn codex_connector_includes_agent_reasoning() {
    let sample = r#"{"timestamp":"2025-09-30T15:42:34.559Z","type":"session_meta","payload":{"id":"test-id","cwd":"/test"}}
{"timestamp":"2025-09-30T15:42:36.190Z","type":"response_item","payload":{"type":"message","role":"user","content":[{"type":"input_text","text":"solve this problem"}]}}
{"timestamp":"2025-09-30T15:42:40.000Z","type":"event_msg","payload":{"type":"agent_reasoning","text":"Let me think about this carefully..."}}
{"timestamp":"2025-09-30T15:42:43.000Z","type":"response_item","payload":{"type":"message","role":"assistant","content":[{"type":"text","text":"here is solution"}]}}
{"timestamp":"2025-09-30T15:42:45.000Z","type":"event_msg","payload":{"type":"token_count","input_tokens":100,"output_tokens":200}}
"#;
    let ctx = context();
    let convs = scan(&ctx, &[("sessions/2025/11/22/rollout-reasoning.jsonl", sample)]);
    assert_eq!(convs.len(), 1);
    let c = &convs[0];

    // Should have 3 messages: user, reasoning, assistant
    // (token_count is filtered out)
    assert_eq!(c.messages.len(), 3);

    // Check reasoning is included with correct author tag
    let reasoning = c.messages.iter().find(|m| m.author.as_deref() == Some("reasoning"));
    assert!(reasoning.is_some());
    assert!(reasoning.unwrap().content.contains("think about this carefully"));
    assert_eq!(reasoning.unwrap().role, "assistant");
    assert_eq!(reasoning.unwrap().idx, 1);
    for m in &c.messages {
        assert!(!m.content.contains("token_count"));
    }
}

#[test]
fn codex_connector_filters_token_count() {
    let sample = r#"{"timestamp":"2025-09-30T15:42:34.559Z","type":"session_meta","payload":{"id":"test-id","cwd":"/test"}}
{"timestamp":"2025-09-30T15:42:36.190Z","type":"response_item","payload":{"type":"message","role":"user","content":[{"type":"input_text","text":"hello"}]}}
{"timestamp":"2025-09-30T15:42:37.000Z","type":"event_msg","payload":{"type":"token_count","input_tokens":10,"output_tokens":20}}
{"timestamp":"2025-09-30T15:42:38.000Z","type":"turn_context","payload":{"turn":1}}
{"timestamp":"2025-09-30T15:42:39.000Z","type":"response_item","payload":{"type":"message","role":"assistant","content":[{"type":"text","text":"world"}]}}
"#;
    let ctx = context();
    let convs = scan(&ctx, &[("sessions/2025/11/23/rollout-filter.jsonl", sample)]);
    assert_eq!(convs.len(), 1);
    let c = &convs[0];

    // Should only have 2 messages (user, assistant)
    // token_count and turn_context should be filtered out
    assert_eq!(c.messages.len(), 2);

    for msg in &c.messages {
        assert!(!msg.content.contains("token_count"));
        assert!(!msg.content.contains("turn_context"));
        assert!(!msg.content.trim().is_empty());
    }
}

/// Test legacy .json format parsing
#[test]
fn codex_connector_reads_legacy_json_format() {
    // Legacy format: single JSON object with session and items
    let sample = r#"{
        "session": {
            "id": "legacy-session",
            "cwd": "/legacy/workspace"
        },
        "items": [
            {
                "role": "user",
                "timestamp": "2025-09-30T15:42:36.190Z",
                "content": "legacy user message"
            },
            {
                "role": "assistant",
                "timestamp": "2025-09-30T15:42:43.000Z",
                "content": "legacy assistant response"
            }
        ]
    }"#;
    let ctx = context();
    let convs = scan(&ctx, &[("sessions/2025/11/25/rollout-legacy.json", sample)]);
    assert_eq!(convs.len(), 1);

    let c = &convs[0];
    assert_eq!(c.agent_slug, "codex");
    assert_eq!(c.messages.len(), 2);
    assert_eq!(c.workspace, Some("/legacy/workspace".to_string()));

    // Verify metadata indicates legacy format
    assert_eq!(c.metadata_get("source"), Some("rollout_json"));
    assert_eq!(c.metadata_get("session_id"), Some("legacy-session"));

    // Check messages
    assert_eq!(c.messages[0].role, "user");
    assert!(c.messages[0].content.contains("legacy user message"));
    assert_eq!(c.messages[1].role, "assistant");
    assert_eq!(c.messages[0].created_at, Some(1759246956190));
    assert_eq!(c.external_id, Some("rollout-legacy".to_string()));
}

/// Test detection with existing sessions directory
#[test]
fn codex_detect_with_sessions_dir() {
    let ctx = context();
    let result = detection(&sessions_dir(&ctx.data_root), true);
    assert!(result.detected);
    assert!(!result.evidence.is_empty());
    assert_eq!(result.evidence, vec!["/home/dev/.codex/sessions".to_string()]);
}

/// Test detection without sessions directory
#[test]
fn codex_detect_without_sessions_dir() {
    let ctx = context();
    let result = detection(&sessions_dir(&ctx.data_root), false);
    assert!(!result.detected);
    assert!(result.evidence.is_empty());
}

/// Test user_message event type
#[test]
fn codex_connector_handles_user_message_event() {
    let sample = r#"{"timestamp":"2025-09-30T15:42:34.559Z","type":"session_meta","payload":{"id":"test-id","cwd":"/test"}}
{"timestamp":"2025-09-30T15:42:36.190Z","type":"event_msg","payload":{"type":"user_message","message":"user event message"}}
{"timestamp":"2025-09-30T15:42:43.000Z","type":"response_item","payload":{"type":"message","role":"assistant","content":[{"type":"text","text":"assistant reply"}]}}
"#;
    let ctx = context();
    let convs = scan(&ctx, &[("sessions/2025/11/26/rollout-user-event.jsonl", sample)]);
    assert_eq!(convs.len(), 1);

    let c = &convs[0];
    assert_eq!(c.messages.len(), 2);

    // First message should be the user event
    assert_eq!(c.messages[0].role, "user");
    assert!(c.messages[0].content.contains("user event message"));
    assert_eq!(c.messages[0].author, None);
}

/// Test malformed JSONL lines are skipped gracefully
#[test]
fn codex_connector_skips_malformed_lines() {
    let sample = r#"{"timestamp":"2025-09-30T15:42:34.559Z","type":"session_meta","payload":{"id":"test-id","cwd":"/test"}}
{ this is not valid json
{"timestamp":"2025-09-30T15:42:36.190Z","type":"response_item","payload":{"type":"message","role":"user","content":[{"type":"input_text","text":"valid message"}]}}
also not valid
{"timestamp":"2025-09-30T15:42:43.000Z","type":"response_item","payload":{"type":"message","role":"assistant","content":[{"type":"text","text":"valid response"}]}}
"#;
    let ctx = context();
    let convs = scan(&ctx, &[("sessions/2025/11/27/rollout-malformed.jsonl", sample)]);
    assert_eq!(convs.len(), 1);

    let c = &convs[0];
    // Should have 2 valid messages, malformed lines skipped
    assert_eq!(c.messages.len(), 2);
    assert_eq!(c.messages[0].content, "valid message");
    assert_eq!(c.messages[1].content, "valid response");
}

/// Test multiple sessions in separate files
#[test]
fn codex_connector_handles_multiple_sessions() {
    let mut files: Vec<(String, String)> = Vec::new();
    for i in 1..=3 {
        let sample = format!(
            r#"{{"timestamp":"2025-09-30T15:42:34.559Z","type":"session_meta","payload":{{"id":"session-{i}","cwd":"/test/{i}"}}}}
{{"timestamp":"2025-09-30T15:42:36.190Z","type":"response_item","payload":{{"type":"message","role":"user","content":[{{"type":"input_text","text":"message {i}"}}]}}}}
"#
        );
        files.push((format!("sessions/2025/11/28/rollout-{i}.jsonl"), sample));
    }
    let borrowed: Vec<(&str, &str)> = files.iter().map(|(p, t)| (p.as_str(), t.as_str())).collect();
    let ctx = context();
    let convs = scan(&ctx, &borrowed);
    assert_eq!(convs.len(), 3);
    assert_eq!(convs[0].workspace, Some("/test/1".to_string()));
    assert_eq!(convs[2].external_id, Some("rollout-3".to_string()));
}

/// Test empty content messages are filtered
#[test]
fn codex_connector_filters_empty_content() {
    let sample = r#"{"timestamp":"2025-09-30T15:42:34.559Z","type":"session_meta","payload":{"id":"test-id","cwd":"/test"}}
{"timestamp":"2025-09-30T15:42:36.190Z","type":"response_item","payload":{"type":"message","role":"user","content":[{"type":"input_text","text":"   "}]}}
{"timestamp":"2025-09-30T15:42:37.000Z","type":"response_item","payload":{"type":"message","role":"user","content":[{"type":"input_text","text":"valid content"}]}}
{"timestamp":"2025-09-30T15:42:43.000Z","type":"response_item","payload":{"type":"message","role":"assistant","content":[]}}
"#;
    let ctx = context();
    let convs = scan(&ctx, &[("sessions/2025/11/29/rollout-empty.jsonl", sample)]);
    assert_eq!(convs.len(), 1);

    let c = &convs[0];
    // Only the message with "valid content" should be included
    assert_eq!(c.messages.len(), 1);
    assert!(c.messages[0].content.contains("valid content"));
    assert_eq!(c.messages[0].idx, 0);
}

/// Test title extraction from first user message
#[test]
fn codex_connector_extracts_title() {
    let sample = r#"{"timestamp":"2025-09-30T15:42:34.559Z","type":"session_meta","payload":{"id":"test-id","cwd":"/test"}}
{"timestamp":"2025-09-30T15:42:35.000Z","type":"response_item","payload":{"type":"message","role":"assistant","content":[{"type":"text","text":"assistant first"}]}}
{"timestamp":"2025-09-30T15:42:36.190Z","type":"response_item","payload":{"type":"message","role":"user","content":[{"type":"input_text","text":"This is the user's question\nWith a second line"}]}}
"#;
    let ctx = context();
    let convs = scan(&ctx, &[("sessions/2025/11/30/rollout-title.jsonl", sample)]);
    assert_eq!(convs.len(), 1);

    let c = &convs[0];
    // Title should be first line of first user message
    assert_eq!(c.title, Some("This is the user's question".to_string()));
}

/// Test sequential index assignment
#[test]
fn codex_connector_assigns_sequential_indices() {
    let sample = r#"{"timestamp":"2025-09-30T15:42:34.559Z","type":"session_meta","payload":{"id":"test-id","cwd":"/test"}}
{"timestamp":"2025-09-30T15:42:36.190Z","type":"response_item","payload":{"type":"message","role":"user","content":[{"type":"input_text","text":"first"}]}}
{"timestamp":"2025-09-30T15:42:37.000Z","type":"response_item","payload":{"type":"message","role":"assistant","content":[{"type":"text","text":"second"}]}}
{"timestamp":"2025-09-30T15:42:38.000Z","type":"response_item","payload":{"type":"message","role":"user","content":[{"type":"input_text","text":"third"}]}}
"#;
    let ctx = context();
    let convs = scan(&ctx, &[("sessions/2025/12/01/rollout-idx.jsonl", sample)]);
    assert_eq!(convs.len(), 1);

    let c = &convs[0];
    assert_eq!(c.messages.len(), 3);
    assert_eq!(c.messages[0].idx, 0);
    assert_eq!(c.messages[1].idx, 1);
    assert_eq!(c.messages[2].idx, 2);
}

/// Test external_id comes from filename
#[test]
fn codex_connector_sets_external_id_from_filename() {
    let sample = r#"{"timestamp":"2025-09-30T15:42:34.559Z","type":"session_meta","payload":{"id":"test-id","cwd":"/test"}}
{"timestamp":"2025-09-30T15:42:36.190Z","type":"response_item","payload":{"type":"message","role":"user","content":[{"type":"input_text","text":"test"}]}}
"#;
    let ctx = context();
    let convs = scan(&ctx, &[("sessions/2025/12/02/rollout-unique-id-123.jsonl", sample)]);
    assert_eq!(convs.len(), 1);

    let c = &convs[0];
    assert_eq!(c.external_id, Some("rollout-unique-id-123".to_string()));
}

/// Test empty sessions directory returns no conversations
#[test]
fn codex_connector_handles_empty_sessions() {
    let ctx = context();
    // No files in sessions
    let convs = scan(&ctx, &[]);
    assert!(convs.is_empty());
}

#[test]
fn since_ts_drops_older_keeps_newer_and_undated() {
    // One message dated by text, one by number, one not at all.
    let sample = r#"{"timestamp":"2023-11-14T22:13:19.999Z","type":"response_item","payload":{"type":"message","role":"user","content":[{"type":"input_text","text":"old msg"}]}}
{"timestamp":1700000100000,"type":"response_item","payload":{"type":"message","role":"assistant","content":[{"type":"text","text":"new msg"}]}}
{"type":"event_msg","payload":{"type":"user_message","message":"undated msg"}}
{"timestamp":1700000000000,"type":"event_msg","payload":{"type":"user_message","message":"on the limit"}}
"#;
    // 2023-11-14T22:13:20Z is 1_700_000_000_000.
    let ctx = ScanContext { data_root: "/root".into(), since_ts: Some(1_700_000_000_000) };
    let convs = scan(&ctx, &[("sessions/2025/11/24/rollout-since.jsonl", sample)]);
    assert_eq!(convs.len(), 1);
    let c = &convs[0];
    let got: Vec<(i64, &str, Option<i64>)> =
        c.messages.iter().map(|m| (m.idx, m.content.as_str(), m.created_at)).collect();
    assert_eq!(
        got,
        vec![
            (0, "new msg", Some(1_700_000_100_000)),
            (1, "undated msg", None),
            (2, "on the limit", Some(1_700_000_000_000)),
        ]
    );
    assert_eq!(c.started_at, Some(1_700_000_000_000));
    assert_eq!(c.ended_at, Some(1_700_000_100_000));
    // Without a limit the old message is there too.
    let all = scan(&ScanContext { data_root: "/root".into(), since_ts: None }, &[(
        "sessions/2025/11/24/rollout-since.jsonl",
        sample,
    )]);
    assert_eq!(all[0].messages.len(), 4);
    assert_eq!(all[0].messages[0].created_at, Some(1_699_999_999_999));
    assert_eq!(all[0].title, Some("old msg".to_string()));
}

#[test]
fn conversation_without_messages_is_not_emitted() {
    let sample = r#"{"timestamp":"2025-09-30T15:42:34.559Z","type":"session_meta","payload":{"id":"test-id","cwd":"/test"}}
{"timestamp":5,"type":"response_item","payload":{"type":"message","role":"user","content":[{"type":"input_text","text":"early"}]}}
"#;
    assert_eq!(parse_rollout("/r/sessions/rollout-a.jsonl", sample, Some(6)), Ok(None));
    assert!(parse_rollout("/r/sessions/rollout-a.jsonl", sample, Some(5)).unwrap().is_some());
    assert_eq!(parse_rollout("/r/sessions/rollout-a.jsonl", "", None), Ok(None));
}

#[test]
fn only_rollout_files_are_read() {
    let line = r#"{"timestamp":1,"type":"event_msg","payload":{"type":"user_message","message":"hi"}}"#;
    assert!(parse_rollout("/r/rollout-x.jsonl", line, None).unwrap().is_some());
    assert_eq!(parse_rollout("/r/notes.jsonl", line, None), Ok(None));
    assert_eq!(parse_rollout("/r/rollout-x.txt", line, None), Ok(None));
    assert_eq!(parse_rollout("/r/rollout-x", line, None), Ok(None));
    assert_eq!(parse_rollout("/r/rollout-.jsonl/other.jsonl", line, None), Ok(None));
    // Not a path but a bare name.
    assert!(parse_rollout("rollout-x.jsonl", line, None).unwrap().is_some());
}

#[test]
fn legacy_file_that_is_no_json_is_a_parse_error() {
    assert_eq!(parse_rollout("/r/rollout-bad.json", "{ not json", None), Err(ConnectorError::Parse));
    // The same text in a modern rollout is one bad line.
    assert_eq!(parse_rollout("/r/rollout-bad.jsonl", "{ not json", None), Ok(None));
    // JSON of another shape gives no message.
    assert_eq!(parse_rollout("/r/rollout-odd.json", "[1, 2]", None), Ok(None));
    assert_eq!(parse_rollout("/r/rollout-odd.json", "{\"items\": 3}", None), Ok(None));
    // A scan passes over the file and goes on.
    let good = r#"{"items":[{"role":"tool","content":"ran"}]}"#;
    let files = vec![
        RolloutFile { path: "/r/rollout-bad.json".into(), text: "{ not json".into() },
        RolloutFile { path: "/r/rollout-good.json".into(), text: good.into() },
    ];
    let convs = scan_files(&files, None);
    assert_eq!(convs.len(), 1);
    assert_eq!(convs[0].messages[0].role, "tool");
    assert_eq!(convs[0].messages[0].created_at, None);
    assert_eq!(convs[0].messages[0].extra, "{}");
    assert_eq!(convs[0].title, None);
    assert_eq!(convs[0].workspace, None);
    assert_eq!(convs[0].started_at, None);
}

#[test]
fn content_parts_are_joined_with_single_spaces() {
    let line = r#"{"timestamp":7,"type":"response_item","payload":{"type":"message","role":"system","content":[{"type":"text","text":"a"},{"type":"image","text":"skipped"},{"type":"input_text","text":"b c"},{"type":"text"},{"type":"text","text":""},{"type":"text","text":"d"}]}}"#;
    let c = parse_rollout("/r/rollout-p.jsonl", line, None).unwrap().unwrap();
    assert_eq!(c.messages[0].content, "a b c  d");
    assert_eq!(c.messages[0].role, "system");
    assert_eq!(c.messages[0].extra, line);
    // No message by the user: no title.
    assert_eq!(c.title, None);
}

#[test]
fn records_of_unknown_shape_are_discarded() {
    let sample = r#"{"timestamp":1,"type":"response_item","payload":{"type":"message","role":"developer","content":[{"type":"text","text":"not a role"}]}}
{"timestamp":2,"type":"response_item","payload":{"type":"function_call","name":"x"}}
{"timestamp":3,"type":"event_msg","payload":{"type":"agent_reasoning"}}
{"timestamp":4,"type":"event_msg","payload":{"type":"user_message","message":7}}
{"timestamp":5,"type":"response_item","payload":{"type":"message","content":[{"type":"text","text":"no role"}]}}
{"timestamp":6,"type":"brand_new","payload":{"type":"message","role":"user","content":[{"type":"text","text":"x"}]}}
{"timestamp":7,"type":"response_item"}
[1,2,3]
"text"
{"timestamp":"yesterday","type":"event_msg","payload":{"type":"user_message","message":"kept, undated"}}
{"timestamp":8.5,"type":"event_msg","payload":{"type":"agent_reasoning","text":"kept, undated too"}}
"#;
    let c = parse_rollout("/r/rollout-u.jsonl", sample, None).unwrap().unwrap();
    let got: Vec<(&str, Option<i64>)> =
        c.messages.iter().map(|m| (m.content.as_str(), m.created_at)).collect();
    assert_eq!(got, vec![("kept, undated", None), ("kept, undated too", None)]);
}

#[test]
fn first_session_meta_wins() {
    let sample = r#"{"type":"session_meta","payload":{"id":"one","cwd":"/one"}}
{"type":"session_meta","payload":{"id":"two","cwd":"/two","cli_version":"9"}}
{"type":"event_msg","payload":{"type":"user_message","message":"  \n  real first line\nsecond"}}
"#;
    let c = parse_rollout("/r/rollout-s.jsonl", sample, None).unwrap().unwrap();
    assert_eq!(c.workspace, Some("/one".to_string()));
    assert_eq!(c.metadata_get("session_id"), Some("one"));
    assert_eq!(c.metadata_get("cli_version"), None);
    // The first line of the message is blank: so is the title.
    assert_eq!(c.title, Some(String::new()));
}

#[test]
fn title_is_trimmed_first_line() {
    let line = r#"{"type":"event_msg","payload":{"type":"user_message","message":"  \t Fix the bug \r\nplease"}}"#;
    let c = parse_rollout("/r/rollout-t.jsonl", line, None).unwrap().unwrap();
    assert_eq!(c.title, Some("Fix the bug".to_string()));
}

#[test]
fn sessions_dir_joins_with_one_slash() {
    assert_eq!(sessions_dir("/home/u/.codex"), "/home/u/.codex/sessions");
    assert_eq!(sessions_dir("/home/u/.codex/"), "/home/u/.codex/sessions");
    assert_eq!(sessions_dir(""), "/sessions");
}
