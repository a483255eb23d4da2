use coding_agent_search::connectors::codex::{
    consider, content_of, derive_title, draft_of, format_of, is_kept, kind_of, session_of, sift,
    time_bounds, Draft, RecordKind, RolloutFormat, SessionMeta,
};
use coding_agent_search::connectors::json::parse;
use coding_agent_search::connectors::{NormalizedConversation, NormalizedMessage};
use coding_agent_search::model::types::{AgentKind, MessageRole, Snippet};
use coding_agent_search::search::compile::compile_query;
use coding_agent_search::search::highlight::{find_occurrences, fold_case, highlight, matches_at};
use coding_agent_search::seqs::{earlier_of, later_of};

#[test]
fn roles_have_four_names() {
    for (role, name) in [
        (MessageRole::User, "user"),
        (MessageRole::Assistant, "assistant"),
        (MessageRole::System, "system"),
        (MessageRole::Tool, "tool"),
    ] {
        assert_eq!(role.as_str(), name);
        assert_eq!(MessageRole::parse(name), Some(role));
    }
    assert_eq!(MessageRole::parse("User"), None);
    assert_eq!(MessageRole::parse("developer"), None);
    assert_eq!(MessageRole::parse(""), None);
    assert_eq!(MessageRole::parse(" user"), None);
}

#[test]
fn agent_kinds_have_three_names() {
    for (kind, name) in
        [(AgentKind::Cli, "cli"), (AgentKind::Daemon, "daemon"), (AgentKind::Other, "other")]
    {
        assert_eq!(kind.as_str(), name);
        assert_eq!(AgentKind::parse(name), Some(kind));
    }
    assert_eq!(AgentKind::parse("CLI"), None);
    assert_eq!(AgentKind::parse(""), None);
}

#[test]
fn earlier_and_later_of_optional_instants() {
    assert_eq!(later_of(Some(1), Some(2)), Some(2));
    assert_eq!(later_of(Some(2), Some(1)), Some(2));
    assert_eq!(later_of(None, Some(-1)), Some(-1));
    assert_eq!(later_of(Some(-1), None), Some(-1));
    assert_eq!(later_of(None, None), None);
    assert_eq!(earlier_of(Some(1), Some(2)), Some(1));
    assert_eq!(earlier_of(Some(2), Some(1)), Some(1));
    assert_eq!(earlier_of(None, Some(7)), Some(7));
    assert_eq!(earlier_of(Some(7), None), Some(7));
    assert_eq!(earlier_of(None, None), None);
}

fn draft(role: &str, created_at: Option<i64>, content: &str) -> Draft {
    Draft {
        role: role.into(),
        author: None,
        created_at,
        content: content.into(),
        extra: "{}".into(),
    }
}

#[test]
fn sift_drops_blank_and_old_and_numbers_the_rest() {
    let drafts = vec![
        draft("user", Some(10), "first"),
        draft("assistant", Some(20), "   "),
        draft("assistant", Some(5), "too old"),
        draft("tool", None, "undated"),
        draft("user", Some(10), ""),
        draft("system", Some(30), "\u{3000}last\n"),
    ];
    let kept = sift(&drafts, Some(10));
    let got: Vec<(i64, &str, &str)> =
        kept.iter().map(|m| (m.idx, m.role.as_str(), m.content.as_str())).collect();
    assert_eq!(
        got,
        vec![(0, "user", "first"), (1, "tool", "undated"), (2, "system", "\u{3000}last\n")]
    );
    for m in &kept {
        assert!(!m.content.trim().is_empty());
        assert!(m.created_at.map_or(true, |at| at >= 10));
    }
    assert_eq!(sift(&drafts, None).len(), 4);
    assert_eq!(sift(&drafts, Some(31)).len(), 1);
    assert_eq!(sift(&[].to_vec(), None), vec![]);
    assert!(is_kept(&drafts[0], Some(10)));
    assert!(!is_kept(&drafts[0], Some(11)));
    assert!(!is_kept(&drafts[1], None));
}

#[test]
fn consider_appends_with_the_next_number() {
    let mut messages: Vec<NormalizedMessage> = Vec::new();
    consider(&mut messages, draft("user", Some(1), "a"), None);
    consider(&mut messages, draft("user", Some(1), " "), None);
    consider(&mut messages, draft("tool", Some(2), "b"), None);
    assert_eq!(messages.len(), 2);
    assert_eq!(
        messages[1],
        NormalizedMessage {
            idx: 1,
            role: "tool".into(),
            author: None,
            created_at: Some(2),
            content: "b".into(),
            extra: "{}".into(),
            snippets: vec![],
        }
    );
}

#[test]
fn titles_and_bounds() {
    let kept = sift(
        &vec![
            draft("assistant", Some(50), "hello"),
            draft("user", None, "  Title here  \nmore"),
            draft("user", Some(7), "second user"),
        ],
        None,
    );
    assert_eq!(derive_title(&kept), Some("Title here".to_string()));
    assert_eq!(time_bounds(&kept), (Some(7), Some(50)));
    let none = sift(&vec![draft("assistant", None, "x")], None);
    assert_eq!(derive_title(&none), None);
    assert_eq!(time_bounds(&none), (None, None));
    assert_eq!(time_bounds(&vec![]), (None, None));
}

#[test]
fn rollout_formats_by_name() {
    assert_eq!(format_of("/s/rollout-1.jsonl"), Some(RolloutFormat::Modern));
    assert_eq!(format_of("/s/rollout-1.json"), Some(RolloutFormat::Legacy));
    assert_eq!(format_of("/s/rollout-.json"), Some(RolloutFormat::Legacy));
    assert_eq!(format_of("/s/rollout-1.JSON"), None);
    assert_eq!(format_of("/s/rollout.json"), None);
    assert_eq!(format_of("/s/rollout-1.json.bak"), None);
    assert_eq!(format_of("/s/prefix-rollout-1.json"), None);
}

#[test]
fn record_kinds() {
    let kind = |text: &str| kind_of(&parse(text).unwrap());
    assert_eq!(kind(r#"{"type":"session_meta"}"#), RecordKind::SessionMeta);
    assert_eq!(kind(r#"{"type":"session_meta","payload":{"type":"message"}}"#), RecordKind::SessionMeta);
    assert_eq!(kind(r#"{"type":"response_item","payload":{"type":"message"}}"#), RecordKind::Message);
    assert_eq!(kind(r#"{"type":"event_msg","payload":{"type":"agent_reasoning"}}"#), RecordKind::AgentReasoning);
    assert_eq!(kind(r#"{"type":"event_msg","payload":{"type":"user_message"}}"#), RecordKind::UserMessage);
    assert_eq!(kind(r#"{"type":"event_msg","payload":{"type":"token_count"}}"#), RecordKind::Ignored);
    assert_eq!(kind(r#"{"type":"event_msg","payload":{"type":"message"}}"#), RecordKind::Ignored);
    assert_eq!(kind(r#"{"type":"response_item","payload":{"type":"user_message"}}"#), RecordKind::Ignored);
    assert_eq!(kind(r#"{"type":"turn_context","payload":{"turn":1}}"#), RecordKind::Ignored);
    assert_eq!(kind(r#"{"type":"response_item"}"#), RecordKind::Ignored);
    assert_eq!(kind(r#"{"payload":{"type":"message"}}"#), RecordKind::Ignored);
    assert_eq!(kind(r#"{"type":7}"#), RecordKind::Ignored);
    assert_eq!(kind("[]"), RecordKind::Ignored);
}

#[test]
fn drafts_and_sessions_from_records() {
    let line = r#"{"timestamp":12,"type":"event_msg","payload":{"type":"agent_reasoning","text":"hm"}}"#;
    assert_eq!(
        draft_of(&parse(line).unwrap(), line),
        Some(Draft {
            role: "assistant".into(),
            author: Some("reasoning".into()),
            created_at: Some(12),
            content: "hm".into(),
            extra: line.into(),
        })
    );
    let meta = r#"{"type":"session_meta","payload":{"id":"i","cli_version":"1"}}"#;
    assert_eq!(draft_of(&parse(meta).unwrap(), meta), None);
    assert_eq!(
        session_of(&parse(meta).unwrap()),
        Some(SessionMeta { id: Some("i".into()), cwd: None, cli_version: Some("1".into()) })
    );
    assert_eq!(
        session_of(&parse(r#"{"type":"session_meta"}"#).unwrap()),
        Some(SessionMeta { id: None, cwd: None, cli_version: None })
    );
    assert_eq!(session_of(&parse(line).unwrap()), None);
    let content = parse(r#"[{"type":"text","text":"a"},{"type":"input_text","text":"b"}]"#).unwrap();
    assert_eq!(content_of(Some(&content)), "a b");
    assert_eq!(content_of(Some(&parse("\"plain\"").unwrap())), "");
    assert_eq!(content_of(None), "");
}

fn normalized(roles: &[&str]) -> NormalizedConversation {
    NormalizedConversation {
        agent_slug: "codex".into(),
        external_id: Some("rollout-1".into()),
        title: Some("t".into()),
        workspace: Some("/w".into()),
        source_path: "/s/rollout-1.jsonl".into(),
        started_at: Some(1),
        ended_at: Some(2),
        metadata: vec![],
        messages: roles
            .iter()
            .enumerate()
            .map(|(i, role)| NormalizedMessage {
                idx: i as i64,
                role: role.to_string(),
                author: Some("reasoning".into()),
                created_at: Some(i as i64),
                content: format!("m{i}"),
                extra: "{\"x\":1}".into(),
                snippets: vec![Snippet { start: 0, end: 1 }],
            })
            .collect(),
    }
}

#[test]
fn to_conversation_maps_roles_and_keeps_the_rest() {
    let n = normalized(&["user", "assistant", "system", "tool"]);
    let c = n.to_conversation("{\"k\":1}".into()).expect("all roles known");
    assert_eq!(c.id, None);
    assert_eq!(c.agent_slug, "codex");
    assert_eq!(c.workspace, Some("/w".into()));
    assert_eq!(c.external_id, Some("rollout-1".into()));
    assert_eq!(c.title, Some("t".into()));
    assert_eq!(c.source_path, "/s/rollout-1.jsonl");
    assert_eq!((c.started_at, c.ended_at, c.approx_tokens), (Some(1), Some(2), None));
    assert_eq!(c.metadata_json, "{\"k\":1}");
    let roles: Vec<MessageRole> = c.messages.iter().map(|m| m.role).collect();
    assert_eq!(
        roles,
        vec![MessageRole::User, MessageRole::Assistant, MessageRole::System, MessageRole::Tool]
    );
    assert_eq!(c.messages[2].idx, 2);
    assert_eq!(c.messages[2].content, "m2");
    assert_eq!(c.messages[2].extra_json, "{\"x\":1}");
    assert_eq!(c.messages[2].author, Some("reasoning".into()));
    assert_eq!(c.messages[2].snippets, vec![Snippet { start: 0, end: 1 }]);
    assert_eq!(normalized(&["user", "developer"]).to_conversation("{}".into()), None);
    assert!(normalized(&[]).to_conversation("{}".into()).is_some());
}

#[test]
fn occurrences_are_found_letter_case_aside() {
    let text: Vec<char> = "Banana BANDANA".chars().collect();
    let needle: Vec<char> = "ana".chars().collect();
    let mut found = vec![Snippet { start: 99, end: 100 }];
    find_occurrences(&mut found, &text, &needle);
    assert_eq!(
        found,
        vec![
            Snippet { start: 99, end: 100 },
            Snippet { start: 1, end: 4 },
            Snippet { start: 3, end: 6 },
            Snippet { start: 11, end: 14 },
        ]
    );
    assert!(matches_at(&text, &needle, 1));
    assert!(!matches_at(&text, &needle, 0));
    assert!(!matches_at(&text, &needle, 12));
    assert!(!matches_at(&text, &needle, usize::MAX));
    let mut none = vec![];
    find_occurrences(&mut none, &text, &vec![]);
    assert_eq!(none, vec![]);
    assert_eq!(fold_case('A'), 'a' as u32);
    assert_eq!(fold_case('Z'), 'z' as u32);
    assert_eq!(fold_case('a'), 'a' as u32);
    assert_eq!(fold_case('@'), '@' as u32);
    assert_eq!(fold_case('['), '[' as u32);
    assert_eq!(fold_case('É'), 'É' as u32);
}

#[test]
fn highlight_marks_the_words_of_each_clause() {
    let clauses = compile_query("*fig* \"v2 json\" file").unwrap();
    assert_eq!(
        highlight("config_file_v2.json and Figs", &clauses),
        vec![
            Snippet { start: 3, end: 6 },
            Snippet { start: 24, end: 27 },
            Snippet { start: 12, end: 14 },
            Snippet { start: 15, end: 19 },
            Snippet { start: 7, end: 11 },
        ]
    );
    assert_eq!(highlight("nothing here", &compile_query("**").unwrap()), vec![]);
    assert_eq!(highlight("", &clauses), vec![]);
    // Positions count characters, not bytes.
    assert_eq!(
        highlight("héllo wörld", &compile_query("wörld").unwrap()),
        vec![Snippet { start: 6, end: 11 }]
    );
}
