//! The connector for Codex.
//!
//! Codex keeps one file per session, a rollout, named `rollout-*.jsonl` or
//! `rollout-*.json`. A `.jsonl` rollout holds one JSON record per line, each
//! an envelope `{ timestamp, type, payload }`; a `.json` rollout is one JSON
//! object `{ session, items }`. Either is read into drafts of messages, which
//! are then sifted and numbered.

use crate::connectors::json::{parse, parsed_json, Json};
use crate::connectors::paths::{extension, extension_of, file_name, file_stem, name_of, stem_of};
use crate::connectors::timestamp::{instant_of, parse_timestamp};
use crate::connectors::{
    ConnectorError, DetectionResult, MetadataEntry, NormalizedConversation,
    NormalizedConversationView, NormalizedMessage, NormalizedMessageView,
};
use crate::model::types::{role_named, MessageRole};
use crate::seqs::{
    earlier, earlier_of, first_index, later, later_of, lemma_first_index, views,
};
use crate::text::{
    first_line, head_line, is_blank, is_blank_str, join_spaced, join_with_spaces, lines,
    opt_text, same_text, split_lines, starts_with, trim, trimmed,
};
use vstd::prelude::*;

verus! {

/// The two formats of a rollout.
#[derive(Clone, Copy, Debug, PartialEq, Eq, Structural)]
pub enum RolloutFormat {
    /// One envelope per line.
    Modern,
    /// One object for the whole session.
    Legacy,
}

/// The format of the rollout at `path`, by the name of the file: it begins
/// with `rollout-` and its extension is `jsonl` or `json`. No other file is
/// a rollout.
pub open spec fn rollout_format(path: Seq<char>) -> Option<RolloutFormat> {
    if "rollout-"@.is_prefix_of(file_name(path)) {
        if extension(path) == Some("jsonl"@) {
            Some(RolloutFormat::Modern)
        } else if extension(path) == Some("json"@) {
            Some(RolloutFormat::Legacy)
        } else {
            None
        }
    } else {
        None
    }
}

/// The format of the rollout at `path`, if it is one.
pub fn format_of(path: &str) -> (format: Option<RolloutFormat>)
    ensures
        format == rollout_format(path@),
{
    let name = name_of(path);
    if !starts_with(name.as_str(), "rollout-") {
        return None;
    }
    match extension_of(path) {
        Some(ext) => {
            if same_text(ext.as_str(), "jsonl") {
                Some(RolloutFormat::Modern)
            } else if same_text(ext.as_str(), "json") {
                Some(RolloutFormat::Legacy)
            } else {
                None
            }
        },
        None => None,
    }
}

/// The text under `key` in the object `value`, if it has a string there.
pub open spec fn text_at(value: Json, key: Seq<char>) -> Option<Seq<char>> {
    match value.field(key) {
        Some(v) => v.text(),
        None => None,
    }
}

/// The text under `key` in the object `value`, if it has a string there.
pub fn text_field<'a>(value: &'a Json, key: &str) -> (text: Option<&'a str>)
    ensures
        match text {
            Some(t) => text_at(*value, key@) == Some(t@),
            None => text_at(*value, key@) is None,
        },
{
    match value.get(key) {
        Some(v) => v.as_str(),
        None => None,
    }
}

/// A copy of the text under `key` in the object `value`.
fn owned_field(value: &Json, key: &str) -> (text: Option<String>)
    ensures
        opt_text(text) == text_at(*value, key@),
{
    match text_field(value, key) {
        Some(t) => Some(String::from_str(t)),
        None => None,
    }
}

/// What a record of a modern rollout is.
#[derive(Clone, Copy, Debug, PartialEq, Eq, Structural)]
pub enum RecordKind {
    /// `session_meta`: where and by what the session was run.
    SessionMeta,
    /// `response_item` with a payload of type `message`: a message.
    Message,
    /// `event_msg` with a payload of type `agent_reasoning`: what the agent
    /// thought.
    AgentReasoning,
    /// `event_msg` with a payload of type `user_message`: what the user
    /// said.
    UserMessage,
    /// Anything else: passed over.
    Ignored,
}

/// The type that the payload of `record` gives itself.
pub open spec fn payload_type(record: Json) -> Option<Seq<char>> {
    match record.field("payload"@) {
        Some(payload) => text_at(payload, "type"@),
        None => None,
    }
}

/// What `record` is, by its `type` and the `type` of its payload.
pub open spec fn record_kind(record: Json) -> RecordKind {
    let outer = text_at(record, "type"@);
    let inner = payload_type(record);
    if outer == Some("session_meta"@) {
        RecordKind::SessionMeta
    } else if outer == Some("response_item"@) && inner == Some("message"@) {
        RecordKind::Message
    } else if outer == Some("event_msg"@) && inner == Some("agent_reasoning"@) {
        RecordKind::AgentReasoning
    } else if outer == Some("event_msg"@) && inner == Some("user_message"@) {
        RecordKind::UserMessage
    } else {
        RecordKind::Ignored
    }
}

/// Whether an optional text is there and reads `wanted`.
fn reads(text: Option<&str>, wanted: &str) -> (b: bool)
    ensures
        b == (match text {
            Some(t) => t@ == wanted@,
            None => false,
        }),
{
    match text {
        Some(t) => same_text(t, wanted),
        None => false,
    }
}

/// What `record` is.
pub fn kind_of(record: &Json) -> (kind: RecordKind)
    ensures
        kind == record_kind(*record),
{
    let outer = text_field(record, "type");
    let inner = match record.get("payload") {
        Some(payload) => text_field(payload, "type"),
        None => None,
    };
    if reads(outer, "session_meta") {
        RecordKind::SessionMeta
    } else if reads(outer, "response_item") && reads(inner, "message") {
        RecordKind::Message
    } else if reads(outer, "event_msg") && reads(inner, "agent_reasoning") {
        RecordKind::AgentReasoning
    } else if reads(outer, "event_msg") && reads(inner, "user_message") {
        RecordKind::UserMessage
    } else {
        RecordKind::Ignored
    }
}

/// The text of one part of the content of a message: what it has under
/// `text`, if it is of type `input_text` or `text`.
pub open spec fn part_text(part: Json) -> Option<Seq<char>> {
    if text_at(part, "type"@) == Some("input_text"@) || text_at(part, "type"@) == Some("text"@) {
        text_at(part, "text"@)
    } else {
        None
    }
}

/// The texts of the parts that have one, in order.
pub open spec fn part_texts(parts: Seq<Json>) -> Seq<Seq<char>>
    decreases parts.len(),
{
    if parts.len() == 0 {
        Seq::empty()
    } else {
        let before = part_texts(parts.drop_last());
        match part_text(parts.last()) {
            Some(t) => before.push(t),
            None => before,
        }
    }
}

/// The content of a message: the texts of its parts, with one blank between
/// each two. A content that is no array has no text.
pub open spec fn content_text(content: Option<Json>) -> Seq<char> {
    match content {
        Some(Json::List(parts)) => join_spaced(part_texts(parts@)),
        _ => Seq::empty(),
    }
}

/// The content of a message.
pub fn content_of(content: Option<&Json>) -> (text: String)
    ensures
        text@ == content_text(
            match content {
                Some(c) => Some(*c),
                None => None,
            },
        ),
{
    match content {
        Some(Json::List(parts)) => {
            let mut found: Vec<String> = Vec::new();
            let mut i: usize = 0;
            while i < parts.len()
                invariant
                    i <= parts.len(),
                    views(found@) == part_texts(parts@.take(i as int)),
                decreases parts.len() - i,
            {
                proof {
                    assert(parts@.take(i as int + 1).drop_last() =~= parts@.take(i as int));
                }
                let kind = text_field(&parts[i], "type");
                if reads(kind, "input_text") || reads(kind, "text") {
                    let ghost before = views(found@);
                    match text_field(&parts[i], "text") {
                        Some(t) => {
                            found.push(String::from_str(t));
                            assert(views(found@) =~= before.push(t@));
                        },
                        None => {},
                    }
                }
                i = i + 1;
            }
            proof {
                assert(parts@.take(parts.len() as int) =~= parts@);
            }
            join_with_spaces(&found)
        },
        _ => String::new(),
    }
}

/// A message as a rollout gives it, before the messages are sifted and
/// numbered.
#[derive(Clone, Debug, PartialEq, Eq)]
pub struct Draft {
    pub role: String,
    pub author: Option<String>,
    pub created_at: Option<i64>,
    pub content: String,
    pub extra: String,
}

/// What a [`Draft`] holds, as mathematical values.
pub struct DraftView {
    pub role: Seq<char>,
    pub author: Option<Seq<char>>,
    pub created_at: Option<i64>,
    pub content: Seq<char>,
    pub extra: Seq<char>,
}

impl View for Draft {
    type V = DraftView;

    open spec fn view(&self) -> DraftView {
        DraftView {
            role: self.role@,
            author: opt_text(self.author),
            created_at: self.created_at,
            content: self.content@,
            extra: self.extra@,
        }
    }
}

/// Where and by what a session was run.
#[derive(Clone, Debug, PartialEq, Eq)]
pub struct SessionMeta {
    pub id: Option<String>,
    pub cwd: Option<String>,
    pub cli_version: Option<String>,
}

/// What a [`SessionMeta`] holds, as mathematical values.
pub struct SessionMetaView {
    pub id: Option<Seq<char>>,
    pub cwd: Option<Seq<char>>,
    pub cli_version: Option<Seq<char>>,
}

impl View for SessionMeta {
    type V = SessionMetaView;

    open spec fn view(&self) -> SessionMetaView {
        SessionMetaView {
            id: opt_text(self.id),
            cwd: opt_text(self.cwd),
            cli_version: opt_text(self.cli_version),
        }
    }
}

/// The view of an optional session.
pub open spec fn opt_session(session: Option<SessionMeta>) -> Option<SessionMetaView> {
    match session {
        Some(s) => Some(s@),
        None => None,
    }
}

/// The view of an optional draft.
pub open spec fn opt_draft(draft: Option<Draft>) -> Option<DraftView> {
    match draft {
        Some(d) => Some(d@),
        None => None,
    }
}

/// Whether `name` is one of the four roles.
pub open spec fn is_role(name: Seq<char>) -> bool {
    role_named(name) is Some
}

/// The message that the record `record`, read from the text `raw`, gives.
///
/// A `message` gives one if its payload names one of the four roles: with
/// that role, no author, and the texts of its content. An `agent_reasoning`
/// gives one if its payload has a `text`: by `assistant`, with the author
/// `reasoning`. A `user_message` gives one if its payload has a `message`:
/// by `user`. Each is dated by the `timestamp` of the envelope and keeps
/// `raw`. No other record gives a message.
pub open spec fn record_draft(record: Json, raw: Seq<char>) -> Option<DraftView> {
    let payload = record.field("payload"@);
    let created_at = instant_of(record.field("timestamp"@));
    match record_kind(record) {
        RecordKind::Message => match text_at(payload->0, "role"@) {
            Some(role) => if is_role(role) {
                Some(
                    DraftView {
                        role,
                        author: None,
                        created_at,
                        content: content_text(payload->0.field("content"@)),
                        extra: raw,
                    },
                )
            } else {
                None
            },
            None => None,
        },
        RecordKind::AgentReasoning => match text_at(payload->0, "text"@) {
            Some(text) => Some(
                DraftView {
                    role: "assistant"@,
                    author: Some("reasoning"@),
                    created_at,
                    content: text,
                    extra: raw,
                },
            ),
            None => None,
        },
        RecordKind::UserMessage => match text_at(payload->0, "message"@) {
            Some(text) => Some(
                DraftView { role: "user"@, author: None, created_at, content: text, extra: raw },
            ),
            None => None,
        },
        _ => None,
    }
}

/// The message that the record `record`, read from the text `raw`, gives.
pub fn draft_of(record: &Json, raw: &str) -> (draft: Option<Draft>)
    ensures
        opt_draft(draft) == record_draft(*record, raw@),
{
    let kind = kind_of(record);
    let payload = match record.get("payload") {
        Some(p) => p,
        None => {
            return None;
        },
    };
    let created_at = parse_timestamp(record.get("timestamp"));
    match kind {
        RecordKind::Message => match text_field(payload, "role") {
            Some(role) => {
                if MessageRole::parse(role).is_some() {
                    Some(
                        Draft {
                            role: String::from_str(role),
                            author: None,
                            created_at,
                            content: content_of(payload.get("content")),
                            extra: String::from_str(raw),
                        },
                    )
                } else {
                    None
                }
            },
            None => None,
        },
        RecordKind::AgentReasoning => match text_field(payload, "text") {
            Some(text) => Some(
                Draft {
                    role: String::from_str("assistant"),
                    author: Some(String::from_str("reasoning")),
                    created_at,
                    content: String::from_str(text),
                    extra: String::from_str(raw),
                },
            ),
            None => None,
        },
        RecordKind::UserMessage => match text_field(payload, "message") {
            Some(text) => Some(
                Draft {
                    role: String::from_str("user"),
                    author: None,
                    created_at,
                    content: String::from_str(text),
                    extra: String::from_str(raw),
                },
            ),
            None => None,
        },
        _ => None,
    }
}

/// What the record `record` says of the session, if it is a `session_meta`:
/// the `id`, `cwd` and `cli_version` of its payload, as far as they are
/// there.
pub open spec fn record_session(record: Json) -> Option<SessionMetaView> {
    if record_kind(record) == RecordKind::SessionMeta {
        match record.field("payload"@) {
            Some(payload) => Some(
                SessionMetaView {
                    id: text_at(payload, "id"@),
                    cwd: text_at(payload, "cwd"@),
                    cli_version: text_at(payload, "cli_version"@),
                },
            ),
            None => Some(SessionMetaView { id: None, cwd: None, cli_version: None }),
        }
    } else {
        None
    }
}

/// What the record `record` says of the session, if it is a `session_meta`.
pub fn session_of(record: &Json) -> (session: Option<SessionMeta>)
    ensures
        opt_session(session) == record_session(*record),
{
    match kind_of(record) {
        RecordKind::SessionMeta => match record.get("payload") {
            Some(payload) => Some(
                SessionMeta {
                    id: owned_field(payload, "id"),
                    cwd: owned_field(payload, "cwd"),
                    cli_version: owned_field(payload, "cli_version"),
                },
            ),
            None => Some(SessionMeta { id: None, cwd: None, cli_version: None }),
        },
        _ => None,
    }
}

/// Whether a draft is kept: its content is not blank, and it is not dated
/// before `since`. A draft without a date is not dated before anything.
pub open spec fn keeps(draft: DraftView, since: Option<i64>) -> bool {
    !is_blank(draft.content) && match (since, draft.created_at) {
        (Some(limit), Some(at)) => at >= limit,
        _ => true,
    }
}

/// The message that a draft becomes under the number `idx`.
pub open spec fn message_of(draft: DraftView, idx: i64) -> NormalizedMessageView {
    NormalizedMessageView {
        idx,
        role: draft.role,
        author: draft.author,
        created_at: draft.created_at,
        content: draft.content,
        extra: draft.extra,
        snippets: Seq::empty(),
    }
}

/// `messages` after `draft` was looked at: a draft that is kept becomes the
/// next message, numbered by how many there are before it. (A message past
/// the last number of an `i64` is dropped; no text is long enough to hold
/// one.)
pub open spec fn considered(
    messages: Seq<NormalizedMessageView>,
    draft: DraftView,
    since: Option<i64>,
) -> Seq<NormalizedMessageView> {
    if keeps(draft, since) && messages.len() <= i64::MAX {
        messages.push(message_of(draft, messages.len() as i64))
    } else {
        messages
    }
}

/// The messages of a conversation: the drafts that are kept, in their order,
/// numbered from 0 on without gaps.
pub open spec fn sifted(drafts: Seq<DraftView>, since: Option<i64>) -> Seq<NormalizedMessageView>
    decreases drafts.len(),
{
    if drafts.len() == 0 {
        Seq::empty()
    } else {
        considered(sifted(drafts.drop_last(), since), drafts.last(), since)
    }
}

/// Whether a draft is kept.
pub fn is_kept(draft: &Draft, since: Option<i64>) -> (b: bool)
    ensures
        b == keeps(draft@, since),
{
    if is_blank_str(draft.content.as_str()) {
        return false;
    }
    match (since, draft.created_at) {
        (Some(limit), Some(at)) => at >= limit,
        _ => true,
    }
}

/// Looks at one more draft: if it is kept, it becomes the next message.
pub fn consider(messages: &mut Vec<NormalizedMessage>, draft: Draft, since: Option<i64>)
    ensures
        views(final(messages)@) == considered(views(old(messages)@), draft@, since),
{
    if is_kept(&draft, since) && messages.len() as u64 <= i64::MAX as u64 {
        let ghost before = views(messages@);
        let message = NormalizedMessage {
            idx: messages.len() as i64,
            role: draft.role,
            author: draft.author,
            created_at: draft.created_at,
            content: draft.content,
            extra: draft.extra,
            snippets: Vec::new(),
        };
        assert(message@.snippets =~= Seq::empty());
        assert(message@ == message_of(draft@, before.len() as i64));
        messages.push(message);
        assert(views(messages@) =~= before.push(message@));
    }
}

/// The messages of a conversation, from its drafts.
pub fn sift(drafts: &Vec<Draft>, since: Option<i64>) -> (messages: Vec<NormalizedMessage>)
    ensures
        views(messages@) == sifted(views(drafts@), since),
{
    let mut messages: Vec<NormalizedMessage> = Vec::new();
    let mut i: usize = 0;
    assert(views(messages@) =~= Seq::<NormalizedMessageView>::empty());
    while i < drafts.len()
        invariant
            i <= drafts.len(),
            views(messages@) == sifted(views(drafts@).take(i as int), since),
        decreases drafts.len() - i,
    {
        let draft = Draft {
            role: drafts[i].role.clone(),
            author: crate::text::copy_opt_text(&drafts[i].author),
            created_at: drafts[i].created_at,
            content: drafts[i].content.clone(),
            extra: drafts[i].extra.clone(),
        };
        proof {
            assert(draft@ == views(drafts@)[i as int]);
            assert(views(drafts@).take(i as int + 1).drop_last() =~= views(drafts@).take(
                i as int,
            ));
        }
        consider(&mut messages, draft, since);
        i = i + 1;
    }
    assert(views(drafts@).take(drafts.len() as int) =~= views(drafts@));
    messages
}

/// The message that one line of a modern rollout gives: that of its record,
/// if the line is JSON.
pub open spec fn line_draft(line: Seq<char>) -> Option<DraftView> {
    match parsed_json(line) {
        Some(record) => record_draft(record, line),
        None => None,
    }
}

/// What one line of a modern rollout says of the session.
pub open spec fn line_session(line: Seq<char>) -> Option<SessionMetaView> {
    match parsed_json(line) {
        Some(record) => record_session(record),
        None => None,
    }
}

/// The drafts that the lines of a modern rollout give, in order. A line that
/// is no JSON, or whose record gives no message, gives none.
pub open spec fn modern_drafts(lines: Seq<Seq<char>>) -> Seq<DraftView>
    decreases lines.len(),
{
    if lines.len() == 0 {
        Seq::empty()
    } else {
        let before = modern_drafts(lines.drop_last());
        match line_draft(lines.last()) {
            Some(d) => before.push(d),
            None => before,
        }
    }
}

/// What the first `session_meta` among the lines says of the session.
pub open spec fn modern_session(lines: Seq<Seq<char>>) -> Option<SessionMetaView>
    decreases lines.len(),
{
    if lines.len() == 0 {
        None
    } else {
        match modern_session(lines.drop_last()) {
            Some(session) => Some(session),
            None => line_session(lines.last()),
        }
    }
}

/// The message that one item of a legacy rollout gives: one if the item
/// names one of the four roles and has a string as `content`, dated by its
/// `timestamp`.
pub open spec fn item_draft(item: Json) -> Option<DraftView> {
    match (text_at(item, "role"@), text_at(item, "content"@)) {
        (Some(role), Some(content)) => if is_role(role) {
            Some(
                DraftView {
                    role,
                    author: None,
                    created_at: instant_of(item.field("timestamp"@)),
                    content,
                    extra: "{}"@,
                },
            )
        } else {
            None
        },
        _ => None,
    }
}

/// The drafts that the items of a legacy rollout give, in order.
pub open spec fn legacy_drafts(items: Seq<Json>) -> Seq<DraftView>
    decreases items.len(),
{
    if items.len() == 0 {
        Seq::empty()
    } else {
        let before = legacy_drafts(items.drop_last());
        match item_draft(items.last()) {
            Some(d) => before.push(d),
            None => before,
        }
    }
}

/// The items of a legacy rollout: what its root has under `items`, if that
/// is an array.
pub open spec fn legacy_items(root: Json) -> Seq<Json> {
    match root.field("items"@) {
        Some(Json::List(items)) => items@,
        _ => Seq::empty(),
    }
}

/// What a legacy rollout says of the session: the `id` and `cwd` that its
/// root has under `session`.
pub open spec fn legacy_session(root: Json) -> SessionMetaView {
    match root.field("session"@) {
        Some(session) => SessionMetaView {
            id: text_at(session, "id"@),
            cwd: text_at(session, "cwd"@),
            cli_version: None,
        },
        None => SessionMetaView { id: None, cwd: None, cli_version: None },
    }
}

/// One entry under `key`, if there is a value for it.
pub open spec fn entry_if(key: Seq<char>, value: Option<Seq<char>>) -> Seq<(Seq<char>, Seq<char>)> {
    match value {
        Some(v) => seq![(key, v)],
        None => Seq::empty(),
    }
}

/// The metadata of a conversation read from a modern rollout: the id of the
/// session under `session_id` and the version of the agent under
/// `cli_version`, each if it is known.
pub open spec fn modern_metadata(session: Option<SessionMetaView>) -> Seq<(Seq<char>, Seq<char>)> {
    match session {
        Some(s) => entry_if("session_id"@, s.id) + entry_if("cli_version"@, s.cli_version),
        None => Seq::empty(),
    }
}

/// The metadata of a conversation read from a legacy rollout: `rollout_json`
/// under `source`, and the id of the session under `session_id` if it is
/// known.
pub open spec fn legacy_metadata(session: SessionMetaView) -> Seq<(Seq<char>, Seq<char>)> {
    seq![("source"@, "rollout_json"@)] + entry_if("session_id"@, session.id)
}

/// The test "this message is by the user".
pub open spec fn by_user() -> spec_fn(NormalizedMessageView) -> bool {
    |m: NormalizedMessageView| m.role == "user"@
}

/// The title of a conversation: the first line of its first message by the
/// user, trimmed; none if the user wrote no message.
pub open spec fn title_of(messages: Seq<NormalizedMessageView>) -> Option<Seq<char>> {
    let at = first_index(messages, by_user());
    if at < messages.len() {
        Some(trimmed(first_line(messages[at].content)))
    } else {
        None
    }
}

/// The earliest date among `messages`, if any of them has one.
pub open spec fn earliest_created(messages: Seq<NormalizedMessageView>) -> Option<i64>
    decreases messages.len(),
{
    if messages.len() == 0 {
        None
    } else {
        earlier(earliest_created(messages.drop_last()), messages.last().created_at)
    }
}

/// The latest date among `messages`, if any of them has one.
pub open spec fn latest_created(messages: Seq<NormalizedMessageView>) -> Option<i64>
    decreases messages.len(),
{
    if messages.len() == 0 {
        None
    } else {
        later(latest_created(messages.drop_last()), messages.last().created_at)
    }
}

/// The conversation that a rollout at `path` with these messages gives; none
/// if there are no messages.
pub open spec fn conversation_of(
    path: Seq<char>,
    workspace: Option<Seq<char>>,
    metadata: Seq<(Seq<char>, Seq<char>)>,
    messages: Seq<NormalizedMessageView>,
) -> Option<NormalizedConversationView> {
    if messages.len() == 0 {
        None
    } else {
        Some(
            NormalizedConversationView {
                agent_slug: "codex"@,
                external_id: Some(file_stem(path)),
                title: title_of(messages),
                workspace,
                source_path: path,
                started_at: earliest_created(messages),
                ended_at: latest_created(messages),
                metadata,
                messages,
            },
        )
    }
}

/// The directory in which a session was run, if the rollout says.
pub open spec fn workspace_of(session: Option<SessionMetaView>) -> Option<Seq<char>> {
    match session {
        Some(s) => s.cwd,
        None => None,
    }
}

/// What the file at `path` with the content `text` gives.
///
/// A file that is no rollout gives nothing. A modern rollout gives the
/// conversation of the messages of its lines; a line that cannot be read is
/// passed over. A legacy rollout that is no JSON is a `Parse` error; one
/// that is gives the conversation of the messages of its items. In both, a
/// rollout of which no message is kept gives nothing.
pub open spec fn codex_rollout(path: Seq<char>, text: Seq<char>, since: Option<i64>) -> Result<
    Option<NormalizedConversationView>,
    ConnectorError,
> {
    match rollout_format(path) {
        None => Ok(None),
        Some(RolloutFormat::Modern) => {
            let lines = split_lines(text);
            let session = modern_session(lines);
            Ok(
                conversation_of(
                    path,
                    workspace_of(session),
                    modern_metadata(session),
                    sifted(modern_drafts(lines), since),
                ),
            )
        },
        Some(RolloutFormat::Legacy) => match parsed_json(text) {
            None => Err(ConnectorError::Parse),
            Some(root) => {
                let session = legacy_session(root);
                Ok(
                    conversation_of(
                        path,
                        session.cwd,
                        legacy_metadata(session),
                        sifted(legacy_drafts(legacy_items(root)), since),
                    ),
                )
            },
        },
    }
}

/// The title of a conversation.
pub fn derive_title(messages: &Vec<NormalizedMessage>) -> (title: Option<String>)
    ensures
        opt_text(title) == title_of(views(messages@)),
{
    let mut i: usize = 0;
    while i < messages.len()
        invariant
            i <= messages.len(),
            forall|j: int| 0 <= j < i ==> !by_user()(#[trigger] views(messages@)[j]),
        decreases messages.len() - i,
    {
        if same_text(messages[i].role.as_str(), "user") {
            proof {
                assert(by_user()(views(messages@)[i as int]));
                lemma_first_index(views(messages@), by_user(), i as int);
            }
            let line = head_line(messages[i].content.as_str());
            return Some(trim(line.as_str()));
        }
        assert(!by_user()(views(messages@)[i as int]));
        i = i + 1;
    }
    proof {
        lemma_first_index(views(messages@), by_user(), i as int);
    }
    None
}

/// The earliest and the latest date among `messages`.
pub fn time_bounds(messages: &Vec<NormalizedMessage>) -> (bounds: (Option<i64>, Option<i64>))
    ensures
        bounds.0 == earliest_created(views(messages@)),
        bounds.1 == latest_created(views(messages@)),
{
    let mut first: Option<i64> = None;
    let mut last: Option<i64> = None;
    let mut i: usize = 0;
    while i < messages.len()
        invariant
            i <= messages.len(),
            first == earliest_created(views(messages@).take(i as int)),
            last == latest_created(views(messages@).take(i as int)),
        decreases messages.len() - i,
    {
        proof {
            assert(views(messages@).take(i as int + 1).drop_last() =~= views(messages@).take(
                i as int,
            ));
        }
        first = earlier_of(first, messages[i].created_at);
        last = later_of(last, messages[i].created_at);
        i = i + 1;
    }
    proof {
        assert(views(messages@).take(messages.len() as int) =~= views(messages@));
    }
    (first, last)
}

/// The conversation that a rollout at `path` with these messages gives.
pub fn assemble(
    path: &str,
    workspace: Option<String>,
    metadata: Vec<MetadataEntry>,
    messages: Vec<NormalizedMessage>,
) -> (conversation: Option<NormalizedConversation>)
    ensures
        opt_conversation(conversation) == conversation_of(
            path@,
            opt_text(workspace),
            views(metadata@),
            views(messages@),
        ),
{
    if messages.len() == 0 {
        return None;
    }
    let title = derive_title(&messages);
    let (started_at, ended_at) = time_bounds(&messages);
    Some(
        NormalizedConversation {
            agent_slug: String::from_str("codex"),
            external_id: Some(stem_of(path)),
            title,
            workspace,
            source_path: String::from_str(path),
            started_at,
            ended_at,
            metadata,
            messages,
        },
    )
}

/// The view of an optional conversation.
pub open spec fn opt_conversation(conversation: Option<NormalizedConversation>) -> Option<
    NormalizedConversationView,
> {
    match conversation {
        Some(c) => Some(c@),
        None => None,
    }
}

/// The view of what reading a rollout gave.
pub open spec fn outcome_view(outcome: Result<Option<NormalizedConversation>, ConnectorError>) -> Result<
    Option<NormalizedConversationView>,
    ConnectorError,
> {
    match outcome {
        Ok(conversation) => Ok(opt_conversation(conversation)),
        Err(e) => Err(e),
    }
}

/// Adds an entry under `key` if there is a value for it.
fn push_entry(metadata: &mut Vec<MetadataEntry>, key: &str, value: &Option<String>)
    ensures
        views(final(metadata)@) == views(old(metadata)@) + entry_if(key@, opt_text(*value)),
{
    let ghost before = views(metadata@);
    match value {
        Some(v) => {
            let entry = MetadataEntry { key: String::from_str(key), value: v.clone() };
            metadata.push(entry);
            assert(views(metadata@) =~= before + seq![(key@, v@)]);
        },
        None => {
            assert(views(metadata@) =~= before + Seq::<(Seq<char>, Seq<char>)>::empty());
        },
    }
}

/// Reads a modern rollout.
fn read_modern(path: &str, text: &str, since: Option<i64>) -> (conversation: Option<
    NormalizedConversation,
>)
    ensures
        ({
            let lines = split_lines(text@);
            let session = modern_session(lines);
            opt_conversation(conversation) == conversation_of(
                path@,
                workspace_of(session),
                modern_metadata(session),
                sifted(modern_drafts(lines), since),
            )
        }),
{
    let pieces = lines(text);
    let ghost all = views(pieces@);
    let mut session: Option<SessionMeta> = None;
    let mut messages: Vec<NormalizedMessage> = Vec::new();
    let ghost mut drafts: Seq<DraftView> = Seq::empty();
    let mut i: usize = 0;
    assert(views(messages@) =~= Seq::<NormalizedMessageView>::empty());
    while i < pieces.len()
        invariant
            i <= pieces.len(),
            all == views(pieces@),
            drafts == modern_drafts(all.take(i as int)),
            opt_session(session) == modern_session(all.take(i as int)),
            views(messages@) == sifted(drafts, since),
        decreases pieces.len() - i,
    {
        let line = pieces[i].as_str();
        proof {
            assert(all.take(i as int + 1).drop_last() =~= all.take(i as int));
            assert(all.take(i as int + 1).last() == line@);
        }
        match parse(line) {
            Some(record) => {
                if session.is_none() {
                    session = session_of(&record);
                }
                match draft_of(&record, line) {
                    Some(draft) => {
                        proof {
                            assert(drafts.push(draft@).drop_last() =~= drafts);
                            drafts = drafts.push(draft@);
                        }
                        consider(&mut messages, draft, since);
                    },
                    None => {},
                }
            },
            None => {},
        }
        i = i + 1;
    }
    proof {
        assert(all.take(pieces.len() as int) =~= all);
    }
    let mut metadata: Vec<MetadataEntry> = Vec::new();
    assert(views(metadata@) =~= Seq::<(Seq<char>, Seq<char>)>::empty());
    let workspace = match session {
        Some(s) => {
            push_entry(&mut metadata, "session_id", &s.id);
            push_entry(&mut metadata, "cli_version", &s.cli_version);
            assert(views(metadata@) =~= modern_metadata(Some(s@)));
            s.cwd
        },
        None => None,
    };
    assemble(path, workspace, metadata, messages)
}

/// Reads the root of a legacy rollout.
fn read_legacy(path: &str, root: &Json, since: Option<i64>) -> (conversation: Option<
    NormalizedConversation,
>)
    ensures
        ({
            let session = legacy_session(*root);
            opt_conversation(conversation) == conversation_of(
                path@,
                session.cwd,
                legacy_metadata(session),
                sifted(legacy_drafts(legacy_items(*root)), since),
            )
        }),
{
    let session = match root.get("session") {
        Some(s) => SessionMeta {
            id: owned_field(s, "id"),
            cwd: owned_field(s, "cwd"),
            cli_version: None,
        },
        None => SessionMeta { id: None, cwd: None, cli_version: None },
    };
    assert(session@ == legacy_session(*root));
    let mut messages: Vec<NormalizedMessage> = Vec::new();
    assert(views(messages@) =~= Seq::<NormalizedMessageView>::empty());
    match root.get("items") {
        Some(Json::List(items)) => {
            let ghost mut drafts: Seq<DraftView> = Seq::empty();
            let mut i: usize = 0;
            while i < items.len()
                invariant
                    i <= items.len(),
                    drafts == legacy_drafts(items@.take(i as int)),
                    views(messages@) == sifted(drafts, since),
                decreases items.len() - i,
            {
                let item = &items[i];
                proof {
                    assert(items@.take(i as int + 1).drop_last() =~= items@.take(i as int));
                }
                match (text_field(item, "role"), text_field(item, "content")) {
                    (Some(role), Some(content)) => {
                        if MessageRole::parse(role).is_some() {
                            let draft = Draft {
                                role: String::from_str(role),
                                author: None,
                                created_at: parse_timestamp(item.get("timestamp")),
                                content: String::from_str(content),
                                extra: String::from_str("{}"),
                            };
                            proof {
                                assert(Some(draft@) == item_draft(*item));
                                assert(drafts.push(draft@).drop_last() =~= drafts);
                                drafts = drafts.push(draft@);
                            }
                            consider(&mut messages, draft, since);
                        }
                    },
                    _ => {},
                }
                i = i + 1;
            }
            proof {
                assert(items@.take(items.len() as int) =~= items@);
            }
        },
        _ => {},
    }
    let mut metadata: Vec<MetadataEntry> = Vec::new();
    metadata.push(
        MetadataEntry { key: String::from_str("source"), value: String::from_str("rollout_json") },
    );
    assert(views(metadata@) =~= seq![("source"@, "rollout_json"@)]);
    push_entry(&mut metadata, "session_id", &session.id);
    assemble(path, session.cwd, metadata, messages)
}

/// Reads the file at `path`, whose content is `text`, into a conversation.
/// Messages dated before `since_ts` are left out.
pub fn parse_rollout(path: &str, text: &str, since_ts: Option<i64>) -> (outcome: Result<
    Option<NormalizedConversation>,
    ConnectorError,
>)
    ensures
        outcome_view(outcome) == codex_rollout(path@, text@, since_ts),
{
    match format_of(path) {
        None => Ok(None),
        Some(RolloutFormat::Modern) => Ok(read_modern(path, text, since_ts)),
        Some(RolloutFormat::Legacy) => match parse(text) {
            None => Err(ConnectorError::Parse),
            Some(root) => Ok(read_legacy(path, &root, since_ts)),
        },
    }
}

/// A file of the store of the agent, as read from disk.
#[derive(Clone, Debug, PartialEq, Eq)]
pub struct RolloutFile {
    pub path: String,
    pub text: String,
}

impl View for RolloutFile {
    type V = (Seq<char>, Seq<char>);

    open spec fn view(&self) -> (Seq<char>, Seq<char>) {
        (self.path@, self.text@)
    }
}

/// The conversations that the files give, in the order of the files. A file
/// gives at most one; a file that is no rollout, that cannot be read as one,
/// or of which no message is kept gives none.
pub open spec fn scanned(files: Seq<(Seq<char>, Seq<char>)>, since: Option<i64>) -> Seq<
    NormalizedConversationView,
>
    decreases files.len(),
{
    if files.len() == 0 {
        Seq::empty()
    } else {
        let before = scanned(files.drop_last(), since);
        match codex_rollout(files.last().0, files.last().1, since) {
            Ok(Some(conversation)) => before.push(conversation),
            _ => before,
        }
    }
}

/// Reads the files of the store into conversations. Messages dated before
/// `since_ts` are left out.
pub fn scan_files(files: &Vec<RolloutFile>, since_ts: Option<i64>) -> (conversations: Vec<
    NormalizedConversation,
>)
    ensures
        views(conversations@) == scanned(views(files@), since_ts),
{
    let mut conversations: Vec<NormalizedConversation> = Vec::new();
    let mut i: usize = 0;
    assert(views(conversations@) =~= Seq::<NormalizedConversationView>::empty());
    while i < files.len()
        invariant
            i <= files.len(),
            views(conversations@) == scanned(views(files@).take(i as int), since_ts),
        decreases files.len() - i,
    {
        proof {
            assert(views(files@).take(i as int + 1).drop_last() =~= views(files@).take(i as int));
            assert(views(files@).take(i as int + 1).last() == files[i as int]@);
        }
        let ghost before = views(conversations@);
        match parse_rollout(files[i].path.as_str(), files[i].text.as_str(), since_ts) {
            Ok(Some(conversation)) => {
                conversations.push(conversation);
                assert(views(conversations@) =~= before.push(conversation@));
            },
            _ => {},
        }
        i = i + 1;
    }
    proof {
        assert(views(files@).take(files.len() as int) =~= views(files@));
    }
    conversations
}

/// Where the sessions lie under the root of the store: in its directory
/// `sessions`.
pub open spec fn sessions_path(data_root: Seq<char>) -> Seq<char> {
    if data_root.len() > 0 && data_root.last() == '/' {
        data_root + "sessions"@
    } else {
        data_root + "/sessions"@
    }
}

/// Where the sessions lie under the root of the store.
pub fn sessions_dir(data_root: &str) -> (path: String)
    ensures
        path@ == sessions_path(data_root@),
{
    let n = data_root.unicode_len();
    let ends_in_slash = n > 0 && data_root.get_char(n - 1) == '/';
    if ends_in_slash {
        String::from_str(data_root).concat("sessions")
    } else {
        String::from_str(data_root).concat("/sessions")
    }
}

/// Whether the store is there: it is if `sessions` is a directory, and the
/// path of that directory is the evidence.
pub fn detection(sessions: &str, is_directory: bool) -> (found: DetectionResult)
    ensures
        found.detected == is_directory,
        views(found.evidence@) == (if is_directory {
            seq![sessions@]
        } else {
            Seq::empty()
        }),
{
    let mut evidence: Vec<String> = Vec::new();
    if is_directory {
        evidence.push(String::from_str(sessions));
        assert(views(evidence@) =~= seq![sessions@]);
    } else {
        assert(views(evidence@) =~= Seq::<Seq<char>>::empty());
    }
    DetectionResult { detected: is_directory, evidence }
}

/// What holds of the messages that sifting gives: each is numbered by its
/// place, none is blank, and none is dated before `since`. There are no more
/// of them than drafts.
pub proof fn lemma_sifted(drafts: Seq<DraftView>, since: Option<i64>)
    ensures
        sifted(drafts, since).len() <= drafts.len(),
        forall|i: int|
            0 <= i < sifted(drafts, since).len() ==> {
                let m = #[trigger] sifted(drafts, since)[i];
                &&& m.idx == i
                &&& !is_blank(m.content)
                &&& (since is Some && m.created_at is Some ==> m.created_at->0 >= since->0)
            },
    decreases drafts.len(),
{
    if drafts.len() > 0 {
        lemma_sifted(drafts.drop_last(), since);
    }
}

/// The messages of the conversation that a file gives, if it gives one.
pub open spec fn rollout_messages(path: Seq<char>, text: Seq<char>, since: Option<i64>) -> Seq<
    NormalizedMessageView,
> {
    match codex_rollout(path, text, since) {
        Ok(Some(conversation)) => conversation.messages,
        _ => Seq::empty(),
    }
}

/// The messages of a conversation read from a file are sifted drafts.
proof fn lemma_rollout_is_sifted(path: Seq<char>, text: Seq<char>, since: Option<i64>)
    ensures
        exists|drafts: Seq<DraftView>| rollout_messages(path, text, since) == sifted(drafts, since),
{
    match rollout_format(path) {
        Some(RolloutFormat::Modern) => {
            let drafts = modern_drafts(split_lines(text));
            if sifted(drafts, since).len() == 0 {
                assert(rollout_messages(path, text, since) =~= sifted(drafts, since));
            }
            assert(rollout_messages(path, text, since) == sifted(drafts, since));
        },
        Some(RolloutFormat::Legacy) => {
            match parsed_json(text) {
                Some(root) => {
                    let drafts = legacy_drafts(legacy_items(root));
                    if sifted(drafts, since).len() == 0 {
                        assert(rollout_messages(path, text, since) =~= sifted(drafts, since));
                    }
                    assert(rollout_messages(path, text, since) == sifted(drafts, since));
                },
                None => {
                    assert(rollout_messages(path, text, since) == sifted(Seq::empty(), since));
                },
            }
        },
        None => {
            assert(rollout_messages(path, text, since) == sifted(Seq::empty(), since));
        },
    }
}

/// No message that a file gives is blank: each has something left when it is
/// trimmed.
pub proof fn lemma_no_blank_message(path: Seq<char>, text: Seq<char>, since: Option<i64>)
    ensures
        forall|i: int|
            0 <= i < rollout_messages(path, text, since).len() ==> trimmed(
                (#[trigger] rollout_messages(path, text, since)[i]).content,
            ).len() > 0,
{
    lemma_rollout_is_sifted(path, text, since);
    let drafts = choose|drafts: Seq<DraftView>|
        rollout_messages(path, text, since) == sifted(drafts, since);
    lemma_sifted(drafts, since);
    assert forall|i: int| 0 <= i < rollout_messages(path, text, since).len() implies trimmed(
        (#[trigger] rollout_messages(path, text, since)[i]).content,
    ).len() > 0 by {
        crate::text::lemma_trimmed_empty_iff_blank(rollout_messages(path, text, since)[i].content);
    }
}

/// No message that a file gives is dated before `since`.
pub proof fn lemma_no_message_before_since(path: Seq<char>, text: Seq<char>, since: i64)
    ensures
        forall|i: int|
            0 <= i < rollout_messages(path, text, Some(since)).len() ==> ((
            #[trigger] rollout_messages(path, text, Some(since))[i]).created_at matches Some(at)
                ==> at >= since),
{
    lemma_rollout_is_sifted(path, text, Some(since));
    let drafts = choose|drafts: Seq<DraftView>|
        rollout_messages(path, text, Some(since)) == sifted(drafts, Some(since));
    lemma_sifted(drafts, Some(since));
}

/// The messages that a file gives are numbered from 0 on without gaps, in
/// their order; a conversation that a file gives has at least one.
pub proof fn lemma_messages_numbered(path: Seq<char>, text: Seq<char>, since: Option<i64>)
    ensures
        forall|i: int|
            0 <= i < rollout_messages(path, text, since).len() ==> (#[trigger] rollout_messages(
                path,
                text,
                since,
            )[i]).idx == i,
        codex_rollout(path, text, since) matches Ok(Some(c)) ==> c.messages.len() > 0,
{
    lemma_rollout_is_sifted(path, text, since);
    let drafts = choose|drafts: Seq<DraftView>|
        rollout_messages(path, text, since) == sifted(drafts, since);
    lemma_sifted(drafts, since);
}

/// Each conversation of a scan is what one of the files gives.
pub proof fn lemma_scanned_from_files(files: Seq<(Seq<char>, Seq<char>)>, since: Option<i64>)
    ensures
        scanned(files, since).len() <= files.len(),
        forall|k: int|
            0 <= k < scanned(files, since).len() ==> exists|i: int|
                0 <= i < files.len() && codex_rollout(files[i].0, files[i].1, since) == Ok::<
                    Option<NormalizedConversationView>,
                    ConnectorError,
                >(Some(#[trigger] scanned(files, since)[k])),
    decreases files.len(),
{
    if files.len() > 0 {
        let front = files.drop_last();
        lemma_scanned_from_files(front, since);
        assert forall|k: int| 0 <= k < scanned(files, since).len() implies exists|i: int|
            0 <= i < files.len() && codex_rollout(files[i].0, files[i].1, since) == Ok::<
                Option<NormalizedConversationView>,
                ConnectorError,
            >(Some(#[trigger] scanned(files, since)[k])) by {
            if k < scanned(front, since).len() {
                let i = choose|i: int|
                    0 <= i < front.len() && codex_rollout(front[i].0, front[i].1, since) == Ok::<
                        Option<NormalizedConversationView>,
                        ConnectorError,
                    >(Some(scanned(front, since)[k]));
                assert(files[i] == front[i]);
            } else {
                let i = files.len() - 1;
                assert(codex_rollout(files[i].0, files[i].1, since) == Ok::<
                    Option<NormalizedConversationView>,
                    ConnectorError,
                >(Some(scanned(files, since)[k])));
            }
        }
    }
}

/// What holds of every message of every conversation of a scan: it is not
/// blank, it is not dated before `since`, and it is numbered by its place.
pub proof fn lemma_scanned_messages(files: Seq<(Seq<char>, Seq<char>)>, since: Option<i64>)
    ensures
        forall|k: int, j: int|
            0 <= k < scanned(files, since).len() && 0 <= j < scanned(
                files,
                since,
            )[k].messages.len() ==> {
                let m = #[trigger] scanned(files, since)[k].messages[j];
                &&& trimmed(m.content).len() > 0
                &&& m.idx == j
                &&& (since is Some && m.created_at is Some ==> m.created_at->0 >= since->0)
            },
{
    lemma_scanned_from_files(files, since);
    assert forall|k: int, j: int|
        0 <= k < scanned(files, since).len() && 0 <= j < scanned(
            files,
            since,
        )[k].messages.len() implies {
        let m = #[trigger] scanned(files, since)[k].messages[j];
        &&& trimmed(m.content).len() > 0
        &&& m.idx == j
        &&& (since is Some && m.created_at is Some ==> m.created_at->0 >= since->0)
    } by {
        let c = scanned(files, since)[k];
        let i = choose|i: int|
            0 <= i < files.len() && codex_rollout(files[i].0, files[i].1, since) == Ok::<
                Option<NormalizedConversationView>,
                ConnectorError,
            >(Some(c));
        assert(rollout_messages(files[i].0, files[i].1, since) == c.messages);
        lemma_no_blank_message(files[i].0, files[i].1, since);
        lemma_messages_numbered(files[i].0, files[i].1, since);
        if since is Some {
            lemma_no_message_before_since(files[i].0, files[i].1, since->0);
        }
        assert(rollout_messages(files[i].0, files[i].1, since)[j] == c.messages[j]);
    }
}

/// The earliest date among messages is there exactly when the latest is,
/// and is no later than it.
pub proof fn lemma_bounds_in_order(messages: Seq<NormalizedMessageView>)
    ensures
        earliest_created(messages) is Some <==> latest_created(messages) is Some,
        earliest_created(messages) matches Some(first) ==> latest_created(messages) matches Some(
            last,
        ) && first <= last,
    decreases messages.len(),
{
    if messages.len() > 0 {
        lemma_bounds_in_order(messages.drop_last());
    }
}

/// The test "this draft is kept".
pub open spec fn kept(since: Option<i64>) -> spec_fn(DraftView) -> bool {
    |draft: DraftView| keeps(draft, since)
}

/// `drafts` as messages, each numbered by its place.
pub open spec fn numbered(drafts: Seq<DraftView>) -> Seq<NormalizedMessageView> {
    Seq::new(drafts.len(), |i: int| message_of(drafts[i], i as i64))
}

/// Sifting keeps every draft that is to be kept and no other, in their
/// order: the messages are the kept drafts, numbered by their place.
pub proof fn lemma_sifted_is_filter(drafts: Seq<DraftView>, since: Option<i64>)
    requires
        drafts.len() <= i64::MAX,
    ensures
        sifted(drafts, since) == numbered(drafts.filter(kept(since))),
    decreases drafts.len(),
{
    if drafts.len() == 0 {
        assert(drafts.filter(kept(since)) =~= Seq::<DraftView>::empty()) by {
            reveal(Seq::filter);
        }
        assert(sifted(drafts, since) =~= numbered(drafts.filter(kept(since))));
    } else {
        let front = drafts.drop_last();
        lemma_sifted_is_filter(front, since);
        assert(drafts =~= front.push(drafts.last()));
        front.lemma_filter_push(drafts.last(), kept(since));
        front.lemma_filter_len(kept(since));
        assert(sifted(drafts, since) =~= numbered(drafts.filter(kept(since))));
    }
}

} // verus!
