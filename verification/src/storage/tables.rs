//! The tables of the store, as plain rows.

use crate::model::types::{AgentKind, MessageRole};
use crate::seqs::{top_id, views};
use crate::text::{opt_text, same_opt_text};
use std::collections::HashSet;
use vstd::prelude::*;

verus! {

/// The schema version this library reads and writes.
pub const SCHEMA_VERSION: i64 = 3;

/// A row of `agents`.
#[derive(Clone, Debug, PartialEq, Eq)]
pub struct AgentRow {
    pub id: i64,
    pub slug: String,
    pub name: String,
    pub version: Option<String>,
    pub kind: AgentKind,
}

/// What an [`AgentRow`] holds, as mathematical values.
pub struct AgentRowView {
    pub id: i64,
    pub slug: Seq<char>,
    pub name: Seq<char>,
    pub version: Option<Seq<char>>,
    pub kind: AgentKind,
}

impl View for AgentRow {
    type V = AgentRowView;

    open spec fn view(&self) -> AgentRowView {
        AgentRowView {
            id: self.id,
            slug: self.slug@,
            name: self.name@,
            version: opt_text(self.version),
            kind: self.kind,
        }
    }
}

/// A row of `workspaces`.
#[derive(Clone, Debug, PartialEq, Eq)]
pub struct WorkspaceRow {
    pub id: i64,
    pub path: String,
    pub name: Option<String>,
}

/// What a [`WorkspaceRow`] holds, as mathematical values.
pub struct WorkspaceRowView {
    pub id: i64,
    pub path: Seq<char>,
    pub name: Option<Seq<char>>,
}

impl View for WorkspaceRow {
    type V = WorkspaceRowView;

    open spec fn view(&self) -> WorkspaceRowView {
        WorkspaceRowView { id: self.id, path: self.path@, name: opt_text(self.name) }
    }
}

/// A row of `conversations`.
#[derive(Clone, Debug, PartialEq, Eq)]
pub struct ConversationRow {
    pub id: i64,
    pub agent_id: i64,
    pub workspace_id: Option<i64>,
    pub external_id: Option<String>,
    pub title: Option<String>,
    pub source_path: String,
    pub started_at: Option<i64>,
    pub ended_at: Option<i64>,
    pub approx_tokens: Option<i64>,
    pub metadata_json: String,
}

/// What a [`ConversationRow`] holds, as mathematical values.
pub struct ConversationRowView {
    pub id: i64,
    pub agent_id: i64,
    pub workspace_id: Option<i64>,
    pub external_id: Option<Seq<char>>,
    pub title: Option<Seq<char>>,
    pub source_path: Seq<char>,
    pub started_at: Option<i64>,
    pub ended_at: Option<i64>,
    pub approx_tokens: Option<i64>,
    pub metadata_json: Seq<char>,
}

impl View for ConversationRow {
    type V = ConversationRowView;

    open spec fn view(&self) -> ConversationRowView {
        ConversationRowView {
            id: self.id,
            agent_id: self.agent_id,
            workspace_id: self.workspace_id,
            external_id: opt_text(self.external_id),
            title: opt_text(self.title),
            source_path: self.source_path@,
            started_at: self.started_at,
            ended_at: self.ended_at,
            approx_tokens: self.approx_tokens,
            metadata_json: self.metadata_json@,
        }
    }
}

/// A row of `messages`.
#[derive(Clone, Debug, PartialEq, Eq)]
pub struct MessageRow {
    pub id: i64,
    pub conversation_id: i64,
    pub idx: i64,
    pub role: MessageRole,
    pub author: Option<String>,
    pub created_at: Option<i64>,
    pub content: String,
    pub extra_json: String,
}

/// What a [`MessageRow`] holds, as mathematical values.
pub struct MessageRowView {
    pub id: i64,
    pub conversation_id: i64,
    pub idx: i64,
    pub role: MessageRole,
    pub author: Option<Seq<char>>,
    pub created_at: Option<i64>,
    pub content: Seq<char>,
    pub extra_json: Seq<char>,
}

impl View for MessageRow {
    type V = MessageRowView;

    open spec fn view(&self) -> MessageRowView {
        MessageRowView {
            id: self.id,
            conversation_id: self.conversation_id,
            idx: self.idx,
            role: self.role,
            author: opt_text(self.author),
            created_at: self.created_at,
            content: self.content@,
            extra_json: self.extra_json@,
        }
    }
}

/// A row of `fts_messages`, the full-text mirror of `messages`: the text of
/// one message, tied to it by `rowid`.
#[derive(Clone, Debug, PartialEq, Eq)]
pub struct FtsRow {
    pub rowid: i64,
    pub content: String,
    pub role: MessageRole,
    pub author: Option<String>,
}

/// What an [`FtsRow`] holds, as mathematical values.
pub struct FtsRowView {
    pub rowid: i64,
    pub content: Seq<char>,
    pub role: MessageRole,
    pub author: Option<Seq<char>>,
}

impl View for FtsRow {
    type V = FtsRowView;

    open spec fn view(&self) -> FtsRowView {
        FtsRowView {
            rowid: self.rowid,
            content: self.content@,
            role: self.role,
            author: opt_text(self.author),
        }
    }
}

/// The table `meta`: one optional value per known key.
#[derive(Clone, Copy, Debug, PartialEq, Eq, Structural)]
pub struct Meta {
    pub schema_version: Option<i64>,
    pub last_scan_ts: Option<i64>,
}

/// All the tables of a store.
#[derive(Clone, Debug, PartialEq, Eq)]
pub struct Database {
    pub agents: Vec<AgentRow>,
    pub workspaces: Vec<WorkspaceRow>,
    pub conversations: Vec<ConversationRow>,
    pub messages: Vec<MessageRow>,
    pub fts_messages: Vec<FtsRow>,
    pub meta: Meta,
}

/// What a [`Database`] holds, as mathematical values.
pub struct DatabaseView {
    pub agents: Seq<AgentRowView>,
    pub workspaces: Seq<WorkspaceRowView>,
    pub conversations: Seq<ConversationRowView>,
    pub messages: Seq<MessageRowView>,
    pub fts_messages: Seq<FtsRowView>,
    pub meta: Meta,
}

impl View for Database {
    type V = DatabaseView;

    open spec fn view(&self) -> DatabaseView {
        DatabaseView {
            agents: views(self.agents@),
            workspaces: views(self.workspaces@),
            conversations: views(self.conversations@),
            messages: views(self.messages@),
            fts_messages: views(self.fts_messages@),
            meta: self.meta,
        }
    }
}

/// The mirror row of a message.
pub open spec fn mirror_row(m: MessageRowView) -> FtsRowView {
    FtsRowView { rowid: m.id, content: m.content, role: m.role, author: m.author }
}

/// The mirror rows of `messages`, one for each, in order.
pub open spec fn mirror(messages: Seq<MessageRowView>) -> Seq<FtsRowView> {
    Seq::new(messages.len(), |i: int| mirror_row(messages[i]))
}

/// A row of a table with uniqueness constraints.
pub trait Row: View + Sized {
    /// The id of a row.
    spec fn id_of(row: Self::V) -> i64;

    /// The id of the row.
    fn id(&self) -> (id: i64)
        ensures
            id == Self::id_of(self@),
    ;

    /// Whether two rows may not stand in one table: they agree on a key that
    /// the schema declares unique.
    spec fn clash(a: Self::V, b: Self::V) -> bool;

    /// Whether `self` and `other` may not stand in one table.
    fn clashes(&self, other: &Self) -> (b: bool)
        ensures
            b == Self::clash(self@, other@),
    ;
}

/// Whether no two rows of `rows` clash.
pub open spec fn distinct<R: Row>(rows: Seq<R::V>) -> bool {
    forall|i: int, j: int| 0 <= i < j < rows.len() ==> !R::clash(rows[i], rows[j])
}

impl Row for AgentRow {
    open spec fn id_of(row: AgentRowView) -> i64 {
        row.id
    }

    fn id(&self) -> (id: i64) {
        self.id
    }

    /// Agents clash on the id and on the slug.
    open spec fn clash(a: AgentRowView, b: AgentRowView) -> bool {
        a.id == b.id || a.slug == b.slug
    }

    fn clashes(&self, other: &Self) -> (b: bool) {
        self.id == other.id || self.slug == other.slug
    }
}

impl Row for WorkspaceRow {
    open spec fn id_of(row: WorkspaceRowView) -> i64 {
        row.id
    }

    fn id(&self) -> (id: i64) {
        self.id
    }

    /// Workspaces clash on the id and on the path.
    open spec fn clash(a: WorkspaceRowView, b: WorkspaceRowView) -> bool {
        a.id == b.id || a.path == b.path
    }

    fn clashes(&self, other: &Self) -> (b: bool) {
        self.id == other.id || self.path == other.path
    }
}

impl Row for ConversationRow {
    open spec fn id_of(row: ConversationRowView) -> i64 {
        row.id
    }

    fn id(&self) -> (id: i64) {
        self.id
    }

    /// Conversations clash on the id and, within one agent, on an external
    /// id that is present.
    open spec fn clash(a: ConversationRowView, b: ConversationRowView) -> bool {
        a.id == b.id || (a.agent_id == b.agent_id && a.external_id is Some && a.external_id
            == b.external_id)
    }

    fn clashes(&self, other: &Self) -> (b: bool) {
        self.id == other.id || (self.agent_id == other.agent_id && self.external_id.is_some()
            && same_opt_text(&self.external_id, &other.external_id))
    }
}

impl Row for MessageRow {
    open spec fn id_of(row: MessageRowView) -> i64 {
        row.id
    }

    fn id(&self) -> (id: i64) {
        self.id
    }

    /// Messages clash on the id and, within one conversation, on `idx`.
    open spec fn clash(a: MessageRowView, b: MessageRowView) -> bool {
        a.id == b.id || (a.conversation_id == b.conversation_id && a.idx == b.idx)
    }

    fn clashes(&self, other: &Self) -> (b: bool) {
        self.id == other.id || (self.conversation_id == other.conversation_id && self.idx
            == other.idx)
    }
}

/// The ids of the rows, in order.
pub open spec fn ids<R: Row>(rows: Seq<R::V>) -> Seq<i64> {
    Seq::new(rows.len(), |i: int| R::id_of(rows[i]))
}

/// The greatest id among `rows`, or 0.
pub fn top_row_id<R: Row>(rows: &Vec<R>) -> (top: i64)
    ensures
        top == top_id(ids::<R>(views(rows@))),
{
    let mut top: i64 = 0;
    let mut i: usize = 0;
    while i < rows.len()
        invariant
            i <= rows.len(),
            top == top_id(ids::<R>(views(rows@)).take(i as int)),
        decreases rows.len() - i,
    {
        assert(ids::<R>(views(rows@)).take(i as int + 1).drop_last() =~= ids::<R>(
            views(rows@),
        ).take(i as int));
        let id = rows[i].id();
        if id > top {
            top = id;
        }
        i = i + 1;
    }
    assert(ids::<R>(views(rows@)).take(rows.len() as int) =~= ids::<R>(views(rows@)));
    top
}

/// Whether no two rows of `rows` clash.
pub fn all_distinct<R: Row>(rows: &Vec<R>) -> (b: bool)
    ensures
        b == distinct::<R>(views(rows@)),
{
    let mut j: usize = 0;
    while j < rows.len()
        invariant
            j <= rows.len(),
            forall|a: int, b: int| 0 <= a < b < j ==> !R::clash(rows[a]@, rows[b]@),
        decreases rows.len() - j,
    {
        let mut i: usize = 0;
        while i < j
            invariant
                i <= j < rows.len(),
                forall|a: int| 0 <= a < i ==> !R::clash(rows[a]@, rows[j as int]@),
            decreases j - i,
        {
            if rows[i].clashes(&rows[j]) {
                assert(R::clash(views(rows@)[i as int], views(rows@)[j as int]));
                return false;
            }
            i = i + 1;
        }
        j = j + 1;
    }
    assert forall|a: int, b: int| 0 <= a < b < views(rows@).len() implies !R::clash(
        views(rows@)[a],
        views(rows@)[b],
    ) by {
        assert(!R::clash(rows[a]@, rows[b]@));
    }
    true
}

/// Whether `rows` holds a conversation with the id `id`.
pub open spec fn has_conversation(rows: Seq<ConversationRowView>, id: i64) -> bool {
    exists|c: int| 0 <= c < rows.len() && (#[trigger] rows[c]).id == id
}

impl DatabaseView {
    /// The store with empty tables, at the current schema version.
    pub open spec fn fresh() -> DatabaseView {
        DatabaseView {
            agents: Seq::empty(),
            workspaces: Seq::empty(),
            conversations: Seq::empty(),
            messages: Seq::empty(),
            fts_messages: Seq::empty(),
            meta: Meta { schema_version: Some(SCHEMA_VERSION), last_scan_ts: None },
        }
    }

    /// Whether the full-text mirror holds exactly one row for each message,
    /// in the order of the messages.
    pub open spec fn fts_in_sync(self) -> bool {
        self.fts_messages == mirror(self.messages)
    }

    /// The constraints of the schema. Unique are: the ids within each table,
    /// the slugs of agents, the paths of workspaces, the external id among
    /// the conversations of one agent, and `idx` among the messages of one
    /// conversation. And each message belongs to a conversation of the table.
    pub open spec fn consistent(self) -> bool {
        &&& distinct::<AgentRow>(self.agents)
        &&& distinct::<WorkspaceRow>(self.workspaces)
        &&& distinct::<ConversationRow>(self.conversations)
        &&& distinct::<MessageRow>(self.messages)
        &&& forall|i: int|
            0 <= i < self.messages.len() ==> has_conversation(
                self.conversations,
                (#[trigger] self.messages[i]).conversation_id,
            )
    }
}

/// The conversation and the `idx` of a message as one number, different for
/// different pairs.
pub open spec fn place_key(conversation_id: i64, idx: i64) -> int {
    conversation_id * 0x1_0000_0000_0000_0000 + (idx + 0x8000_0000_0000_0000)
}

/// The conversation and the `idx` of a message as one number.
fn place_key_of(conversation_id: i64, idx: i64) -> (key: i128)
    ensures
        key == place_key(conversation_id, idx),
{
    (conversation_id as i128) * 0x1_0000_0000_0000_0000i128 + (idx as i128
        + 0x8000_0000_0000_0000i128)
}

/// Whether no two messages clash. The ids and the places that were seen are
/// kept in hash sets, so that each message is looked at once.
fn messages_distinct(rows: &Vec<MessageRow>) -> (b: bool)
    ensures
        b == distinct::<MessageRow>(views(rows@)),
{
    broadcast use vstd::std_specs::hash::group_hash_axioms;

    let mut ids: HashSet<i64> = HashSet::new();
    let mut places: HashSet<i128> = HashSet::new();
    let mut i: usize = 0;
    while i < rows.len()
        invariant
            i <= rows.len(),
            forall|a: int, b: int| 0 <= a < b < i ==> !MessageRow::clash(rows[a]@, rows[b]@),
            forall|x: i64|
                ids@.contains(x) <==> exists|j: int| 0 <= j < i && (#[trigger] rows[j]).id == x,
            forall|k: i128|
                places@.contains(k) <==> exists|j: int|
                    0 <= j < i && place_key((#[trigger] rows[j]).conversation_id, rows[j].idx)
                        == k,
        decreases rows.len() - i,
    {
        let key = place_key_of(rows[i].conversation_id, rows[i].idx);
        let new_id = ids.insert(rows[i].id);
        let new_place = places.insert(key);
        if !new_id || !new_place {
            proof {
                let j = if !new_id {
                    choose|j: int| 0 <= j < i && (#[trigger] rows[j]).id == rows[i as int].id
                } else {
                    choose|j: int|
                        0 <= j < i && place_key((#[trigger] rows[j]).conversation_id, rows[j].idx)
                            == key
                };
                assert(MessageRow::clash(views(rows@)[j], views(rows@)[i as int]));
            }
            return false;
        }
        proof {
            assert forall|a: int| 0 <= a < i implies !MessageRow::clash(
                rows[a]@,
                rows[i as int]@,
            ) by {
                assert(rows[a].id != rows[i as int].id);
                assert(place_key(rows[a].conversation_id, rows[a].idx) != key);
            }
        }
        i = i + 1;
    }
    assert forall|a: int, b: int| 0 <= a < b < views(rows@).len() implies !MessageRow::clash(
        views(rows@)[a],
        views(rows@)[b],
    ) by {
        assert(!MessageRow::clash(rows[a]@, rows[b]@));
    }
    true
}

/// Whether each of `messages` belongs to one of `conversations`.
fn all_owned(messages: &Vec<MessageRow>, conversations: &Vec<ConversationRow>) -> (b: bool)
    ensures
        b == (forall|i: int|
            0 <= i < messages.len() ==> has_conversation(
                views(conversations@),
                (#[trigger] views(messages@)[i]).conversation_id,
            )),
{
    broadcast use vstd::std_specs::hash::group_hash_axioms;

    let mut known: HashSet<i64> = HashSet::new();
    let mut c: usize = 0;
    while c < conversations.len()
        invariant
            c <= conversations.len(),
            forall|x: i64|
                known@.contains(x) <==> exists|j: int|
                    0 <= j < c && (#[trigger] views(conversations@)[j]).id == x,
        decreases conversations.len() - c,
    {
        known.insert(conversations[c].id);
        assert(views(conversations@)[c as int].id == conversations[c as int].id);
        c = c + 1;
    }
    assert forall|x: i64| known@.contains(x) == has_conversation(views(conversations@), x) by {}
    let mut i: usize = 0;
    while i < messages.len()
        invariant
            i <= messages.len(),
            forall|x: i64| known@.contains(x) == has_conversation(views(conversations@), x),
            forall|k: int|
                0 <= k < i ==> has_conversation(
                    views(conversations@),
                    (#[trigger] views(messages@)[k]).conversation_id,
                ),
        decreases messages.len() - i,
    {
        if !known.contains(&messages[i].conversation_id) {
            assert(!has_conversation(
                views(conversations@),
                views(messages@)[i as int].conversation_id,
            ));
            return false;
        }
        i = i + 1;
    }
    true
}

impl Database {
    /// Whether the tables meet the constraints of the schema.
    pub fn is_consistent(&self) -> (b: bool)
        ensures
            b == self@.consistent(),
    {
        all_distinct(&self.agents) && all_distinct(&self.workspaces) && all_distinct(
            &self.conversations,
        ) && messages_distinct(&self.messages) && all_owned(&self.messages, &self.conversations)
    }
}

} // verus!
