//! The operations of the store.
//!
//! Each operation is stated as a function from the tables before it to the
//! tables after it and its result; the executable operation is proved to
//! compute exactly that. An operation that fails leaves the tables as they
//! were.

use crate::model::types::{Agent, AgentView, Conversation, ConversationView, Message, MessageView};
use crate::seqs::{first_index, later, later_of, lemma_first_index, lemma_top_id_bounds, top_id, views};
use crate::storage::invariants::{lemma_insert_keeps_consistent, lemma_insert_keeps_fts_in_sync};
use crate::storage::tables::{
    ids, mirror, mirror_row, top_row_id, AgentRow, AgentRowView, ConversationRow, ConversationRowView, Database,
    DatabaseView, FtsRow, Meta, MessageRow, MessageRowView, Row, WorkspaceRow, WorkspaceRowView,
    SCHEMA_VERSION,
};
use crate::text::{copy_opt_text, opt_text};
use std::collections::HashSet;
use vstd::prelude::*;

verus! {

/// Why an operation of the store failed.
#[derive(Clone, Copy, Debug, PartialEq, Eq, Structural)]
pub enum StorageError {
    /// The file could not be read or written.
    Io,
    /// The tables are not those of the schema.
    Schema,
    /// A row would break a uniqueness constraint, or no id is left for it.
    Constraint,
    /// The tables hold what the operations could not have written.
    Corrupt,
    /// The tables were written at a schema version this library does not know.
    UnsupportedSchemaVersion,
}

/// The test "this agent has the slug `slug`".
pub open spec fn has_slug(slug: Seq<char>) -> spec_fn(AgentRowView) -> bool {
    |row: AgentRowView| row.slug == slug
}

/// The test "this workspace has the path `path`".
pub open spec fn has_path(path: Seq<char>) -> spec_fn(WorkspaceRowView) -> bool {
    |row: WorkspaceRowView| row.path == path
}

/// The test "this conversation is of agent `agent_id` and has the external
/// id `external_id`".
pub open spec fn has_external_key(agent_id: i64, external_id: Seq<char>) -> spec_fn(
    ConversationRowView,
) -> bool {
    |row: ConversationRowView| row.agent_id == agent_id && row.external_id == Some(external_id)
}

/// What opening a store gives. Without tables to read: the empty store at
/// the current schema version. With tables: `UnsupportedSchemaVersion` if
/// they name a schema version other than the current one, `Corrupt` if they
/// break a uniqueness constraint, and else those tables. Tables that name no
/// schema version are opened.
pub open spec fn opened(existing: Option<DatabaseView>) -> Result<DatabaseView, StorageError> {
    match existing {
        None => Ok(DatabaseView::fresh()),
        Some(db) => {
            if db.meta.schema_version is Some && db.meta.schema_version != Some(SCHEMA_VERSION) {
                Err(StorageError::UnsupportedSchemaVersion)
            } else if !db.consistent() {
                Err(StorageError::Corrupt)
            } else {
                Ok(db)
            }
        },
    }
}

/// What `ensure_agent` does: the id of the agent with that slug if there is
/// one, and else the id of a new row, one above the greatest id in use.
pub open spec fn agent_ensured(db: DatabaseView, agent: AgentView) -> (
    DatabaseView,
    Result<i64, StorageError>,
) {
    let at = first_index(db.agents, has_slug(agent.slug));
    let top = top_id(ids::<AgentRow>(db.agents));
    if at < db.agents.len() {
        (db, Ok(db.agents[at].id))
    } else if top >= i64::MAX {
        (db, Err(StorageError::Constraint))
    } else {
        let row = AgentRowView {
            id: (top + 1) as i64,
            slug: agent.slug,
            name: agent.name,
            version: agent.version,
            kind: agent.kind,
        };
        (DatabaseView { agents: db.agents.push(row), ..db }, Ok((top + 1) as i64))
    }
}

/// What `ensure_workspace` does: the id of the workspace with that path if
/// there is one, and else the id of a new row, one above the greatest id in
/// use.
pub open spec fn workspace_ensured(db: DatabaseView, path: Seq<char>, name: Option<Seq<char>>) -> (
    DatabaseView,
    Result<i64, StorageError>,
) {
    let at = first_index(db.workspaces, has_path(path));
    let top = top_id(ids::<WorkspaceRow>(db.workspaces));
    if at < db.workspaces.len() {
        (db, Ok(db.workspaces[at].id))
    } else if top >= i64::MAX {
        (db, Err(StorageError::Constraint))
    } else {
        let row = WorkspaceRowView { id: (top + 1) as i64, path, name };
        (DatabaseView { workspaces: db.workspaces.push(row), ..db }, Ok((top + 1) as i64))
    }
}

/// The `idx` values that the messages of conversation `conversation_id` use.
pub open spec fn stored_indices(rows: Seq<MessageRowView>, conversation_id: i64) -> Set<i64> {
    Set::new(
        |idx: i64|
            exists|i: int|
                0 <= i < rows.len() && (#[trigger] rows[i]).conversation_id == conversation_id
                    && rows[i].idx == idx,
    )
}

/// The test "the `idx` of this message is not in `stored`".
pub open spec fn is_fresh(stored: Set<i64>) -> spec_fn(MessageView) -> bool {
    |m: MessageView| !stored.contains(m.idx)
}

/// The messages of `incoming` whose `idx` is not in `stored`, in order.
pub open spec fn fresh_messages(stored: Set<i64>, incoming: Seq<MessageView>) -> Seq<MessageView> {
    incoming.filter(is_fresh(stored))
}

/// The `idx` of each message, in order.
pub open spec fn indices(messages: Seq<MessageView>) -> Seq<i64> {
    Seq::new(messages.len(), |i: int| messages[i].idx)
}

/// The latest `created_at` among `messages`, if any of them has one.
pub open spec fn latest_created(messages: Seq<MessageView>) -> Option<i64>
    decreases messages.len(),
{
    if messages.len() == 0 {
        None
    } else {
        later(latest_created(messages.drop_last()), messages.last().created_at)
    }
}

/// The row that keeps message `m` in conversation `conversation_id` under
/// the id `id`.
pub open spec fn message_row(m: MessageView, conversation_id: i64, id: i64) -> MessageRowView {
    MessageRowView {
        id,
        conversation_id,
        idx: m.idx,
        role: m.role,
        author: m.author,
        created_at: m.created_at,
        content: m.content,
        extra_json: m.extra_json,
    }
}

/// The rows that keep `messages` in conversation `conversation_id`: the
/// first under the id `base + 1`, each next one under the next id.
pub open spec fn message_rows(messages: Seq<MessageView>, conversation_id: i64, base: int) -> Seq<
    MessageRowView,
> {
    Seq::new(
        messages.len(),
        |k: int| message_row(messages[k], conversation_id, (base + 1 + k) as i64),
    )
}

/// The row that keeps conversation `conv` of agent `agent_id` under the id
/// `id`, ending at `ended_at`.
pub open spec fn conversation_row(
    conv: ConversationView,
    agent_id: i64,
    workspace_id: Option<i64>,
    id: i64,
    ended_at: Option<i64>,
) -> ConversationRowView {
    ConversationRowView {
        id,
        agent_id,
        workspace_id,
        external_id: conv.external_id,
        title: conv.title,
        source_path: conv.source_path,
        started_at: conv.started_at,
        ended_at,
        approx_tokens: conv.approx_tokens,
        metadata_json: conv.metadata_json,
    }
}

/// What `insert_conversation_tree` reports: the conversation that the
/// messages went to, and the `idx` of each message that was added, in the
/// order given.
#[derive(Clone, Debug, PartialEq, Eq)]
pub struct InsertOutcome {
    pub conversation_id: i64,
    pub inserted_indices: Vec<i64>,
}

/// What an [`InsertOutcome`] holds, as mathematical values.
pub struct InsertOutcomeView {
    pub conversation_id: i64,
    pub inserted_indices: Seq<i64>,
}

impl View for InsertOutcome {
    type V = InsertOutcomeView;

    open spec fn view(&self) -> InsertOutcomeView {
        InsertOutcomeView {
            conversation_id: self.conversation_id,
            inserted_indices: self.inserted_indices@,
        }
    }
}

/// Where the row of the conversation that `conv` continues stands: the first
/// row of agent `agent_id` with the external id of `conv`. It is the number
/// of rows if there is no such row or `conv` has no external id.
pub open spec fn continued_at(
    rows: Seq<ConversationRowView>,
    agent_id: i64,
    external_id: Option<Seq<char>>,
) -> int {
    match external_id {
        Some(e) => first_index(rows, has_external_key(agent_id, e)),
        None => rows.len() as int,
    }
}

/// The id of the conversation that `insert_conversation_tree` adds to: that
/// of the conversation that is continued, or one above the greatest in use.
pub open spec fn target_conversation(
    db: DatabaseView,
    agent_id: i64,
    external_id: Option<Seq<char>>,
) -> i64 {
    let at = continued_at(db.conversations, agent_id, external_id);
    if at < db.conversations.len() {
        db.conversations[at].id
    } else {
        (top_id(ids::<ConversationRow>(db.conversations)) + 1) as i64
    }
}

/// What `insert_conversation_tree` does.
///
/// The conversation is the one that `conv` continues, or a new one, under
/// the id one above the greatest in use. The messages that are added are
/// those of `conv` whose `idx` the conversation does not have yet; each gets
/// the next id above the greatest in use, and a mirror row. The conversation
/// then ends at the latest of where it ended (a new one: where `conv` says)
/// and the `created_at` of the messages added.
///
/// It fails with `Constraint`, and changes nothing, if two of the messages to
/// add have the same `idx`, or if the ids run out.
pub open spec fn tree_inserted(
    db: DatabaseView,
    agent_id: i64,
    workspace_id: Option<i64>,
    conv: ConversationView,
) -> Result<(DatabaseView, InsertOutcomeView), StorageError> {
    let at = continued_at(db.conversations, agent_id, conv.external_id);
    let continues = at < db.conversations.len();
    let conversation_id = target_conversation(db, agent_id, conv.external_id);
    let fresh = fresh_messages(stored_indices(db.messages, conversation_id), conv.messages);
    let base = top_id(ids::<MessageRow>(db.messages));
    if (!continues && top_id(ids::<ConversationRow>(db.conversations)) >= i64::MAX) || !indices(
        fresh,
    ).no_duplicates() || base + fresh.len() > i64::MAX {
        Err(StorageError::Constraint)
    } else {
        let rows = message_rows(fresh, conversation_id, base);
        let conversations = if continues {
            db.conversations.update(
                at,
                ConversationRowView {
                    ended_at: later(db.conversations[at].ended_at, latest_created(fresh)),
                    ..db.conversations[at]
                },
            )
        } else {
            db.conversations.push(
                conversation_row(
                    conv,
                    agent_id,
                    workspace_id,
                    conversation_id,
                    later(conv.ended_at, latest_created(fresh)),
                ),
            )
        };
        Ok(
            (
                DatabaseView {
                    conversations,
                    messages: db.messages + rows,
                    fts_messages: db.fts_messages + mirror(rows),
                    ..db
                },
                InsertOutcomeView { conversation_id, inserted_indices: indices(fresh) },
            ),
        )
    }
}

/// What `rebuild_fts` does: the mirror is made anew from the messages.
pub open spec fn fts_rebuilt(db: DatabaseView) -> DatabaseView {
    DatabaseView { fts_messages: mirror(db.messages), ..db }
}

/// The store: tables that meet the uniqueness constraints of the schema.
pub struct Storage {
    db: Database,
}

impl View for Storage {
    type V = DatabaseView;

    closed spec fn view(&self) -> DatabaseView {
        self.db@
    }
}

/// Where the row of the conversation of agent `agent_id` with the external
/// id `external_id` stands.
fn find_conversation(rows: &Vec<ConversationRow>, agent_id: i64, external_id: &Option<String>) -> (at:
    usize)
    ensures
        at == continued_at(views(rows@), agent_id, opt_text(*external_id)),
{
    match external_id {
        None => rows.len(),
        Some(wanted) => {
            let mut i: usize = 0;
            while i < rows.len()
                invariant
                    i <= rows.len(),
                    opt_text(*external_id) == Some(wanted@),
                    forall|j: int|
                        0 <= j < i ==> !has_external_key(agent_id, wanted@)(
                            #[trigger] views(rows@)[j],
                        ),
                decreases rows.len() - i,
            {
                let same = match &rows[i].external_id {
                    Some(e) => *e == *wanted,
                    None => false,
                };
                if rows[i].agent_id == agent_id && same {
                    proof {
                        assert(has_external_key(agent_id, wanted@)(views(rows@)[i as int]));
                        lemma_first_index(
                            views(rows@),
                            has_external_key(agent_id, wanted@),
                            i as int,
                        );
                    }
                    return i;
                }
                assert(!has_external_key(agent_id, wanted@)(views(rows@)[i as int]));
                i = i + 1;
            }
            proof {
                lemma_first_index(views(rows@), has_external_key(agent_id, wanted@), i as int);
            }
            i
        },
    }
}

/// The `idx` values that the messages of conversation `conversation_id` use.
fn indices_in_use(rows: &Vec<MessageRow>, conversation_id: i64) -> (used: HashSet<i64>)
    ensures
        forall|idx: i64|
            used@.contains(idx) == stored_indices(views(rows@), conversation_id).contains(idx),
{
    broadcast use vstd::std_specs::hash::group_hash_axioms;

    let mut used: HashSet<i64> = HashSet::new();
    let mut i: usize = 0;
    while i < rows.len()
        invariant
            i <= rows.len(),
            forall|idx: i64|
                used@.contains(idx) <==> exists|j: int|
                    0 <= j < i && (#[trigger] views(rows@)[j]).conversation_id == conversation_id
                        && views(rows@)[j].idx == idx,
        decreases rows.len() - i,
    {
        if rows[i].conversation_id == conversation_id {
            used.insert(rows[i].idx);
            assert(views(rows@)[i as int].conversation_id == conversation_id);
        }
        i = i + 1;
    }
    used
}

/// The rows that one call of `insert_conversation_tree` is about to add.
struct Staged {
    rows: Vec<MessageRow>,
    mirror: Vec<FtsRow>,
    indices: Vec<i64>,
    latest: Option<i64>,
}

/// A sequence of messages with two equal `idx` has them still when more
/// messages follow.
proof fn lemma_duplicates_stay(a: Seq<MessageView>, b: Seq<MessageView>)
    requires
        a.is_prefix_of(b),
        !indices(a).no_duplicates(),
    ensures
        !indices(b).no_duplicates(),
{
    let (i, j) = choose|i: int, j: int|
        0 <= i < indices(a).len() && 0 <= j < indices(a).len() && i != j && indices(a)[i]
            == indices(a)[j];
    assert(indices(b)[i] == a[i].idx);
    assert(indices(b)[j] == a[j].idx);
}

/// Makes the rows for the messages of `incoming` whose `idx` conversation
/// `conversation_id` does not have yet, with ids from `base + 1` on.
fn stage(rows: &Vec<MessageRow>, conversation_id: i64, base: i64, incoming: &Vec<Message>) -> (r:
    Option<Staged>)
    requires
        base >= 0,
    ensures
        ({
            let fresh = fresh_messages(
                stored_indices(views(rows@), conversation_id),
                views(incoming@),
            );
            match r {
                Some(staged) => {
                    &&& indices(fresh).no_duplicates()
                    &&& base + fresh.len() <= i64::MAX
                    &&& views(staged.rows@) == message_rows(fresh, conversation_id, base as int)
                    &&& views(staged.mirror@) == mirror(
                        message_rows(fresh, conversation_id, base as int),
                    )
                    &&& staged.indices@ == indices(fresh)
                    &&& staged.latest == latest_created(fresh)
                },
                None => !indices(fresh).no_duplicates() || base + fresh.len() > i64::MAX,
            }
        }),
{
    broadcast use vstd::std_specs::hash::group_hash_axioms;

    let ghost stored = stored_indices(views(rows@), conversation_id);
    let ghost given = views(incoming@);
    let used = indices_in_use(rows, conversation_id);
    let mut seen: HashSet<i64> = HashSet::new();
    let mut staged = Staged {
        rows: Vec::new(),
        mirror: Vec::new(),
        indices: Vec::new(),
        latest: None,
    };
    let mut i: usize = 0;
    proof {
        assert(given.take(0) =~= Seq::<MessageView>::empty());
        reveal(Seq::filter);
        assert(given.take(0).filter(is_fresh(stored)) =~= Seq::<MessageView>::empty());
    }
    while i < incoming.len()
        invariant
            i <= incoming.len(),
            base >= 0,
            stored == stored_indices(views(rows@), conversation_id),
            forall|idx: i64| used@.contains(idx) == stored.contains(idx),
            forall|idx: i64| seen@.contains(idx) == staged.indices@.contains(idx),
            given == views(incoming@),
            indices(fresh_messages(stored, given.take(i as int))).no_duplicates(),
            base + fresh_messages(stored, given.take(i as int)).len() <= i64::MAX,
            views(staged.rows@) =~= message_rows(
                fresh_messages(stored, given.take(i as int)),
                conversation_id,
                base as int,
            ),
            views(staged.mirror@) =~= mirror(
                message_rows(
                    fresh_messages(stored, given.take(i as int)),
                    conversation_id,
                    base as int,
                ),
            ),
            staged.indices@ =~= indices(fresh_messages(stored, given.take(i as int))),
            staged.latest == latest_created(fresh_messages(stored, given.take(i as int))),
        decreases incoming.len() - i,
    {
        let m = &incoming[i];
        let ghost before = fresh_messages(stored, given.take(i as int));
        let ghost after = fresh_messages(stored, given.take(i as int + 1));
        proof {
            given.lemma_take_succ_push(i as int);
            given.take(i as int).lemma_filter_push(given[i as int], is_fresh(stored));
            assert(given[i as int] == m@);
        }
        if !used.contains(&m.idx) {
            assert(after == before.push(m@));
            let ghost so_far = staged.indices@;
            let new_idx = seen.insert(m.idx);
            if !new_idx || staged.indices.len() as u64 >= (i64::MAX - base) as u64 {
                proof {
                    given.take(i as int + 1).lemma_filter_monotone(given, is_fresh(stored));
                    if staged.indices@.contains(m.idx) {
                        let k = choose|k: int|
                            0 <= k < staged.indices@.len() && staged.indices@[k] == m.idx;
                        assert(indices(after)[k] == before[k].idx);
                        assert(indices(after)[before.len() as int] == m.idx);
                        lemma_duplicates_stay(after, fresh_messages(stored, given));
                    }
                }
                return None;
            }
            let id = base + 1 + staged.indices.len() as i64;
            let row = MessageRow {
                id,
                conversation_id,
                idx: m.idx,
                role: m.role,
                author: copy_opt_text(&m.author),
                created_at: m.created_at,
                content: m.content.clone(),
                extra_json: m.extra_json.clone(),
            };
            let shadow = FtsRow {
                rowid: id,
                content: m.content.clone(),
                role: m.role,
                author: copy_opt_text(&m.author),
            };
            assert(row@ == message_row(m@, conversation_id, id));
            assert(shadow@ == mirror_row(row@));
            let ghost old_rows = views(staged.rows@);
            let ghost old_mirror = views(staged.mirror@);
            staged.rows.push(row);
            staged.mirror.push(shadow);
            staged.indices.push(m.idx);
            staged.latest = later_of(staged.latest, m.created_at);
            proof {
                assert forall|idx: i64| seen@.contains(idx) == staged.indices@.contains(
                    idx,
                ) by {
                    if so_far.contains(idx) {
                        let k = choose|k: int| 0 <= k < so_far.len() && so_far[k] == idx;
                        assert(staged.indices@[k] == idx);
                    }
                    if idx == m.idx {
                        assert(staged.indices@[so_far.len() as int] == idx);
                    }
                }
                assert(views(staged.rows@) =~= old_rows.push(row@));
                assert(views(staged.mirror@) =~= old_mirror.push(shadow@));
                assert(after.drop_last() =~= before);
                assert forall|a: int, b: int|
                    0 <= a < indices(after).len() && 0 <= b < indices(after).len() && a
                        != b implies indices(after)[a] != indices(after)[b] by {
                    if a < before.len() {
                        assert(indices(after)[a] == indices(before)[a]);
                    }
                    if b < before.len() {
                        assert(indices(after)[b] == indices(before)[b]);
                    }
                }
            }
        } else {
            assert(after == before);
        }
        i = i + 1;
    }
    proof {
        assert(given.take(incoming.len() as int) =~= given);
    }
    Some(staged)
}

impl Storage {
    /// Whether the tables meet the uniqueness constraints of the schema.
    /// Every store that this module hands out does.
    pub open spec fn wf(&self) -> bool {
        self@.consistent()
    }

    /// Opens a store: over the tables read from its file, or empty if there
    /// was no file.
    pub fn open(existing: Option<Database>) -> (r: Result<Storage, StorageError>)
        ensures
            match opened(
                match existing {
                    Some(db) => Some(db@),
                    None => None,
                },
            ) {
                Ok(db) => r is Ok && r->Ok_0@ == db && r->Ok_0.wf(),
                Err(e) => r == Err::<Storage, StorageError>(e),
            },
    {
        match existing {
            None => {
                let db = Database {
                    agents: Vec::new(),
                    workspaces: Vec::new(),
                    conversations: Vec::new(),
                    messages: Vec::new(),
                    fts_messages: Vec::new(),
                    meta: Meta { schema_version: Some(SCHEMA_VERSION), last_scan_ts: None },
                };
                assert(db@.agents =~= Seq::empty());
                assert(db@.workspaces =~= Seq::empty());
                assert(db@.conversations =~= Seq::empty());
                assert(db@.messages =~= Seq::empty());
                assert(db@.fts_messages =~= Seq::empty());
                Ok(Storage { db })
            },
            Some(db) => {
                let recognised = match db.meta.schema_version {
                    Some(v) => v == SCHEMA_VERSION,
                    None => true,
                };
                if !recognised {
                    Err(StorageError::UnsupportedSchemaVersion)
                } else if !db.is_consistent() {
                    Err(StorageError::Corrupt)
                } else {
                    Ok(Storage { db })
                }
            },
        }
    }

    /// The tables, to read.
    pub fn database(&self) -> (db: &Database)
        ensures
            db@ == self@,
    {
        &self.db
    }

    /// The tables, given up by the store.
    pub fn into_database(self) -> (db: Database)
        ensures
            db@ == self@,
    {
        self.db
    }

    /// The schema version the tables were written at; `Corrupt` if they name
    /// none.
    pub fn schema_version(&self) -> (r: Result<i64, StorageError>)
        ensures
            r == (match self@.meta.schema_version {
                Some(v) => Ok::<i64, StorageError>(v),
                None => Err(StorageError::Corrupt),
            }),
    {
        match self.db.meta.schema_version {
            Some(v) => Ok(v),
            None => Err(StorageError::Corrupt),
        }
    }

    /// The instant up to which messages have been taken in, if one was
    /// recorded.
    pub fn get_last_scan_ts(&self) -> (r: Result<Option<i64>, StorageError>)
        ensures
            r == Ok::<Option<i64>, StorageError>(self@.meta.last_scan_ts),
    {
        Ok(self.db.meta.last_scan_ts)
    }

    /// Records `ts` as the instant up to which messages have been taken in.
    pub fn set_last_scan_ts(&mut self, ts: i64) -> (r: Result<(), StorageError>)
        requires
            old(self).wf(),
        ensures
            r is Ok,
            final(self).wf(),
            final(self)@ == (DatabaseView {
                meta: Meta { last_scan_ts: Some(ts), ..old(self)@.meta },
                ..old(self)@
            }),
    {
        self.db.meta.last_scan_ts = Some(ts);
        Ok(())
    }

    /// The id of the agent with the slug of `agent`: that of the row that
    /// has it, or of a new row made from `agent`.
    pub fn ensure_agent(&mut self, agent: &Agent) -> (r: Result<i64, StorageError>)
        requires
            old(self).wf(),
        ensures
            final(self).wf(),
            (final(self)@, r) == agent_ensured(old(self)@, agent@),
    {
        let mut i: usize = 0;
        while i < self.db.agents.len()
            invariant
                i <= self.db.agents.len(),
                self.db == old(self).db,
                self.wf(),
                forall|j: int| 0 <= j < i ==> !has_slug(agent@.slug)(#[trigger] self@.agents[j]),
            decreases self.db.agents.len() - i,
        {
            if self.db.agents[i].slug == agent.slug {
                proof {
                    lemma_first_index(self@.agents, has_slug(agent@.slug), i as int);
                }
                return Ok(self.db.agents[i].id);
            }
            i = i + 1;
        }
        proof {
            lemma_first_index(self@.agents, has_slug(agent@.slug), i as int);
            lemma_top_id_bounds(ids::<AgentRow>(self@.agents));
        }
        let top = top_row_id(&self.db.agents);
        if top == i64::MAX {
            return Err(StorageError::Constraint);
        }
        let row = AgentRow {
            id: top + 1,
            slug: agent.slug.clone(),
            name: agent.name.clone(),
            version: copy_opt_text(&agent.version),
            kind: agent.kind,
        };
        let ghost before = self@;
        self.db.agents.push(row);
        proof {
            assert(self@.agents =~= before.agents.push(row@));
            assert forall|a: int, b: int| 0 <= a < b < self@.agents.len() implies !AgentRow::clash(
                self@.agents[a],
                self@.agents[b],
            ) by {
                if b == before.agents.len() {
                    assert(ids::<AgentRow>(before.agents)[a] == before.agents[a].id);
                    assert(!has_slug(agent@.slug)(before.agents[a]));
                } else {
                    assert(!AgentRow::clash(before.agents[a], before.agents[b]));
                }
            }
        }
        Ok(top + 1)
    }

    /// The id of the workspace at `path`: that of the row that has it, or of
    /// a new row with that path and `name`.
    pub fn ensure_workspace(&mut self, path: &str, name: Option<&str>) -> (r: Result<
        i64,
        StorageError,
    >)
        requires
            old(self).wf(),
        ensures
            final(self).wf(),
            (final(self)@, r) == workspace_ensured(
                old(self)@,
                path@,
                match name {
                    Some(n) => Some(n@),
                    None => None,
                },
            ),
    {
        let wanted = String::from_str(path);
        let mut i: usize = 0;
        while i < self.db.workspaces.len()
            invariant
                i <= self.db.workspaces.len(),
                self.db == old(self).db,
                self.wf(),
                wanted@ == path@,
                forall|j: int| 0 <= j < i ==> !has_path(path@)(#[trigger] self@.workspaces[j]),
            decreases self.db.workspaces.len() - i,
        {
            if self.db.workspaces[i].path == wanted {
                proof {
                    lemma_first_index(self@.workspaces, has_path(path@), i as int);
                }
                return Ok(self.db.workspaces[i].id);
            }
            i = i + 1;
        }
        proof {
            lemma_first_index(self@.workspaces, has_path(path@), i as int);
            lemma_top_id_bounds(ids::<WorkspaceRow>(self@.workspaces));
        }
        let top = top_row_id(&self.db.workspaces);
        if top == i64::MAX {
            return Err(StorageError::Constraint);
        }
        let row = WorkspaceRow {
            id: top + 1,
            path: wanted,
            name: match name {
                Some(n) => Some(String::from_str(n)),
                None => None,
            },
        };
        let ghost before = self@;
        self.db.workspaces.push(row);
        proof {
            assert(self@.workspaces =~= before.workspaces.push(row@));
            assert forall|a: int, b: int|
                0 <= a < b < self@.workspaces.len() implies !WorkspaceRow::clash(
                self@.workspaces[a],
                self@.workspaces[b],
            ) by {
                if b == before.workspaces.len() {
                    assert(ids::<WorkspaceRow>(before.workspaces)[a] == before.workspaces[a].id);
                    assert(!has_path(path@)(before.workspaces[a]));
                } else {
                    assert(!WorkspaceRow::clash(before.workspaces[a], before.workspaces[b]));
                }
            }
        }
        Ok(top + 1)
    }
    /// Makes the full-text mirror anew: one row for each message, in the
    /// order of the messages, whatever the mirror held.
    pub fn rebuild_fts(&mut self) -> (r: Result<(), StorageError>)
        requires
            old(self).wf(),
        ensures
            r is Ok,
            final(self).wf(),
            final(self)@ == fts_rebuilt(old(self)@),
            final(self)@.fts_in_sync(),
    {
        let mut rebuilt: Vec<FtsRow> = Vec::new();
        let mut i: usize = 0;
        while i < self.db.messages.len()
            invariant
                i <= self.db.messages.len(),
                self.db == old(self).db,
                views(rebuilt@) =~= mirror(self@.messages).take(i as int),
            decreases self.db.messages.len() - i,
        {
            let m = &self.db.messages[i];
            let shadow = FtsRow {
                rowid: m.id,
                content: m.content.clone(),
                role: m.role,
                author: copy_opt_text(&m.author),
            };
            assert(shadow@ == mirror_row(self@.messages[i as int]));
            let ghost so_far = views(rebuilt@);
            rebuilt.push(shadow);
            assert(views(rebuilt@) =~= so_far.push(shadow@));
            i = i + 1;
        }
        self.db.fts_messages = rebuilt;
        assert(self@.fts_messages =~= mirror(old(self)@.messages));
        Ok(())
    }

    /// Takes in a conversation with its messages: adds to the conversation
    /// that `conv` continues, or to a new one, the messages whose `idx` it
    /// does not have yet, each with its mirror row. All of it happens or
    /// none of it.
    pub fn insert_conversation_tree(
        &mut self,
        agent_id: i64,
        workspace_id: Option<i64>,
        conv: &Conversation,
    ) -> (r: Result<InsertOutcome, StorageError>)
        requires
            old(self).wf(),
        ensures
            final(self).wf(),
            match tree_inserted(old(self)@, agent_id, workspace_id, conv@) {
                Ok((db, outcome)) => r is Ok && r->Ok_0@ == outcome && final(self)@ == db,
                Err(e) => r == Err::<InsertOutcome, StorageError>(e) && final(self)@ == old(
                    self,
                )@,
            },
            old(self)@.fts_in_sync() ==> final(self)@.fts_in_sync(),
    {
        let ghost before = self@;
        let at = find_conversation(&self.db.conversations, agent_id, &conv.external_id);
        let continues = at < self.db.conversations.len();
        let top = top_row_id(&self.db.conversations);
        if !continues && top == i64::MAX {
            return Err(StorageError::Constraint);
        }
        proof {
            lemma_top_id_bounds(ids::<ConversationRow>(before.conversations));
            lemma_top_id_bounds(ids::<MessageRow>(before.messages));
            assert(views(conv.messages@) =~= conv@.messages);
        }
        let conversation_id = if continues {
            self.db.conversations[at].id
        } else {
            top + 1
        };
        let base = top_row_id(&self.db.messages);
        let staged = match stage(&self.db.messages, conversation_id, base, &conv.messages) {
            Some(staged) => staged,
            None => {
                return Err(StorageError::Constraint);
            },
        };
        let ghost fresh = fresh_messages(
            stored_indices(before.messages, conversation_id),
            conv@.messages,
        );
        let ghost rows = message_rows(fresh, conversation_id, base as int);
        let Staged { rows: mut new_rows, mirror: mut new_mirror, indices: inserted, latest } = staged;
        if continues {
            let ended_at = later_of(self.db.conversations[at].ended_at, latest);
            self.db.conversations[at].ended_at = ended_at;
            assert(self@.conversations =~= before.conversations.update(
                at as int,
                ConversationRowView {
                    ended_at: later(before.conversations[at as int].ended_at, latest),
                    ..before.conversations[at as int]
                },
            ));
        } else {
            let row = ConversationRow {
                id: conversation_id,
                agent_id,
                workspace_id,
                external_id: copy_opt_text(&conv.external_id),
                title: copy_opt_text(&conv.title),
                source_path: conv.source_path.clone(),
                started_at: conv.started_at,
                ended_at: later_of(conv.ended_at, latest),
                approx_tokens: conv.approx_tokens,
                metadata_json: conv.metadata_json.clone(),
            };
            self.db.conversations.push(row);
            assert(self@.conversations =~= before.conversations.push(row@));
        }
        self.db.messages.append(&mut new_rows);
        self.db.fts_messages.append(&mut new_mirror);
        proof {
            assert(self@.messages =~= before.messages + rows);
            assert(self@.fts_messages =~= before.fts_messages + mirror(rows));
            lemma_insert_keeps_consistent(before, agent_id, workspace_id, conv@);
            if before.fts_in_sync() {
                lemma_insert_keeps_fts_in_sync(before, agent_id, workspace_id, conv@);
            }
        }
        Ok(InsertOutcome { conversation_id, inserted_indices: inserted })
    }
}

} // verus!
