//! What holds of the store whatever is done to it.

use crate::model::types::{ConversationView, MessageView};
use crate::seqs::{first_index, lemma_first_index, lemma_first_index_found, lemma_top_id_bounds, top_id};
use crate::storage::engine::{
    continued_at, fresh_messages, fts_rebuilt, has_external_key, indices, is_fresh, message_rows,
    stored_indices, target_conversation, tree_inserted, InsertOutcomeView, StorageError,
};
use crate::storage::tables::{
    has_conversation, ids, mirror, ConversationRow, ConversationRowView, DatabaseView, MessageRow,
    MessageRowView, Row,
};
use vstd::prelude::*;

verus! {

/// The mirror of two runs of messages, one after the other, is the mirror of
/// the first followed by the mirror of the second.
pub proof fn lemma_mirror_add(a: Seq<MessageRowView>, b: Seq<MessageRowView>)
    ensures
        mirror(a + b) == mirror(a) + mirror(b),
{
    assert(mirror(a + b) =~= mirror(a) + mirror(b));
}

/// A mirror that is in step with the messages has as many rows as there are
/// messages.
pub proof fn lemma_in_sync_counts(db: DatabaseView)
    requires
        db.fts_in_sync(),
    ensures
        db.fts_messages.len() == db.messages.len(),
{
}

/// Taking in a conversation adds as many mirror rows as messages: where the
/// two tables had as many rows before, they have as many after.
pub proof fn lemma_insert_keeps_counts(
    db: DatabaseView,
    agent_id: i64,
    workspace_id: Option<i64>,
    conv: ConversationView,
)
    requires
        db.fts_messages.len() == db.messages.len(),
    ensures
        tree_inserted(db, agent_id, workspace_id, conv) matches Ok((after, _))
            ==> after.fts_messages.len() == after.messages.len(),
{
}

/// Taking in a conversation keeps the mirror in step with the messages.
pub proof fn lemma_insert_keeps_fts_in_sync(
    db: DatabaseView,
    agent_id: i64,
    workspace_id: Option<i64>,
    conv: ConversationView,
)
    requires
        db.fts_in_sync(),
    ensures
        tree_inserted(db, agent_id, workspace_id, conv) matches Ok((after, _))
            ==> after.fts_in_sync(),
{
    if let Ok((after, _)) = tree_inserted(db, agent_id, workspace_id, conv) {
        let conversation_id = target_conversation(db, agent_id, conv.external_id);
        let fresh = fresh_messages(stored_indices(db.messages, conversation_id), conv.messages);
        let rows = message_rows(fresh, conversation_id, top_id(ids::<MessageRow>(db.messages)));
        lemma_mirror_add(db.messages, rows);
    }
}

/// After the mirror is made anew it is in step with the messages, whatever
/// it held before; the messages are as they were.
pub proof fn lemma_rebuild_restores_fts(db: DatabaseView)
    ensures
        fts_rebuilt(db).fts_in_sync(),
        fts_rebuilt(db).fts_messages.len() == fts_rebuilt(db).messages.len(),
        fts_rebuilt(db).messages == db.messages,
{
}

/// Two messages that a filter keeps stand in what it keeps, in their order.
proof fn lemma_filter_keeps_pair(
    s: Seq<MessageView>,
    p: spec_fn(MessageView) -> bool,
    i: int,
    j: int,
)
    requires
        0 <= i < j < s.len(),
        p(s[i]),
        p(s[j]),
    ensures
        exists|a: int, b: int|
            0 <= a < b < s.filter(p).len() && s.filter(p)[a] == s[i] && s.filter(p)[b] == s[j],
    decreases s.len(),
{
    let front = s.drop_last();
    assert(s =~= front.push(s.last()));
    front.lemma_filter_push(s.last(), p);
    if j == s.len() - 1 {
        assert(front[i] == s[i]);
        front.lemma_filter_contains(p, i);
        let a = choose|a: int| 0 <= a < front.filter(p).len() && front.filter(p)[a] == s[i];
        let b = front.filter(p).len() as int;
        assert(s.filter(p)[a] == s[i]);
        assert(s.filter(p)[b] == s[j]);
    } else {
        lemma_filter_keeps_pair(front, p, i, j);
        let (a, b) = choose|a: int, b: int|
            0 <= a < b < front.filter(p).len() && front.filter(p)[a] == front[i]
                && front.filter(p)[b] == front[j];
        assert(s.filter(p)[a] == s[i]);
        assert(s.filter(p)[b] == s[j]);
    }
}

/// A conversation that holds two messages with one `idx` which the
/// conversation it goes to does not have yet is refused, and so nothing is
/// stored of it.
pub proof fn lemma_duplicate_idx_refused(
    db: DatabaseView,
    agent_id: i64,
    workspace_id: Option<i64>,
    conv: ConversationView,
    i: int,
    j: int,
)
    requires
        0 <= i < j < conv.messages.len(),
        conv.messages[i].idx == conv.messages[j].idx,
        !stored_indices(
            db.messages,
            target_conversation(db, agent_id, conv.external_id),
        ).contains(conv.messages[i].idx),
    ensures
        tree_inserted(db, agent_id, workspace_id, conv) == Err::<
            (DatabaseView, InsertOutcomeView),
            StorageError,
        >(StorageError::Constraint),
{
    let stored = stored_indices(db.messages, target_conversation(db, agent_id, conv.external_id));
    let fresh = fresh_messages(stored, conv.messages);
    lemma_filter_keeps_pair(conv.messages, is_fresh(stored), i, j);
    let (a, b) = choose|a: int, b: int|
        0 <= a < b < fresh.len() && fresh[a] == conv.messages[i] && fresh[b] == conv.messages[j];
    assert(indices(fresh)[a] == indices(fresh)[b]);
}

/// In a store that meets its constraints, a conversation that continues none
/// and holds two messages with one `idx` is refused, and so nothing is stored
/// of it: no conversation, no message.
pub proof fn lemma_duplicate_idx_refused_when_new(
    db: DatabaseView,
    agent_id: i64,
    workspace_id: Option<i64>,
    conv: ConversationView,
    i: int,
    j: int,
)
    requires
        db.consistent(),
        continued_at(db.conversations, agent_id, conv.external_id) == db.conversations.len(),
        0 <= i < j < conv.messages.len(),
        conv.messages[i].idx == conv.messages[j].idx,
    ensures
        tree_inserted(db, agent_id, workspace_id, conv) == Err::<
            (DatabaseView, InsertOutcomeView),
            StorageError,
        >(StorageError::Constraint),
{
    let top = top_id(ids::<ConversationRow>(db.conversations));
    lemma_top_id_bounds(ids::<ConversationRow>(db.conversations));
    if top < i64::MAX {
        let target = target_conversation(db, agent_id, conv.external_id);
        assert(target == top + 1);
        if stored_indices(db.messages, target).contains(conv.messages[i].idx) {
            let k = choose|k: int|
                0 <= k < db.messages.len() && (#[trigger] db.messages[k]).conversation_id
                    == target && db.messages[k].idx == conv.messages[i].idx;
            assert(has_conversation(db.conversations, db.messages[k].conversation_id));
            let c = choose|c: int|
                0 <= c < db.conversations.len() && (#[trigger] db.conversations[c]).id == target;
            assert(ids::<ConversationRow>(db.conversations)[c] == target);
        }
        lemma_duplicate_idx_refused(db, agent_id, workspace_id, conv, i, j);
    }
}

/// Taking in a conversation keeps the constraints of the schema.
pub proof fn lemma_insert_keeps_consistent(
    db: DatabaseView,
    agent_id: i64,
    workspace_id: Option<i64>,
    conv: ConversationView,
)
    requires
        db.consistent(),
    ensures
        tree_inserted(db, agent_id, workspace_id, conv) matches Ok((after, _))
            ==> after.consistent(),
{
    if let Ok((after, _)) = tree_inserted(db, agent_id, workspace_id, conv) {
        let at = continued_at(db.conversations, agent_id, conv.external_id);
        let target = target_conversation(db, agent_id, conv.external_id);
        let stored = stored_indices(db.messages, target);
        let fresh = fresh_messages(stored, conv.messages);
        let base = top_id(ids::<MessageRow>(db.messages));
        let rows = message_rows(fresh, target, base);
        let n = db.messages.len() as int;
        lemma_top_id_bounds(ids::<ConversationRow>(db.conversations));
        lemma_top_id_bounds(ids::<MessageRow>(db.messages));
        if conv.external_id is Some {
            lemma_first_index_found(
                db.conversations,
                has_external_key(agent_id, conv.external_id->0),
            );
        }
        assert forall|a: int, b: int|
            0 <= a < b < after.conversations.len() implies !ConversationRow::clash(
            after.conversations[a],
            after.conversations[b],
        ) by {
            if b == db.conversations.len() {
                assert(ids::<ConversationRow>(db.conversations)[a] == db.conversations[a].id);
                if conv.external_id is Some {
                    assert(!has_external_key(agent_id, conv.external_id->0)(db.conversations[a]));
                }
            } else {
                assert(!ConversationRow::clash(db.conversations[a], db.conversations[b]));
            }
        }
        assert forall|a: int, b: int| 0 <= a < b < after.messages.len() implies !MessageRow::clash(
            after.messages[a],
            after.messages[b],
        ) by {
            if b < n {
                assert(!MessageRow::clash(db.messages[a], db.messages[b]));
            } else if a < n {
                assert(ids::<MessageRow>(db.messages)[a] == db.messages[a].id);
                conv.messages.lemma_filter_pred(is_fresh(stored), b - n);
                assert(after.messages[b] == rows[b - n]);
                if db.messages[a].conversation_id == target && db.messages[a].idx == rows[b
                    - n].idx {
                    assert(stored.contains(rows[b - n].idx));
                }
            } else {
                assert(after.messages[a] == rows[a - n]);
                assert(after.messages[b] == rows[b - n]);
                assert(indices(fresh)[a - n] == rows[a - n].idx);
                assert(indices(fresh)[b - n] == rows[b - n].idx);
            }
        }
        let owner = if at < db.conversations.len() {
            at
        } else {
            db.conversations.len() as int
        };
        assert(after.conversations[owner].id == target);
        assert forall|i: int| 0 <= i < after.messages.len() implies has_conversation(
            after.conversations,
            (#[trigger] after.messages[i]).conversation_id,
        ) by {
            if i < n {
                assert(has_conversation(db.conversations, db.messages[i].conversation_id));
                let c = choose|c: int|
                    0 <= c < db.conversations.len() && (#[trigger] db.conversations[c]).id
                        == db.messages[i].conversation_id;
                assert(after.conversations[c].id == db.conversations[c].id);
            } else {
                assert(after.messages[i] == rows[i - n]);
            }
        }
    }
}

/// What a conversation has stored after messages were added to it: what it
/// had, and the `idx` of each message added.
proof fn lemma_stored_after_insert(
    db: DatabaseView,
    agent_id: i64,
    workspace_id: Option<i64>,
    conv: ConversationView,
)
    ensures
        tree_inserted(db, agent_id, workspace_id, conv) matches Ok((after, outcome))
            ==> stored_indices(after.messages, outcome.conversation_id) == stored_indices(
            db.messages,
            outcome.conversation_id,
        ).union(indices(conv.messages).to_set()),
{
    if let Ok((after, outcome)) = tree_inserted(db, agent_id, workspace_id, conv) {
        let target = outcome.conversation_id;
        let stored = stored_indices(db.messages, target);
        let fresh = fresh_messages(stored, conv.messages);
        let rows = message_rows(fresh, target, top_id(ids::<MessageRow>(db.messages)));
        let n = db.messages.len() as int;
        let now = stored_indices(after.messages, target);
        let given = indices(conv.messages).to_set();
        assert forall|x: i64| now.contains(x) implies stored.union(given).contains(x) by {
            let k = choose|k: int|
                0 <= k < after.messages.len() && (#[trigger] after.messages[k]).conversation_id
                    == target && after.messages[k].idx == x;
            if k < n {
                assert(db.messages[k].conversation_id == target);
            } else {
                assert(after.messages[k] == rows[k - n]);
                assert(fresh.contains(fresh[k - n]));
                conv.messages.lemma_filter_contains_rev(is_fresh(stored), fresh[k - n]);
                let g = choose|g: int|
                    0 <= g < conv.messages.len() && conv.messages[g] == fresh[k - n];
                assert(indices(conv.messages)[g] == x);
            }
        }
        assert forall|x: i64| stored.union(given).contains(x) implies now.contains(x) by {
            if stored.contains(x) {
                let k = choose|k: int|
                    0 <= k < n && (#[trigger] db.messages[k]).conversation_id == target
                        && db.messages[k].idx == x;
                assert(after.messages[k].conversation_id == target);
            } else {
                let g = choose|g: int|
                    0 <= g < indices(conv.messages).len() && indices(conv.messages)[g] == x;
                conv.messages.lemma_filter_contains(is_fresh(stored), g);
                let f = choose|f: int| 0 <= f < fresh.len() && fresh[f] == conv.messages[g];
                assert(after.messages[n + f] == rows[f]);
                assert(after.messages[n + f].conversation_id == target);
            }
        }
        assert(now =~= stored.union(given));
    }
}

/// Taking in again a conversation that has an external id, with more
/// messages, goes to the same conversation and adds no row for it: exactly
/// one row has its agent and external id. What is reported as added is the
/// `idx` of each message that the conversation had not stored before the
/// first time and that the first time did not bring.
pub proof fn lemma_reingest_appends(
    db: DatabaseView,
    agent_id: i64,
    first: ConversationView,
    first_workspace: Option<i64>,
    second: ConversationView,
    second_workspace: Option<i64>,
)
    requires
        db.consistent(),
        first.external_id is Some,
        second.external_id == first.external_id,
        tree_inserted(db, agent_id, first_workspace, first) is Ok,
        tree_inserted(tree_inserted(db, agent_id, first_workspace, first)->Ok_0.0, agent_id, second_workspace, second) is Ok,
    ensures
        ({
            let (db1, out1) = tree_inserted(db, agent_id, first_workspace, first)->Ok_0;
            let (db2, out2) = tree_inserted(db1, agent_id, second_workspace, second)->Ok_0;
            let key = has_external_key(agent_id, first.external_id->0);
            &&& out2.conversation_id == out1.conversation_id
            &&& db2.conversations.len() == db1.conversations.len()
            &&& exists|i: int|
                0 <= i < db2.conversations.len() && key(db2.conversations[i]) && forall|j: int|
                    0 <= j < db2.conversations.len() && key(#[trigger] db2.conversations[j]) ==> j
                        == i
            &&& out2.inserted_indices == indices(
                fresh_messages(
                    stored_indices(db.messages, out1.conversation_id).union(
                        indices(first.messages).to_set(),
                    ),
                    second.messages,
                ),
            )
        }),
{
    let (db1, out1) = tree_inserted(db, agent_id, first_workspace, first)->Ok_0;
    let (db2, out2) = tree_inserted(db1, agent_id, second_workspace, second)->Ok_0;
    let e = first.external_id->0;
    let key = has_external_key(agent_id, e);
    let at = first_index(db.conversations, key);
    lemma_first_index_found(db.conversations, key);
    // The first time leaves the conversation where a second look finds it.
    let place = if at < db.conversations.len() {
        at
    } else {
        db.conversations.len() as int
    };
    assert(key(db1.conversations[place]));
    assert forall|j: int| 0 <= j < place implies !key(#[trigger] db1.conversations[j]) by {
        assert(db1.conversations[j] == db.conversations[j]);
    }
    lemma_first_index(db1.conversations, key, place);
    assert(db1.conversations[place].id == out1.conversation_id);
    assert(out2.conversation_id == out1.conversation_id);
    // No other row has the key, since no two rows of one table do.
    lemma_insert_keeps_consistent(db, agent_id, first_workspace, first);
    lemma_insert_keeps_consistent(db1, agent_id, second_workspace, second);
    assert(key(db2.conversations[place]));
    assert forall|j: int|
        0 <= j < db2.conversations.len() && key(#[trigger] db2.conversations[j]) implies j
        == place by {
        if j < place {
            assert(!ConversationRow::clash(db2.conversations[j], db2.conversations[place]));
        } else if j > place {
            assert(!ConversationRow::clash(db2.conversations[place], db2.conversations[j]));
        }
    }
    lemma_stored_after_insert(db, agent_id, first_workspace, first);
}

/// Taking in a conversation only adds: every message and every mirror row
/// that was stored is still there, unchanged and in its place; so is every
/// conversation, but that the one added to may end later than it did.
pub proof fn lemma_insert_is_append_only(
    db: DatabaseView,
    agent_id: i64,
    workspace_id: Option<i64>,
    conv: ConversationView,
)
    ensures
        tree_inserted(db, agent_id, workspace_id, conv) matches Ok((after, _)) ==> {
            &&& after.agents == db.agents
            &&& after.workspaces == db.workspaces
            &&& after.meta == db.meta
            &&& db.messages.is_prefix_of(after.messages)
            &&& db.fts_messages.is_prefix_of(after.fts_messages)
            &&& after.conversations.len() >= db.conversations.len()
            &&& forall|i: int|
                0 <= i < db.conversations.len() ==> (#[trigger] after.conversations[i])
                    == (ConversationRowView {
                    ended_at: after.conversations[i].ended_at,
                    ..db.conversations[i]
                }) && (db.conversations[i].ended_at matches Some(before)
                    ==> after.conversations[i].ended_at matches Some(now) && now >= before)
        },
{
    if let Ok((after, _)) = tree_inserted(db, agent_id, workspace_id, conv) {
        assert(db.messages.is_prefix_of(after.messages));
        assert(db.fts_messages.is_prefix_of(after.fts_messages));
        if conv.external_id is Some {
            lemma_first_index_found(
                db.conversations,
                has_external_key(agent_id, conv.external_id->0),
            );
        }
        let at = continued_at(db.conversations, agent_id, conv.external_id);
        assert forall|i: int| 0 <= i < db.conversations.len() implies (
        #[trigger] after.conversations[i]) == (ConversationRowView {
            ended_at: after.conversations[i].ended_at,
            ..db.conversations[i]
        }) && (db.conversations[i].ended_at matches Some(before)
            ==> after.conversations[i].ended_at matches Some(now) && now >= before) by {
            if i != at {
                assert(after.conversations[i] == db.conversations[i]);
            }
        }
    }
}

} // verus!
