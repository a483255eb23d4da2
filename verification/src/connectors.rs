//! Connectors: from the files that an agent leaves on disk to conversations
//! in one common shape.

use crate::model::types::{
    role_named, Conversation, ConversationView, Message, MessageRole, MessageView, Snippet,
};
use crate::seqs::{first_index, lemma_first_index, views};
use crate::text::{copy_opt_text, opt_text};
use vstd::prelude::*;

pub mod codex;
pub mod json;
pub mod paths;
pub mod timestamp;

verus! {

/// Why a connector failed.
#[derive(Clone, Copy, Debug, PartialEq, Eq, Structural)]
pub enum ConnectorError {
    /// The store of the agent could not be read.
    Io,
    /// A file is not of the format that its name promises.
    Parse,
    /// The place of the store is not set, or is no directory.
    Configuration,
}

/// What a scan is given: where the store of the agent lies, and the instant
/// (milliseconds since the epoch) before which messages are of no interest.
#[derive(Clone, Debug, PartialEq, Eq)]
pub struct ScanContext {
    pub data_root: String,
    pub since_ts: Option<i64>,
}

/// Whether the store of an agent is there, and the paths that show it.
#[derive(Clone, Debug, PartialEq, Eq)]
pub struct DetectionResult {
    pub detected: bool,
    pub evidence: Vec<String>,
}

/// One message of a conversation, in the common shape.
#[derive(Clone, Debug, PartialEq, Eq)]
pub struct NormalizedMessage {
    pub idx: i64,
    pub role: String,
    pub author: Option<String>,
    pub created_at: Option<i64>,
    pub content: String,
    /// The record that the message was read from, as JSON text.
    pub extra: String,
    pub snippets: Vec<Snippet>,
}

/// What a [`NormalizedMessage`] holds, as mathematical values.
pub struct NormalizedMessageView {
    pub idx: i64,
    pub role: Seq<char>,
    pub author: Option<Seq<char>>,
    pub created_at: Option<i64>,
    pub content: Seq<char>,
    pub extra: Seq<char>,
    pub snippets: Seq<Snippet>,
}

impl View for NormalizedMessage {
    type V = NormalizedMessageView;

    open spec fn view(&self) -> NormalizedMessageView {
        NormalizedMessageView {
            idx: self.idx,
            role: self.role@,
            author: opt_text(self.author),
            created_at: self.created_at,
            content: self.content@,
            extra: self.extra@,
            snippets: self.snippets@,
        }
    }
}

/// One entry of the metadata of a conversation.
#[derive(Clone, Debug, PartialEq, Eq)]
pub struct MetadataEntry {
    pub key: String,
    pub value: String,
}

impl View for MetadataEntry {
    type V = (Seq<char>, Seq<char>);

    open spec fn view(&self) -> (Seq<char>, Seq<char>) {
        (self.key@, self.value@)
    }
}

/// One conversation, in the common shape.
#[derive(Clone, Debug, PartialEq, Eq)]
pub struct NormalizedConversation {
    pub agent_slug: String,
    pub external_id: Option<String>,
    pub title: Option<String>,
    pub workspace: Option<String>,
    pub source_path: String,
    pub started_at: Option<i64>,
    pub ended_at: Option<i64>,
    pub metadata: Vec<MetadataEntry>,
    pub messages: Vec<NormalizedMessage>,
}

/// What a [`NormalizedConversation`] holds, as mathematical values.
pub struct NormalizedConversationView {
    pub agent_slug: Seq<char>,
    pub external_id: Option<Seq<char>>,
    pub title: Option<Seq<char>>,
    pub workspace: Option<Seq<char>>,
    pub source_path: Seq<char>,
    pub started_at: Option<i64>,
    pub ended_at: Option<i64>,
    pub metadata: Seq<(Seq<char>, Seq<char>)>,
    pub messages: Seq<NormalizedMessageView>,
}

impl View for NormalizedConversation {
    type V = NormalizedConversationView;

    open spec fn view(&self) -> NormalizedConversationView {
        NormalizedConversationView {
            agent_slug: self.agent_slug@,
            external_id: opt_text(self.external_id),
            title: opt_text(self.title),
            workspace: opt_text(self.workspace),
            source_path: self.source_path@,
            started_at: self.started_at,
            ended_at: self.ended_at,
            metadata: views(self.metadata@),
            messages: views(self.messages@),
        }
    }
}

/// The test "this entry has the key `key`".
pub open spec fn entry_has_key(key: Seq<char>) -> spec_fn((Seq<char>, Seq<char>)) -> bool {
    |entry: (Seq<char>, Seq<char>)| entry.0 == key
}

/// The value of the first entry of `metadata` with the key `key`.
pub open spec fn metadata_value(metadata: Seq<(Seq<char>, Seq<char>)>, key: Seq<char>) -> Option<
    Seq<char>,
> {
    let at = first_index(metadata, entry_has_key(key));
    if at < metadata.len() {
        Some(metadata[at].1)
    } else {
        None
    }
}

impl NormalizedConversation {
    /// The value that the metadata holds under `key`, if any.
    pub fn metadata_get(&self, key: &str) -> (value: Option<&str>)
        ensures
            match value {
                Some(v) => metadata_value(self@.metadata, key@) == Some(v@),
                None => metadata_value(self@.metadata, key@) is None,
            },
    {
        let wanted = String::from_str(key);
        let mut i: usize = 0;
        while i < self.metadata.len()
            invariant
                i <= self.metadata.len(),
                wanted@ == key@,
                forall|j: int| 0 <= j < i ==> !entry_has_key(key@)(#[trigger] self@.metadata[j]),
            decreases self.metadata.len() - i,
        {
            if self.metadata[i].key == wanted {
                proof {
                    assert(entry_has_key(key@)(self@.metadata[i as int]));
                    lemma_first_index(self@.metadata, entry_has_key(key@), i as int);
                }
                return Some(self.metadata[i].value.as_str());
            }
            assert(!entry_has_key(key@)(self@.metadata[i as int]));
            i = i + 1;
        }
        proof {
            lemma_first_index(self@.metadata, entry_has_key(key@), i as int);
        }
        None
    }
}

/// The message of the store that a message in the common shape becomes, if
/// its role is one of the four.
pub open spec fn stored_message(m: NormalizedMessageView) -> Option<MessageView> {
    match role_named(m.role) {
        Some(role) => Some(
            MessageView {
                id: None,
                idx: m.idx,
                role,
                author: m.author,
                created_at: m.created_at,
                content: m.content,
                extra_json: m.extra,
                snippets: m.snippets,
            },
        ),
        None => None,
    }
}

/// The messages of the store that `messages` become; none if one of them
/// has a role that is none of the four.
pub open spec fn stored_messages(messages: Seq<NormalizedMessageView>) -> Option<Seq<MessageView>>
    decreases messages.len(),
{
    if messages.len() == 0 {
        Some(Seq::empty())
    } else {
        match (stored_messages(messages.drop_last()), stored_message(messages.last())) {
            (Some(before), Some(m)) => Some(before.push(m)),
            _ => None,
        }
    }
}

/// The conversation of the store that a conversation in the common shape
/// becomes, with `metadata_json` for its metadata.
pub open spec fn stored_conversation(
    c: NormalizedConversationView,
    metadata_json: Seq<char>,
) -> Option<ConversationView> {
    match stored_messages(c.messages) {
        Some(messages) => Some(
            ConversationView {
                id: None,
                agent_slug: c.agent_slug,
                workspace: c.workspace,
                external_id: c.external_id,
                title: c.title,
                source_path: c.source_path,
                started_at: c.started_at,
                ended_at: c.ended_at,
                approx_tokens: None,
                metadata_json,
                messages,
            },
        ),
        None => None,
    }
}

impl NormalizedConversation {
    /// The conversation as the store takes it, with `metadata_json` as the
    /// JSON text of its metadata; `None` if a message has a role that is none
    /// of `user`, `assistant`, `system` and `tool`.
    pub fn to_conversation(&self, metadata_json: String) -> (conversation: Option<Conversation>)
        ensures
            match conversation {
                Some(c) => stored_conversation(self@, metadata_json@) == Some(c@),
                None => stored_conversation(self@, metadata_json@) is None,
            },
    {
        let mut messages: Vec<Message> = Vec::new();
        let mut i: usize = 0;
        assert(views(messages@) =~= Seq::<MessageView>::empty());
        while i < self.messages.len()
            invariant
                i <= self.messages.len(),
                stored_messages(self@.messages.take(i as int)) == Some(views(messages@)),
            decreases self.messages.len() - i,
        {
            let m = &self.messages[i];
            proof {
                assert(self@.messages.take(i as int + 1).drop_last() =~= self@.messages.take(
                    i as int,
                ));
                assert(self@.messages.take(i as int + 1).last() == m@);
            }
            let role = match MessageRole::parse(m.role.as_str()) {
                Some(role) => role,
                None => {
                    proof {
                        lemma_stored_messages_fail(self@.messages, i as int);
                    }
                    return None;
                },
            };
            let message = Message {
                id: None,
                idx: m.idx,
                role,
                author: copy_opt_text(&m.author),
                created_at: m.created_at,
                content: m.content.clone(),
                extra_json: m.extra.clone(),
                snippets: m.snippets.clone(),
            };
            let ghost before = views(messages@);
            assert(message@.snippets =~= m@.snippets);
            messages.push(message);
            assert(views(messages@) =~= before.push(message@));
            i = i + 1;
        }
        proof {
            assert(self@.messages.take(self.messages.len() as int) =~= self@.messages);
        }
        Some(
            Conversation {
                id: None,
                agent_slug: self.agent_slug.clone(),
                workspace: copy_opt_text(&self.workspace),
                external_id: copy_opt_text(&self.external_id),
                title: copy_opt_text(&self.title),
                source_path: self.source_path.clone(),
                started_at: self.started_at,
                ended_at: self.ended_at,
                approx_tokens: None,
                metadata_json,
                messages,
            },
        )
    }
}

/// Messages of which one has no role of the four do not become messages of
/// the store.
proof fn lemma_stored_messages_fail(messages: Seq<NormalizedMessageView>, at: int)
    requires
        0 <= at < messages.len(),
        stored_message(messages[at]) is None,
    ensures
        stored_messages(messages) is None,
    decreases messages.len(),
{
    if at < messages.len() - 1 {
        lemma_stored_messages_fail(messages.drop_last(), at);
    }
}

} // verus!
