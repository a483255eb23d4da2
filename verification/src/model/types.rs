//! Agents, conversations and messages as the store keeps them.

use crate::seqs::views;
use crate::text::opt_text;
use vstd::prelude::*;

verus! {

/// What kind of program an agent is.
#[derive(Clone, Copy, Debug, PartialEq, Eq, Structural)]
pub enum AgentKind {
    Cli,
    Daemon,
    Other,
}

/// The kind that the text `name` stands for, if it stands for one.
pub open spec fn kind_named(name: Seq<char>) -> Option<AgentKind> {
    if name == "cli"@ {
        Some(AgentKind::Cli)
    } else if name == "daemon"@ {
        Some(AgentKind::Daemon)
    } else if name == "other"@ {
        Some(AgentKind::Other)
    } else {
        None
    }
}

impl AgentKind {
    /// The text that stands for this kind.
    pub open spec fn name(self) -> Seq<char> {
        match self {
            AgentKind::Cli => "cli"@,
            AgentKind::Daemon => "daemon"@,
            AgentKind::Other => "other"@,
        }
    }

    /// The text that stands for this kind.
    pub fn as_str(self) -> (name: &'static str)
        ensures
            name@ == self.name(),
    {
        match self {
            AgentKind::Cli => "cli",
            AgentKind::Daemon => "daemon",
            AgentKind::Other => "other",
        }
    }

    /// The kind that `name` stands for: one of `cli`, `daemon` and `other`,
    /// written exactly so.
    pub fn parse(name: &str) -> (kind: Option<AgentKind>)
        ensures
            kind == kind_named(name@),
    {
        let name = String::from_str(name);
        if name == String::from_str("cli") {
            Some(AgentKind::Cli)
        } else if name == String::from_str("daemon") {
            Some(AgentKind::Daemon)
        } else if name == String::from_str("other") {
            Some(AgentKind::Other)
        } else {
            None
        }
    }
}

/// Each kind is the one its own name stands for.
pub proof fn lemma_kind_name_roundtrip(kind: AgentKind)
    ensures
        kind_named(kind.name()) == Some(kind),
{
    reveal_strlit("cli");
    reveal_strlit("daemon");
    reveal_strlit("other");
    assert("cli"@.len() == 3);
    assert("daemon"@.len() == 6);
    assert("other"@.len() == 5);
}

/// Who wrote a message.
#[derive(Clone, Copy, Debug, PartialEq, Eq, Structural)]
pub enum MessageRole {
    User,
    Assistant,
    System,
    Tool,
}

/// The role that the text `name` stands for, if it stands for one.
pub open spec fn role_named(name: Seq<char>) -> Option<MessageRole> {
    if name == "user"@ {
        Some(MessageRole::User)
    } else if name == "assistant"@ {
        Some(MessageRole::Assistant)
    } else if name == "system"@ {
        Some(MessageRole::System)
    } else if name == "tool"@ {
        Some(MessageRole::Tool)
    } else {
        None
    }
}

impl MessageRole {
    /// The text that stands for this role.
    pub open spec fn name(self) -> Seq<char> {
        match self {
            MessageRole::User => "user"@,
            MessageRole::Assistant => "assistant"@,
            MessageRole::System => "system"@,
            MessageRole::Tool => "tool"@,
        }
    }

    /// The text that stands for this role.
    pub fn as_str(self) -> (name: &'static str)
        ensures
            name@ == self.name(),
    {
        match self {
            MessageRole::User => "user",
            MessageRole::Assistant => "assistant",
            MessageRole::System => "system",
            MessageRole::Tool => "tool",
        }
    }

    /// The role that `name` stands for: one of `user`, `assistant`, `system`
    /// and `tool`, written exactly so. No other text stands for a role.
    pub fn parse(name: &str) -> (role: Option<MessageRole>)
        ensures
            role == role_named(name@),
    {
        let name = String::from_str(name);
        if name == String::from_str("user") {
            Some(MessageRole::User)
        } else if name == String::from_str("assistant") {
            Some(MessageRole::Assistant)
        } else if name == String::from_str("system") {
            Some(MessageRole::System)
        } else if name == String::from_str("tool") {
            Some(MessageRole::Tool)
        } else {
            None
        }
    }
}

/// Each role is the one its own name stands for.
pub proof fn lemma_role_name_roundtrip(role: MessageRole)
    ensures
        role_named(role.name()) == Some(role),
{
    reveal_strlit("user");
    reveal_strlit("assistant");
    reveal_strlit("system");
    reveal_strlit("tool");
    assert("user"@.len() == 4);
    assert("assistant"@.len() == 9);
    assert("system"@.len() == 6);
    assert("tool"@[0] == 't');
    assert("user"@[0] == 'u');
}

/// A stretch of a message's text that matched a query: the characters from
/// `start` up to, not including, `end`.
#[derive(Clone, Copy, Debug, PartialEq, Eq, Structural)]
pub struct Snippet {
    pub start: usize,
    pub end: usize,
}

/// A registered source of logs.
#[derive(Clone, Debug, PartialEq, Eq)]
pub struct Agent {
    pub id: Option<i64>,
    pub slug: String,
    pub name: String,
    pub version: Option<String>,
    pub kind: AgentKind,
}

/// What an [`Agent`] holds, as mathematical values.
pub struct AgentView {
    pub id: Option<i64>,
    pub slug: Seq<char>,
    pub name: Seq<char>,
    pub version: Option<Seq<char>>,
    pub kind: AgentKind,
}

impl View for Agent {
    type V = AgentView;

    open spec fn view(&self) -> AgentView {
        AgentView {
            id: self.id,
            slug: self.slug@,
            name: self.name@,
            version: opt_text(self.version),
            kind: self.kind,
        }
    }
}

/// One turn of a conversation.
#[derive(Clone, Debug, PartialEq, Eq)]
pub struct Message {
    pub id: Option<i64>,
    pub idx: i64,
    pub role: MessageRole,
    pub author: Option<String>,
    pub created_at: Option<i64>,
    pub content: String,
    pub extra_json: String,
    pub snippets: Vec<Snippet>,
}

/// What a [`Message`] holds, as mathematical values.
pub struct MessageView {
    pub id: Option<i64>,
    pub idx: i64,
    pub role: MessageRole,
    pub author: Option<Seq<char>>,
    pub created_at: Option<i64>,
    pub content: Seq<char>,
    pub extra_json: Seq<char>,
    pub snippets: Seq<Snippet>,
}

impl View for Message {
    type V = MessageView;

    open spec fn view(&self) -> MessageView {
        MessageView {
            id: self.id,
            idx: self.idx,
            role: self.role,
            author: opt_text(self.author),
            created_at: self.created_at,
            content: self.content@,
            extra_json: self.extra_json@,
            snippets: self.snippets@,
        }
    }
}

/// One session of an agent, with its messages.
#[derive(Clone, Debug, PartialEq, Eq)]
pub struct Conversation {
    pub id: Option<i64>,
    pub agent_slug: String,
    pub workspace: Option<String>,
    pub external_id: Option<String>,
    pub title: Option<String>,
    pub source_path: String,
    pub started_at: Option<i64>,
    pub ended_at: Option<i64>,
    pub approx_tokens: Option<i64>,
    pub metadata_json: String,
    pub messages: Vec<Message>,
}

/// What a [`Conversation`] holds, as mathematical values.
pub struct ConversationView {
    pub id: Option<i64>,
    pub agent_slug: Seq<char>,
    pub workspace: Option<Seq<char>>,
    pub external_id: Option<Seq<char>>,
    pub title: Option<Seq<char>>,
    pub source_path: Seq<char>,
    pub started_at: Option<i64>,
    pub ended_at: Option<i64>,
    pub approx_tokens: Option<i64>,
    pub metadata_json: Seq<char>,
    pub messages: Seq<MessageView>,
}

impl View for Conversation {
    type V = ConversationView;

    open spec fn view(&self) -> ConversationView {
        ConversationView {
            id: self.id,
            agent_slug: self.agent_slug@,
            workspace: opt_text(self.workspace),
            external_id: opt_text(self.external_id),
            title: opt_text(self.title),
            source_path: self.source_path@,
            started_at: self.started_at,
            ended_at: self.ended_at,
            approx_tokens: self.approx_tokens,
            metadata_json: self.metadata_json@,
            messages: views(self.messages@),
        }
    }
}

} // verus!
