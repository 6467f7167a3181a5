//! The values a debate produces: messages of a conversation history,
//! transcript entries and lifecycle events.

use vstd::prelude::*;
use vstd::string::StringExecFns;

verus! {

/// Who a message of a conversation history is attributed to.
#[derive(Debug, Clone, Copy, PartialEq, Eq, Structural)]
pub enum ChatRole {
    /// Instructions that open a history.
    System,
    /// What the participant is asked or told.
    User,
    /// What the participant itself said.
    Assistant,
}

/// Mathematical content of a [`ChatMessage`].
pub struct ChatMessageView {
    pub role: ChatRole,
    pub content: Seq<char>,
}

/// One role-tagged message of a participant's conversation history.
#[derive(Debug)]
pub struct ChatMessage {
    pub role: ChatRole,
    pub content: String,
}

impl View for ChatMessage {
    type V = ChatMessageView;

    open spec fn view(&self) -> ChatMessageView {
        ChatMessageView { role: self.role, content: self.content@ }
    }
}

impl Clone for ChatMessage {
    fn clone(&self) -> (copy: Self)
        ensures
            copy@ == self@,
    {
        ChatMessage { role: self.role, content: self.content.clone() }
    }
}

impl ChatMessage {
    /// A system message.
    pub fn system(content: &str) -> (message: Self)
        ensures
            message@ == system_message(content@),
    {
        ChatMessage { role: ChatRole::System, content: String::from_str(content) }
    }

    /// A user message.
    pub fn user(content: &str) -> (message: Self)
        ensures
            message@ == user_message(content@),
    {
        ChatMessage { role: ChatRole::User, content: String::from_str(content) }
    }

    /// An assistant message.
    pub fn assistant(content: &str) -> (message: Self)
        ensures
            message@ == assistant_message(content@),
    {
        ChatMessage { role: ChatRole::Assistant, content: String::from_str(content) }
    }
}

pub open spec fn system_message(content: Seq<char>) -> ChatMessageView {
    ChatMessageView { role: ChatRole::System, content }
}

pub open spec fn user_message(content: Seq<char>) -> ChatMessageView {
    ChatMessageView { role: ChatRole::User, content }
}

pub open spec fn assistant_message(content: Seq<char>) -> ChatMessageView {
    ChatMessageView { role: ChatRole::Assistant, content }
}

/// Mathematical content of a [`DebateMessage`].
pub struct MessageView {
    pub section: Seq<char>,
    pub speaker_index: usize,
    pub speaker_name: Seq<char>,
    pub content: Seq<char>,
}

/// The accepted text of one turn.
#[derive(Debug)]
pub struct DebateMessage {
    /// Name of the section in which this was spoken.
    pub section: String,
    /// Index of the speaker among the participants.
    pub speaker_index: usize,
    /// Speaker's name.
    pub speaker_name: String,
    /// The sanitized text.
    pub content: String,
}

impl View for DebateMessage {
    type V = MessageView;

    open spec fn view(&self) -> MessageView {
        MessageView {
            section: self.section@,
            speaker_index: self.speaker_index,
            speaker_name: self.speaker_name@,
            content: self.content@,
        }
    }
}

impl Clone for DebateMessage {
    fn clone(&self) -> (copy: Self)
        ensures
            copy@ == self@,
    {
        DebateMessage {
            section: self.section.clone(),
            speaker_index: self.speaker_index,
            speaker_name: self.speaker_name.clone(),
            content: self.content.clone(),
        }
    }
}

/// Mathematical content of a [`DebateEvent`].
pub enum EventView {
    SectionStart { name: Seq<char>, description: Seq<char> },
    SpeakerStart { name: Seq<char>, role: Seq<char> },
    SpeakerMessage { name: Seq<char>, content: Seq<char> },
    DebateEnd,
}

/// What the orchestrator tells its caller while a debate runs.
#[derive(Debug)]
pub enum DebateEvent {
    /// A new section is starting.
    SectionStart { name: String, description: String },
    /// A participant is about to speak.
    SpeakerStart { name: String, role: String },
    /// A participant has finished speaking.
    SpeakerMessage { name: String, content: String },
    /// The debate has concluded.
    DebateEnd,
}

impl View for DebateEvent {
    type V = EventView;

    open spec fn view(&self) -> EventView {
        match self {
            DebateEvent::SectionStart { name, description } => EventView::SectionStart {
                name: name@,
                description: description@,
            },
            DebateEvent::SpeakerStart { name, role } => EventView::SpeakerStart {
                name: name@,
                role: role@,
            },
            DebateEvent::SpeakerMessage { name, content } => EventView::SpeakerMessage {
                name: name@,
                content: content@,
            },
            DebateEvent::DebateEnd => EventView::DebateEnd,
        }
    }
}

impl Clone for DebateEvent {
    fn clone(&self) -> (copy: Self)
        ensures
            copy@ == self@,
    {
        match self {
            DebateEvent::SectionStart { name, description } => DebateEvent::SectionStart {
                name: name.clone(),
                description: description.clone(),
            },
            DebateEvent::SpeakerStart { name, role } => DebateEvent::SpeakerStart {
                name: name.clone(),
                role: role.clone(),
            },
            DebateEvent::SpeakerMessage { name, content } => DebateEvent::SpeakerMessage {
                name: name.clone(),
                content: content.clone(),
            },
            DebateEvent::DebateEnd => DebateEvent::DebateEnd,
        }
    }
}

} // verus!
