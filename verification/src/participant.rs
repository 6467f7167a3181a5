//! Debate participants and the side each one argues.

use crate::model::optional_text;
use vstd::prelude::*;
use vstd::string::StringExecFns;

verus! {

/// The side a participant takes in the debate.
#[derive(Debug, Clone, Copy, PartialEq, Eq, Structural)]
pub enum ParticipantRole {
    /// Arguing in favor of the topic.
    For,
    /// Arguing against the topic.
    Against,
    /// Neutral or moderating role.
    Neutral,
}

impl ParticipantRole {
    /// The upper-case label of the role.
    pub open spec fn label(self) -> Seq<char> {
        match self {
            ParticipantRole::For => "FOR"@,
            ParticipantRole::Against => "AGAINST"@,
            ParticipantRole::Neutral => "NEUTRAL"@,
        }
    }

    pub fn display_name(&self) -> (label: &'static str)
        ensures
            label@ == self.label(),
    {
        match self {
            ParticipantRole::For => "FOR",
            ParticipantRole::Against => "AGAINST",
            ParticipantRole::Neutral => "NEUTRAL",
        }
    }
}

/// Mathematical content of an [`AIParticipant`].
pub struct ParticipantView {
    pub name: Seq<char>,
    pub model: Seq<char>,
    pub role: ParticipantRole,
    pub custom_system_prompt: Option<Seq<char>>,
    pub voice_id: Option<Seq<char>>,
}

impl ParticipantView {
    /// The display name followed by the role label in parentheses.
    pub open spec fn display_name_with_role(self) -> Seq<char> {
        self.name + " ("@ + self.role.label() + ")"@
    }
}

/// One debater: who it is, which model speaks for it and which side it takes.
#[derive(Debug)]
pub struct AIParticipant {
    /// Display name for this participant.
    pub name: String,
    /// Identifier of the language model that speaks for this participant.
    pub model: String,
    /// The side this participant argues.
    pub role: ParticipantRole,
    /// System prompt that replaces the one the format would generate.
    pub custom_system_prompt: Option<String>,
    /// Voice used when the transcript is read aloud.
    pub voice_id: Option<String>,
}

impl View for AIParticipant {
    type V = ParticipantView;

    open spec fn view(&self) -> ParticipantView {
        ParticipantView {
            name: self.name@,
            model: self.model@,
            role: self.role,
            custom_system_prompt: optional_text(self.custom_system_prompt),
            voice_id: optional_text(self.voice_id),
        }
    }
}

impl Clone for AIParticipant {
    fn clone(&self) -> (copy: Self)
        ensures
            copy@ == self@,
    {
        AIParticipant {
            name: self.name.clone(),
            model: self.model.clone(),
            role: self.role,
            custom_system_prompt: match &self.custom_system_prompt {
                Some(prompt) => Some(prompt.clone()),
                None => None,
            },
            voice_id: match &self.voice_id {
                Some(voice) => Some(voice.clone()),
                None => None,
            },
        }
    }
}

impl AIParticipant {
    /// A participant with no prompt override and no voice.
    pub fn new(name: &str, model: &str, role: ParticipantRole) -> (p: Self)
        ensures
            p@ == (ParticipantView {
                name: name@,
                model: model@,
                role: role,
                custom_system_prompt: None,
                voice_id: None,
            }),
    {
        AIParticipant {
            name: String::from_str(name),
            model: String::from_str(model),
            role,
            custom_system_prompt: None,
            voice_id: None,
        }
    }

    /// Replaces the format-derived system prompt by `prompt`.
    pub fn with_system_prompt(self, prompt: &str) -> (p: Self)
        ensures
            p@ == (ParticipantView { custom_system_prompt: Some(prompt@), ..self@ }),
    {
        let mut p = self;
        p.custom_system_prompt = Some(String::from_str(prompt));
        p
    }

    /// Sets the voice used for this participant.
    pub fn with_voice(self, voice_id: &str) -> (p: Self)
        ensures
            p@ == (ParticipantView { voice_id: Some(voice_id@), ..self@ }),
    {
        let mut p = self;
        p.voice_id = Some(String::from_str(voice_id));
        p
    }

    /// `"{name} ({ROLE})"`.
    pub fn display_name_with_role(&self) -> (text: String)
        ensures
            text@ == self@.display_name_with_role(),
    {
        let mut text = self.name.clone();
        text.append(" (");
        text.append(self.role.display_name());
        text.append(")");
        text
    }
}

} // verus!
