//! Settings read from a configuration file: the presidential format as the
//! file describes it, the voices, and the prompt templates.

use crate::model::{lemma_views_push, text_views, views};
use crate::participant::{AIParticipant, ParticipantRole, ParticipantView};
use crate::text::{replace_all, replaced};
use vstd::prelude::*;
use vstd::string::StringExecFns;

verus! {

/// Mathematical content of a [`SectionConfig`].
pub struct SectionConfigView {
    pub name: Seq<char>,
    pub description: Seq<char>,
    pub speaker_order: Seq<usize>,
    pub max_tokens: u32,
}

/// Configuration for a debate section.
#[derive(Debug)]
pub struct SectionConfig {
    pub name: String,
    pub description: String,
    pub speaker_order: Vec<usize>,
    pub max_tokens: u32,
}

impl View for SectionConfig {
    type V = SectionConfigView;

    open spec fn view(&self) -> SectionConfigView {
        SectionConfigView {
            name: self.name@,
            description: self.description@,
            speaker_order: self.speaker_order@,
            max_tokens: self.max_tokens,
        }
    }
}

impl Clone for SectionConfig {
    fn clone(&self) -> (copy: Self)
        ensures
            copy@ == self@,
    {
        SectionConfig {
            name: self.name.clone(),
            description: self.description.clone(),
            speaker_order: self.speaker_order.clone(),
            max_tokens: self.max_tokens,
        }
    }
}

/// Mathematical content of a [`PresidentialConfig`].
pub struct PresidentialConfigView {
    pub name: Seq<char>,
    pub display_name: Seq<char>,
    pub min_participants: usize,
    pub max_participants: usize,
    pub sections: Seq<SectionConfigView>,
}

/// Configuration for presidential debate format.
#[derive(Debug)]
pub struct PresidentialConfig {
    pub name: String,
    pub display_name: String,
    pub min_participants: usize,
    pub max_participants: usize,
    /// The sections, or none where the file lists none.
    pub sections: Vec<SectionConfig>,
}

impl View for PresidentialConfig {
    type V = PresidentialConfigView;

    open spec fn view(&self) -> PresidentialConfigView {
        PresidentialConfigView {
            name: self.name@,
            display_name: self.display_name@,
            min_participants: self.min_participants,
            max_participants: self.max_participants,
            sections: views(self.sections@),
        }
    }
}

impl Clone for PresidentialConfig {
    fn clone(&self) -> (copy: Self)
        ensures
            copy@ == self@,
    {
        let mut sections: Vec<SectionConfig> = Vec::new();
        let mut i: usize = 0;
        while i < self.sections.len()
            invariant
                i <= self.sections@.len(),
                views(sections@) =~= views(self.sections@).take(i as int),
            decreases self.sections@.len() - i,
        {
            let section = self.sections[i].clone();
            proof {
                lemma_views_push(sections@, section);
                assert(views(self.sections@).take(i + 1) =~= views(self.sections@).take(
                    i as int,
                ).push(section@));
            }
            sections.push(section);
            i = i + 1;
        }
        assert(views(sections@) =~= views(self.sections@));
        PresidentialConfig {
            name: self.name.clone(),
            display_name: self.display_name.clone(),
            min_participants: self.min_participants,
            max_participants: self.max_participants,
            sections,
        }
    }
}

/// Mathematical content of a [`DebateFormatsConfig`].
pub struct DebateFormatsConfigView {
    pub presidential: PresidentialConfigView,
}

/// Configuration for all debate formats.
#[derive(Debug)]
pub struct DebateFormatsConfig {
    pub presidential: PresidentialConfig,
}

impl View for DebateFormatsConfig {
    type V = DebateFormatsConfigView;

    open spec fn view(&self) -> DebateFormatsConfigView {
        DebateFormatsConfigView { presidential: self.presidential@ }
    }
}

impl Clone for DebateFormatsConfig {
    fn clone(&self) -> (copy: Self)
        ensures
            copy@ == self@,
    {
        DebateFormatsConfig { presidential: self.presidential.clone() }
    }
}

/// Mathematical content of a [`VoicesConfig`].
pub struct VoicesConfigView {
    pub for_voice: Seq<char>,
    pub against_voice: Seq<char>,
    pub announcer_voice: Seq<char>,
}

/// Voice configuration for speech synthesis.
#[derive(Debug)]
pub struct VoicesConfig {
    pub for_voice: String,
    pub against_voice: String,
    pub announcer_voice: String,
}

impl View for VoicesConfig {
    type V = VoicesConfigView;

    open spec fn view(&self) -> VoicesConfigView {
        VoicesConfigView {
            for_voice: self.for_voice@,
            against_voice: self.against_voice@,
            announcer_voice: self.announcer_voice@,
        }
    }
}

impl Clone for VoicesConfig {
    fn clone(&self) -> (copy: Self)
        ensures
            copy@ == self@,
    {
        VoicesConfig {
            for_voice: self.for_voice.clone(),
            against_voice: self.against_voice.clone(),
            announcer_voice: self.announcer_voice.clone(),
        }
    }
}

pub const DEFAULT_FOR_VOICE: &'static str = "bf_emma";

pub const DEFAULT_AGAINST_VOICE: &'static str = "bm_george";

pub const DEFAULT_ANNOUNCER_VOICE: &'static str = "af_sky";

/// The voices used where none are configured.
pub open spec fn default_voices() -> VoicesConfigView {
    VoicesConfigView {
        for_voice: DEFAULT_FOR_VOICE@,
        against_voice: DEFAULT_AGAINST_VOICE@,
        announcer_voice: DEFAULT_ANNOUNCER_VOICE@,
    }
}

impl Default for VoicesConfig {
    fn default() -> (voices: Self)
        ensures
            voices@ == default_voices(),
    {
        VoicesConfig {
            for_voice: String::from_str(DEFAULT_FOR_VOICE),
            against_voice: String::from_str(DEFAULT_AGAINST_VOICE),
            announcer_voice: String::from_str(DEFAULT_ANNOUNCER_VOICE),
        }
    }
}

/// Mathematical content of a [`PromptsConfig`].
pub struct PromptsConfigView {
    pub for_prompt: Seq<char>,
    pub against_prompt: Seq<char>,
    pub announcer_template: Seq<char>,
}

/// System prompts configuration.
#[derive(Debug)]
pub struct PromptsConfig {
    pub for_prompt: String,
    pub against_prompt: String,
    /// Template of a section announcement, or empty where the file has none.
    pub announcer_template: String,
}

impl View for PromptsConfig {
    type V = PromptsConfigView;

    open spec fn view(&self) -> PromptsConfigView {
        PromptsConfigView {
            for_prompt: self.for_prompt@,
            against_prompt: self.against_prompt@,
            announcer_template: self.announcer_template@,
        }
    }
}

impl Clone for PromptsConfig {
    fn clone(&self) -> (copy: Self)
        ensures
            copy@ == self@,
    {
        PromptsConfig {
            for_prompt: self.for_prompt.clone(),
            against_prompt: self.against_prompt.clone(),
            announcer_template: self.announcer_template.clone(),
        }
    }
}

/// Mathematical content of a [`Config`].
pub struct ConfigView {
    pub debate: DebateFormatsConfigView,
    pub voices: VoicesConfigView,
    pub prompts: PromptsConfigView,
}

/// Root configuration structure.
#[derive(Debug)]
pub struct Config {
    pub debate: DebateFormatsConfig,
    pub voices: VoicesConfig,
    pub prompts: PromptsConfig,
}

impl View for Config {
    type V = ConfigView;

    open spec fn view(&self) -> ConfigView {
        ConfigView { debate: self.debate@, voices: self.voices@, prompts: self.prompts@ }
    }
}

impl Clone for Config {
    fn clone(&self) -> (copy: Self)
        ensures
            copy@ == self@,
    {
        Config {
            debate: self.debate.clone(),
            voices: self.voices.clone(),
            prompts: self.prompts.clone(),
        }
    }
}

pub const NAME_PLACEHOLDER: &'static str = "{name}";

pub const TOPIC_PLACEHOLDER: &'static str = "{topic}";

pub const OPPONENT_PLACEHOLDER: &'static str = "{opponent_name}";

/// `template` with its placeholders filled in: first every `{name}`, then
/// every `{topic}`, then every `{opponent_name}`.
pub open spec fn filled_template(
    template: Seq<char>,
    name: Seq<char>,
    topic: Seq<char>,
    opponent_name: Seq<char>,
) -> Seq<char> {
    replaced(
        replaced(replaced(template, NAME_PLACEHOLDER@, name), TOPIC_PLACEHOLDER@, topic),
        OPPONENT_PLACEHOLDER@,
        opponent_name,
    )
}

impl Config {
    /// The system prompt for a participant, with placeholders replaced.
    pub fn get_prompt(&self, is_for: bool, name: &str, topic: &str, opponent_name: &str) -> (prompt:
        String)
        ensures
            prompt@ == filled_template(
                if is_for {
                    self@.prompts.for_prompt
                } else {
                    self@.prompts.against_prompt
                },
                name@,
                topic@,
                opponent_name@,
            ),
    {
        let template = if is_for {
            &self.prompts.for_prompt
        } else {
            &self.prompts.against_prompt
        };
        let named = replace_all(template.as_str(), NAME_PLACEHOLDER, name);
        let with_topic = replace_all(named.as_str(), TOPIC_PLACEHOLDER, topic);
        replace_all(with_topic.as_str(), OPPONENT_PLACEHOLDER, opponent_name)
    }

    /// The voice for a participant: the one of its side.
    pub fn get_voice(&self, is_for: bool) -> (voice: &str)
        ensures
            voice@ == (if is_for {
                self@.voices.for_voice
            } else {
                self@.voices.against_voice
            }),
    {
        if is_for {
            self.voices.for_voice.as_str()
        } else {
            self.voices.against_voice.as_str()
        }
    }
}

pub const FIRST_DEFAULT_NAME: &'static str = "Candidate A";

pub const SECOND_DEFAULT_NAME: &'static str = "Candidate B";

pub const THIRD_DEFAULT_NAME: &'static str = "Candidate C";

pub const FOURTH_DEFAULT_NAME: &'static str = "Candidate D";

/// The name of the participant `index` where none is given: the four
/// default names in turn.
pub open spec fn default_name(index: int) -> Seq<char> {
    if index % 4 == 0 {
        FIRST_DEFAULT_NAME@
    } else if index % 4 == 1 {
        SECOND_DEFAULT_NAME@
    } else if index % 4 == 2 {
        THIRD_DEFAULT_NAME@
    } else {
        FOURTH_DEFAULT_NAME@
    }
}

/// The side of the participant `index`: for and against in turn, the first
/// participant arguing for the topic.
pub open spec fn default_role(index: int) -> ParticipantRole {
    if index % 2 == 0 {
        ParticipantRole::For
    } else {
        ParticipantRole::Against
    }
}

/// The participant with the index `index` for the model `model`: it bears
/// the name given for it, or its default name, takes its default side and
/// speaks with the voice of that side.
pub open spec fn seated(
    voices: VoicesConfigView,
    names: Seq<Seq<char>>,
    model: Seq<char>,
    index: int,
) -> ParticipantView {
    ParticipantView {
        name: if index < names.len() {
            names[index]
        } else {
            default_name(index)
        },
        model,
        role: default_role(index),
        custom_system_prompt: None,
        voice_id: Some(
            if default_role(index) == ParticipantRole::For {
                voices.for_voice
            } else {
                voices.against_voice
            },
        ),
    }
}

impl Config {
    /// One participant for each model, in order.
    pub fn participants_for(&self, models: &Vec<String>, names: &Vec<String>) -> (people: Vec<
        AIParticipant,
    >)
        ensures
            people@.len() == models@.len(),
            forall|i: int|
                0 <= i < models@.len() ==> (#[trigger] people@[i])@ == seated(
                    self@.voices,
                    text_views(names@),
                    models@[i]@,
                    i,
                ),
    {
        let mut people: Vec<AIParticipant> = Vec::new();
        let mut i: usize = 0;
        while i < models.len()
            invariant
                i <= models@.len(),
                people@.len() == i,
                forall|k: int|
                    0 <= k < i ==> (#[trigger] people@[k])@ == seated(
                        self@.voices,
                        text_views(names@),
                        models@[k]@,
                        k,
                    ),
            decreases models@.len() - i,
        {
            let name: &str = if i < names.len() {
                names[i].as_str()
            } else if i % 4 == 0 {
                FIRST_DEFAULT_NAME
            } else if i % 4 == 1 {
                SECOND_DEFAULT_NAME
            } else if i % 4 == 2 {
                THIRD_DEFAULT_NAME
            } else {
                FOURTH_DEFAULT_NAME
            };
            let role = if i % 2 == 0 {
                ParticipantRole::For
            } else {
                ParticipantRole::Against
            };
            let voice = self.get_voice(role == ParticipantRole::For);
            let person = AIParticipant::new(name, models[i].as_str(), role).with_voice(voice);
            people.push(person);
            i = i + 1;
        }
        people
    }
}

pub const DEFAULT_FORMAT_NAME: &'static str = "presidential";

pub const DEFAULT_FORMAT_DISPLAY_NAME: &'static str = "Presidential Debate (Lincoln-Douglas Style)";

pub const DEFAULT_ANNOUNCER_TEMPLATE: &'static str =
    "[DEBATE SECTION: {section_name}]\n{section_description}";

pub const DEFAULT_FOR_PROMPT: &'static str =
    "You are {name} participating in a formal presidential-style debate.\n\nDEBATE TOPIC: {topic}\n\nYOUR POSITION: You are arguing IN FAVOR of the topic.\nYOUR OPPONENT: {opponent_name}\n\nDEBATE RULES:\n- Present clear, compelling arguments supported by evidence and reasoning\n- Address the specific question or topic directly\n- Acknowledge and counter your opponent's arguments respectfully\n- Use rhetorical techniques: ethos (credibility), pathos (emotion), logos (logic)\n- Maintain a professional, presidential tone throughout\n- Do NOT acknowledge being an AI - stay fully in character\n\nSPEAKING STYLE:\n- Speak directly to the audience\n- Use confident, measured language befitting a presidential candidate\n- Structure your responses with clear opening, supporting points, and conclusion\n\nCRITICAL OUTPUT RULES:\n- Output ONLY your spoken words - no scene directions or stage actions\n- Do NOT include any text in parentheses like \"(Steps to podium)\" or \"(Leans forward)\"\n- Do NOT include narration, descriptions of gestures, movements, or tone\n- Do NOT include asterisks for emphasis or any markdown formatting\n- The announcer provides context - just deliver your argument directly\n";

pub const DEFAULT_AGAINST_PROMPT: &'static str =
    "You are {name} participating in a formal presidential-style debate.\n\nDEBATE TOPIC: {topic}\n\nYOUR POSITION: You are arguing AGAINST the topic.\nYOUR OPPONENT: {opponent_name}\n\nDEBATE RULES:\n- Present clear, compelling arguments supported by evidence and reasoning\n- Address the specific question or topic directly\n- Acknowledge and counter your opponent's arguments respectfully\n- Use rhetorical techniques: ethos (credibility), pathos (emotion), logos (logic)\n- Maintain a professional, presidential tone throughout\n- Do NOT acknowledge being an AI - stay fully in character\n\nSPEAKING STYLE:\n- Speak directly to the audience\n- Use confident, measured language befitting a presidential candidate\n- Structure your responses with clear opening, supporting points, and conclusion\n\nCRITICAL OUTPUT RULES:\n- Output ONLY your spoken words - no scene directions or stage actions\n- Do NOT include any text in parentheses like \"(Steps to podium)\" or \"(Leans forward)\"\n- Do NOT include narration, descriptions of gestures, movements, or tone\n- Do NOT include asterisks for emphasis or any markdown formatting\n- The announcer provides context - just deliver your argument directly\n";

pub const DEFAULT_OPENING_NAME: &'static str = "Opening Statements";

pub const DEFAULT_OPENING_DESCRIPTION: &'static str =
    "Each candidate presents their opening position.";

pub const DEFAULT_RESPONSE_NAME: &'static str = "Direct Response";

pub const DEFAULT_RESPONSE_DESCRIPTION: &'static str =
    "Candidates respond to opening arguments.";

pub const DEFAULT_POLICY_NAME: &'static str = "Policy Discussion";

pub const DEFAULT_POLICY_DESCRIPTION: &'static str =
    "Candidates present policy positions.";

pub const DEFAULT_CROSS_NAME: &'static str = "Cross-Examination";

pub const DEFAULT_CROSS_DESCRIPTION: &'static str =
    "Candidates challenge each other's positions.";

pub const DEFAULT_REBUTTALS_NAME: &'static str = "Final Rebuttals";

pub const DEFAULT_REBUTTALS_DESCRIPTION: &'static str =
    "Candidates address opponent's strongest points.";

pub const DEFAULT_CLOSING_NAME: &'static str = "Closing Statements";

pub const DEFAULT_CLOSING_DESCRIPTION: &'static str =
    "Final appeals to the audience.";

/// Speaker order with the first participant leading.
pub open spec fn first_then_second() -> Seq<usize> {
    seq![0usize, 1usize]
}

/// Speaker order with the second participant leading.
pub open spec fn second_then_first() -> Seq<usize> {
    seq![1usize, 0usize]
}

/// The sections of the built-in configuration.
pub open spec fn default_sections() -> Seq<SectionConfigView> {
    seq![
        SectionConfigView {
            name: DEFAULT_OPENING_NAME@,
            description: DEFAULT_OPENING_DESCRIPTION@,
            speaker_order: first_then_second(),
            max_tokens: 400,
        },
        SectionConfigView {
            name: DEFAULT_RESPONSE_NAME@,
            description: DEFAULT_RESPONSE_DESCRIPTION@,
            speaker_order: second_then_first(),
            max_tokens: 350,
        },
        SectionConfigView {
            name: DEFAULT_POLICY_NAME@,
            description: DEFAULT_POLICY_DESCRIPTION@,
            speaker_order: first_then_second(),
            max_tokens: 400,
        },
        SectionConfigView {
            name: DEFAULT_CROSS_NAME@,
            description: DEFAULT_CROSS_DESCRIPTION@,
            speaker_order: second_then_first(),
            max_tokens: 350,
        },
        SectionConfigView {
            name: DEFAULT_REBUTTALS_NAME@,
            description: DEFAULT_REBUTTALS_DESCRIPTION@,
            speaker_order: first_then_second(),
            max_tokens: 350,
        },
        SectionConfigView {
            name: DEFAULT_CLOSING_NAME@,
            description: DEFAULT_CLOSING_DESCRIPTION@,
            speaker_order: second_then_first(),
            max_tokens: 300,
        },
    ]
}

/// The built-in configuration.
pub open spec fn default_config_view() -> ConfigView {
    ConfigView {
        debate: DebateFormatsConfigView {
            presidential: PresidentialConfigView {
                name: DEFAULT_FORMAT_NAME@,
                display_name: DEFAULT_FORMAT_DISPLAY_NAME@,
                min_participants: 2,
                max_participants: 2,
                sections: default_sections(),
            },
        },
        voices: default_voices(),
        prompts: PromptsConfigView {
            for_prompt: DEFAULT_FOR_PROMPT@,
            against_prompt: DEFAULT_AGAINST_PROMPT@,
            announcer_template: DEFAULT_ANNOUNCER_TEMPLATE@,
        },
    }
}

fn section_config(name: &str, description: &str, second_leads: bool, max_tokens: u32) -> (section:
    SectionConfig)
    ensures
        section@ == (SectionConfigView {
            name: name@,
            description: description@,
            speaker_order: if second_leads {
                second_then_first()
            } else {
                first_then_second()
            },
            max_tokens,
        }),
{
    let speaker_order: Vec<usize> = if second_leads {
        vec![1, 0]
    } else {
        vec![0, 1]
    };
    assert(speaker_order@ =~= (if second_leads {
        second_then_first()
    } else {
        first_then_second()
    }));
    SectionConfig {
        name: String::from_str(name),
        description: String::from_str(description),
        speaker_order,
        max_tokens,
    }
}

/// The configuration that is used where no file is given.
pub fn default_config() -> (config: Config)
    ensures
        config@ == default_config_view(),
{
    let mut sections: Vec<SectionConfig> = Vec::new();
    sections.push(
        section_config(DEFAULT_OPENING_NAME, DEFAULT_OPENING_DESCRIPTION, false, 400),
    );
    sections.push(
        section_config(DEFAULT_RESPONSE_NAME, DEFAULT_RESPONSE_DESCRIPTION, true, 350),
    );
    sections.push(
        section_config(DEFAULT_POLICY_NAME, DEFAULT_POLICY_DESCRIPTION, false, 400),
    );
    sections.push(
        section_config(DEFAULT_CROSS_NAME, DEFAULT_CROSS_DESCRIPTION, true, 350),
    );
    sections.push(
        section_config(DEFAULT_REBUTTALS_NAME, DEFAULT_REBUTTALS_DESCRIPTION, false, 350),
    );
    sections.push(
        section_config(DEFAULT_CLOSING_NAME, DEFAULT_CLOSING_DESCRIPTION, true, 300),
    );
    assert(views(sections@) =~= default_sections());
    Config {
        debate: DebateFormatsConfig {
            presidential: PresidentialConfig {
                name: String::from_str(DEFAULT_FORMAT_NAME),
                display_name: String::from_str(DEFAULT_FORMAT_DISPLAY_NAME),
                min_participants: 2,
                max_participants: 2,
                sections,
            },
        },
        voices: VoicesConfig::default(),
        prompts: PromptsConfig {
            for_prompt: String::from_str(DEFAULT_FOR_PROMPT),
            against_prompt: String::from_str(DEFAULT_AGAINST_PROMPT),
            announcer_template: String::from_str(DEFAULT_ANNOUNCER_TEMPLATE),
        },
    }
}

} // verus!
