//! Debate formats: the policy that turns a round count into the ordered
//! sections of a debate.

use crate::model::{lemma_views_push, views};
use crate::text::{
    contains, contains_text, decimal, decimal_string, same_text, to_lowercase, unicode_lowercase,
};
use vstd::prelude::*;
use vstd::string::StringExecFns;

verus! {

/// Mathematical content of a [`DebateSection`].
pub struct SectionView {
    pub name: Seq<char>,
    pub description: Seq<char>,
    pub speaker_order: Seq<usize>,
    pub max_tokens: u32,
}

/// A named phase of the debate with its speakers in order and the length
/// budget of a turn.
#[derive(Debug)]
pub struct DebateSection {
    /// Name of the section, announced to the participants.
    pub name: String,
    /// Instructions for this section.
    pub description: String,
    /// Indices of the participants who speak, in order. An index may occur
    /// several times or not at all.
    pub speaker_order: Vec<usize>,
    /// Upper bound on the length of each turn, in tokens.
    pub max_tokens: u32,
}

impl View for DebateSection {
    type V = SectionView;

    open spec fn view(&self) -> SectionView {
        SectionView {
            name: self.name@,
            description: self.description@,
            speaker_order: self.speaker_order@,
            max_tokens: self.max_tokens,
        }
    }
}

impl Clone for DebateSection {
    fn clone(&self) -> (copy: Self)
        ensures
            copy@ == self@,
    {
        DebateSection {
            name: self.name.clone(),
            description: self.description.clone(),
            speaker_order: self.speaker_order.clone(),
            max_tokens: self.max_tokens,
        }
    }
}

/// A debate format. Every answer is a function of the format alone, so that
/// two runs over the same format see the same debate.
pub trait DebateFormat: Send + Sync {
    /// The key under which the format is looked up.
    spec fn spec_name(&self) -> Seq<char>;

    /// The name shown to people.
    spec fn spec_display_name(&self) -> Seq<char>;

    /// The sections of the debate, in order.
    spec fn spec_sections(&self) -> Seq<SectionView>;

    /// The largest number of participants the format takes.
    spec fn spec_max_participants(&self) -> nat;

    /// The smallest number of participants the format takes.
    spec fn spec_min_participants(&self) -> nat;

    /// The system prompt of a participant.
    spec fn spec_system_prompt(
        &self,
        topic: Seq<char>,
        role_name: Seq<char>,
        opponent_name: Seq<char>,
    ) -> Seq<char>;

    /// Returns the name of this debate format.
    fn name(&self) -> (name: &str)
        ensures
            name@ == self.spec_name(),
    ;

    /// Returns the display name for the format.
    fn display_name(&self) -> (name: &str)
        ensures
            name@ == self.spec_display_name(),
    ;

    /// Returns all sections of the debate in order.
    fn sections(&self) -> (sections: Vec<DebateSection>)
        ensures
            views(sections@) == self.spec_sections(),
    ;

    /// Maximum number of participants allowed.
    fn max_participants(&self) -> (count: usize)
        ensures
            count == self.spec_max_participants(),
    ;

    /// Minimum number of participants required.
    fn min_participants(&self) -> (count: usize)
        ensures
            count == self.spec_min_participants(),
    ;

    /// The system prompt for a participant with the given role-qualified name
    /// facing the given opponent.
    fn system_prompt(&self, topic: &str, role_name: &str, opponent_name: &str) -> (prompt: String)
        ensures
            prompt@ == self.spec_system_prompt(topic@, role_name@, opponent_name@),
    ;
}

/// Fewest rounds of a presidential debate: opening, one round of main
/// arguments, rebuttal, closing.
pub const MIN_ROUNDS: u32 = 4;

/// Rounds of the default presidential debate.
pub const DEFAULT_ROUNDS: u32 = 6;

pub const PRESIDENTIAL_NAME: &'static str = "presidential";

pub const PRESIDENTIAL_DISPLAY_NAME: &'static str = "Presidential Debate (Michael Douglass Format)";

pub const OPENING_NAME: &'static str = "Opening Statements";

pub const OPENING_DESCRIPTION: &'static str =
    "Each candidate presents their initial position on the topic.";

pub const MAIN_NAME_PREFIX: &'static str = "Main Arguments - Round ";

pub const MAIN_DESCRIPTION: &'static str =
    "Candidates elaborate on their positions with supporting arguments.";

pub const REBUTTAL_NAME: &'static str = "Rebuttals";

pub const REBUTTAL_DESCRIPTION: &'static str = "Candidates respond to their opponent's arguments.";

pub const CLOSING_NAME: &'static str = "Closing Statements";

pub const CLOSING_DESCRIPTION: &'static str = "Final remarks and summation of positions.";

pub const OPENING_MAX_TOKENS: u32 = 300;

pub const MAIN_MAX_TOKENS: u32 = 400;

pub const REBUTTAL_MAX_TOKENS: u32 = 400;

pub const CLOSING_MAX_TOKENS: u32 = 250;

pub const PROMPT_INTRO: &'static str = "You are ";

pub const PROMPT_TOPIC: &'static str =
    " participating in a formal presidential-style debate.\n\nTOPIC: ";

pub const PROMPT_STANCE: &'static str = "\n\nYour role is to argue ";

pub const PROMPT_OPPONENT: &'static str = " the topic. Your opponent is ";

pub const PROMPT_GUIDELINES: &'static str =
    ".\n\nGuidelines:\n- Be persuasive, articulate, and professional\n- Use evidence and logical reasoning\n- Address your opponent's points when appropriate\n- Maintain a respectful but firm debating stance\n- Keep responses focused and within the time constraints\n- Do not break character or acknowledge being an AI\n\nSpeak directly as if you are at a podium addressing an audience.";

pub const STANCE_FOR: &'static str = "IN FAVOR OF";

pub const STANCE_AGAINST: &'static str = "AGAINST";

/// The round count a presidential debate is generated with: never under
/// [`MIN_ROUNDS`].
pub open spec fn effective_rounds(rounds: u32) -> u32 {
    if rounds < MIN_ROUNDS {
        MIN_ROUNDS
    } else {
        rounds
    }
}

/// Number of main-argument sections in a debate of `rounds` rounds.
pub open spec fn main_round_count(rounds: nat) -> nat {
    if rounds - 3 > 1 {
        (rounds - 3) as nat
    } else {
        1
    }
}

/// Speaker order with the first participant leading.
pub open spec fn first_leads() -> Seq<usize> {
    seq![0usize, 1usize]
}

/// Speaker order with the second participant leading.
pub open spec fn second_leads() -> Seq<usize> {
    seq![1usize, 0usize]
}

pub open spec fn opening_section() -> SectionView {
    SectionView {
        name: OPENING_NAME@,
        description: OPENING_DESCRIPTION@,
        speaker_order: first_leads(),
        max_tokens: OPENING_MAX_TOKENS,
    }
}

/// The main-argument section with zero-based index `index`: the first
/// participant leads the even ones, the second the odd ones.
pub open spec fn main_section(index: nat) -> SectionView {
    SectionView {
        name: MAIN_NAME_PREFIX@ + decimal(index + 1),
        description: MAIN_DESCRIPTION@,
        speaker_order: if index % 2 == 1 {
            second_leads()
        } else {
            first_leads()
        },
        max_tokens: MAIN_MAX_TOKENS,
    }
}

pub open spec fn rebuttal_section() -> SectionView {
    SectionView {
        name: REBUTTAL_NAME@,
        description: REBUTTAL_DESCRIPTION@,
        speaker_order: second_leads(),
        max_tokens: REBUTTAL_MAX_TOKENS,
    }
}

pub open spec fn closing_section() -> SectionView {
    SectionView {
        name: CLOSING_NAME@,
        description: CLOSING_DESCRIPTION@,
        speaker_order: first_leads(),
        max_tokens: CLOSING_MAX_TOKENS,
    }
}

/// The first `count` main-argument sections.
pub open spec fn main_sections(count: nat) -> Seq<SectionView> {
    Seq::new(count, |i: int| main_section(i as nat))
}

/// The sections of a presidential debate of `rounds` rounds: opening, the
/// main rounds, rebuttal, closing.
pub open spec fn presidential_sections(rounds: nat) -> Seq<SectionView> {
    seq![opening_section()] + main_sections(main_round_count(rounds)) + seq![
        rebuttal_section(),
        closing_section(),
    ]
}

/// The side a participant is told to argue, read off its role-qualified name.
pub open spec fn stance_of(role_name: Seq<char>) -> Seq<char> {
    if contains_text(role_name, "FOR"@) || contains_text(role_name, "Pro"@) {
        STANCE_FOR@
    } else {
        STANCE_AGAINST@
    }
}

/// The system prompt of the presidential format.
pub open spec fn presidential_prompt(
    topic: Seq<char>,
    role_name: Seq<char>,
    opponent_name: Seq<char>,
) -> Seq<char> {
    PROMPT_INTRO@ + role_name + PROMPT_TOPIC@ + topic + PROMPT_STANCE@ + stance_of(role_name)
        + PROMPT_OPPONENT@ + opponent_name + PROMPT_GUIDELINES@
}

/// A debate of at least four rounds has one opening section, `max(R − 3, 1)`
/// main-argument sections and two final ones, which makes `R` in all. It
/// starts with the opening section and ends with the closing one, and its
/// main-argument sections take turns at leading, the first participant
/// leading the first of them.
pub proof fn lemma_presidential_shape(rounds: nat)
    requires
        rounds >= 4,
    ensures
        main_round_count(rounds) == (if rounds - 3 > 1 {
            rounds - 3
        } else {
            1
        }),
        presidential_sections(rounds).len() == 1 + main_round_count(rounds) + 2,
        presidential_sections(rounds).len() == rounds,
        presidential_sections(rounds).first() == opening_section(),
        presidential_sections(rounds).last() == closing_section(),
        presidential_sections(rounds)[rounds - 2] == rebuttal_section(),
        forall|k: int|
            1 <= k <= main_round_count(rounds) ==> #[trigger] presidential_sections(rounds)[k]
                == main_section((k - 1) as nat),
        forall|k: int|
            1 <= k <= main_round_count(rounds) ==> (#[trigger] presidential_sections(
                rounds,
            )[k]).speaker_order == (if (k - 1) % 2 == 0 {
                first_leads()
            } else {
                second_leads()
            }),
{
}

/// A round count under four gives the debate of four rounds, and clamping
/// twice is clamping once.
pub proof fn lemma_rounds_clamped(
    rounds: u32,
    format: PresidentialDebateFormat,
    minimal: PresidentialDebateFormat,
)
    requires
        rounds < 4,
        format.rounds() == effective_rounds(rounds),
        minimal.rounds() == effective_rounds(4),
    ensures
        effective_rounds(rounds) == 4,
        effective_rounds(effective_rounds(rounds)) == effective_rounds(rounds),
        format.spec_sections() == minimal.spec_sections(),
        format.spec_sections() == presidential_sections(4),
{
}

/// A formal two-person debate: opening statements, a configurable number of
/// main-argument rounds, rebuttals, closing statements.
#[derive(Debug)]
pub struct PresidentialDebateFormat {
    rounds: u32,
}

impl Clone for PresidentialDebateFormat {
    fn clone(&self) -> (copy: Self)
        ensures
            copy.rounds() == self.rounds(),
    {
        proof {
            use_type_invariant(self);
        }
        PresidentialDebateFormat { rounds: self.rounds }
    }
}

impl PresidentialDebateFormat {
    #[verifier::type_invariant]
    spec fn rounds_clamped(self) -> bool {
        self.rounds >= MIN_ROUNDS
    }

    /// The round count the sections are generated from.
    pub closed spec fn rounds(self) -> u32 {
        self.rounds
    }

    /// A presidential debate of `rounds` rounds, or of [`MIN_ROUNDS`] where
    /// fewer are asked for.
    pub fn new(rounds: u32) -> (format: Self)
        ensures
            format.rounds() == effective_rounds(rounds),
    {
        PresidentialDebateFormat { rounds: if rounds < MIN_ROUNDS { MIN_ROUNDS } else { rounds } }
    }
}

impl Default for PresidentialDebateFormat {
    fn default() -> (format: Self)
        ensures
            format.rounds() == DEFAULT_ROUNDS,
    {
        PresidentialDebateFormat::new(DEFAULT_ROUNDS)
    }
}

fn first_leads_order() -> (order: Vec<usize>)
    ensures
        order@ == first_leads(),
{
    let order: Vec<usize> = vec![0, 1];
    assert(order@ =~= first_leads());
    order
}

fn second_leads_order() -> (order: Vec<usize>)
    ensures
        order@ == second_leads(),
{
    let order: Vec<usize> = vec![1, 0];
    assert(order@ =~= second_leads());
    order
}

impl DebateFormat for PresidentialDebateFormat {
    open spec fn spec_name(&self) -> Seq<char> {
        PRESIDENTIAL_NAME@
    }

    open spec fn spec_display_name(&self) -> Seq<char> {
        PRESIDENTIAL_DISPLAY_NAME@
    }

    open spec fn spec_sections(&self) -> Seq<SectionView> {
        presidential_sections(self.rounds() as nat)
    }

    open spec fn spec_max_participants(&self) -> nat {
        2
    }

    open spec fn spec_min_participants(&self) -> nat {
        2
    }

    open spec fn spec_system_prompt(
        &self,
        topic: Seq<char>,
        role_name: Seq<char>,
        opponent_name: Seq<char>,
    ) -> Seq<char> {
        presidential_prompt(topic, role_name, opponent_name)
    }

    fn name(&self) -> (name: &str) {
        PRESIDENTIAL_NAME
    }

    fn display_name(&self) -> (name: &str) {
        PRESIDENTIAL_DISPLAY_NAME
    }

    fn sections(&self) -> (sections: Vec<DebateSection>) {
        proof {
            use_type_invariant(self);
        }
        let mut sections: Vec<DebateSection> = Vec::new();
        sections.push(
            DebateSection {
                name: String::from_str(OPENING_NAME),
                description: String::from_str(OPENING_DESCRIPTION),
                speaker_order: first_leads_order(),
                max_tokens: OPENING_MAX_TOKENS,
            },
        );
        let main_rounds: u32 = self.rounds - 3;
        let mut i: u32 = 0;
        while i < main_rounds
            invariant
                i <= main_rounds,
                main_rounds == main_round_count(self.rounds() as nat),
                views(sections@) =~= seq![opening_section()] + main_sections(i as nat),
            decreases main_rounds - i,
        {
            let mut name = String::from_str(MAIN_NAME_PREFIX);
            name.append(decimal_string((i + 1) as u64).as_str());
            let order = if i % 2 == 1 {
                second_leads_order()
            } else {
                first_leads_order()
            };
            let section = DebateSection {
                name,
                description: String::from_str(MAIN_DESCRIPTION),
                speaker_order: order,
                max_tokens: MAIN_MAX_TOKENS,
            };
            proof {
                assert(section@ == main_section(i as nat));
                lemma_views_push(sections@, section);
                assert(main_sections((i + 1) as nat) =~= main_sections(i as nat).push(
                    main_section(i as nat),
                ));
            }
            sections.push(section);
            i = i + 1;
        }
        sections.push(
            DebateSection {
                name: String::from_str(REBUTTAL_NAME),
                description: String::from_str(REBUTTAL_DESCRIPTION),
                speaker_order: second_leads_order(),
                max_tokens: REBUTTAL_MAX_TOKENS,
            },
        );
        sections.push(
            DebateSection {
                name: String::from_str(CLOSING_NAME),
                description: String::from_str(CLOSING_DESCRIPTION),
                speaker_order: first_leads_order(),
                max_tokens: CLOSING_MAX_TOKENS,
            },
        );
        assert(views(sections@) =~= presidential_sections(self.rounds() as nat));
        sections
    }

    fn max_participants(&self) -> (count: usize) {
        2
    }

    fn min_participants(&self) -> (count: usize) {
        2
    }

    fn system_prompt(&self, topic: &str, role_name: &str, opponent_name: &str) -> (prompt: String) {
        let stance = if contains(role_name, "FOR") || contains(role_name, "Pro") {
            STANCE_FOR
        } else {
            STANCE_AGAINST
        };
        let mut prompt = String::from_str(PROMPT_INTRO);
        prompt.append(role_name);
        prompt.append(PROMPT_TOPIC);
        prompt.append(topic);
        prompt.append(PROMPT_STANCE);
        prompt.append(stance);
        prompt.append(PROMPT_OPPONENT);
        prompt.append(opponent_name);
        prompt.append(PROMPT_GUIDELINES);
        prompt
    }
}

/// Whether `format` behaves as the presidential format of `rounds` rounds.
pub open spec fn is_presidential<F: DebateFormat + ?Sized>(format: &F, rounds: u32) -> bool {
    &&& format.spec_name() == PRESIDENTIAL_NAME@
    &&& format.spec_display_name() == PRESIDENTIAL_DISPLAY_NAME@
    &&& format.spec_sections() == presidential_sections(effective_rounds(rounds) as nat)
    &&& format.spec_min_participants() == 2
    &&& format.spec_max_participants() == 2
    &&& forall|topic: Seq<char>, role_name: Seq<char>, opponent_name: Seq<char>|
        #[trigger] format.spec_system_prompt(topic, role_name, opponent_name)
            == presidential_prompt(topic, role_name, opponent_name)
}

/// The format registered under the lower-case key `key`.
pub fn format_for_key(key: &str, rounds: u32) -> (format: Option<Box<dyn DebateFormat>>)
    ensures
        format is Some <==> key@ == PRESIDENTIAL_NAME@,
        format matches Some(f) ==> is_presidential(&*f, rounds),
{
    if same_text(key, PRESIDENTIAL_NAME) {
        let format = PresidentialDebateFormat::new(rounds);
        Some(Box::new(format))
    } else {
        None
    }
}

/// The format called `name`, whatever the case of its letters, generated for
/// `rounds` rounds.
pub fn get_format(name: &str, rounds: u32) -> (format: Option<Box<dyn DebateFormat>>)
    ensures
        format is Some <==> unicode_lowercase(name@) == PRESIDENTIAL_NAME@,
        format matches Some(f) ==> is_presidential(&*f, rounds),
{
    let key = to_lowercase(name);
    format_for_key(key.as_str(), rounds)
}

/// The names of all formats that [`get_format`] knows.
pub fn available_formats() -> (names: Vec<&'static str>)
    ensures
        names@.len() == 1,
        names@[0]@ == PRESIDENTIAL_NAME@,
{
    vec![PRESIDENTIAL_NAME]
}

} // verus!
