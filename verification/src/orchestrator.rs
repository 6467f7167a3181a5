//! The orchestrator of a debate.
//!
//! The orchestrator owns the histories and the transcript and decides what
//! happens next. It never talks to the completion endpoint itself: each step
//! returns the events to deliver and the action to perform, and the caller
//! reports back what the endpoint answered.

use crate::completion::{backoff_secs, CompletionAttempts, Verdict, MAX_TRANSPORT_ATTEMPTS};
use crate::debate_format::{DebateFormat, DebateSection};
use crate::error::DebateError;
use crate::history::{
    observation, section_prompt, OBSERVATION_OPEN, OBSERVATION_SAID, SECTION_PROMPT_ASK,
    SECTION_PROMPT_CLOSE, SECTION_PROMPT_DASH, SECTION_PROMPT_OPEN,
};
use crate::model::{lemma_views_push, text_views, views};
use crate::participant::{AIParticipant, ParticipantView};
use crate::run_state::{
    answer_outcome, arrival_action, exhaustion_detail, initial_view, is_substantive,
    lemma_arrived_inv, lemma_initial_inv, lemma_recorded_settled, request_for, settled_at,
    verdict_outcome, walk_events, EXHAUSTED_CLOSE, EXHAUSTED_COUNT, EXHAUSTED_OPEN,
};
use crate::sanitize::sanitized;
use crate::schedule::{
    build_plan, lemma_next_turn, lemma_plan_in_bounds, next_turn, plan_in_bounds, PlanItem,
};
use crate::text::{push_decimal, to_chars, to_lowercase, trim_range};
use crate::transcript::{
    system_message, user_message, ChatMessage, ChatMessageView, ChatRole, EventView,
};
use async_openai::error::OpenAIError;
use vstd::prelude::*;
use vstd::string::StringExecFns;

pub use crate::run_state::{
    Action, DebateConfig, DebateConfigView, OrchestratorView, Phase, RequestReason, Step,
    EMPTY_RETRY_DELAY_SECS, MAX_EMPTY_RESPONSES, MIN_CONTENT_CHARS,
};
pub use crate::sanitize::sanitize_response;
pub use crate::transcript::{DebateEvent, DebateMessage};

verus! {

/// Name of the opponent where the participant list holds none.
pub const FALLBACK_OPPONENT: &'static str = "Opponent";

/// The name of the opponent that the system prompt of the participant
/// `index` speaks of: the first participant for everyone else, the second
/// for the first.
pub open spec fn opponent_name(participants: Seq<ParticipantView>, index: int) -> Seq<char> {
    let other = if index == 0 {
        1int
    } else {
        0int
    };
    if other < participants.len() {
        participants[other].name
    } else {
        FALLBACK_OPPONENT@
    }
}

/// The system prompt of the participant `index`: its own where it brings
/// one, else the one that the format generates.
pub open spec fn system_prompt_of<F: DebateFormat + ?Sized>(
    format: &F,
    topic: Seq<char>,
    participants: Seq<ParticipantView>,
    index: int,
) -> Seq<char> {
    match participants[index].custom_system_prompt {
        Some(prompt) => prompt,
        None => format.spec_system_prompt(
            topic,
            participants[index].display_name_with_role(),
            opponent_name(participants, index),
        ),
    }
}

/// The system prompts of all participants under `format`.
pub open spec fn system_prompts_of<F: DebateFormat + ?Sized>(
    format: &F,
    topic: Seq<char>,
    participants: Seq<ParticipantView>,
) -> Seq<Seq<char>> {
    Seq::new(participants.len(), |i: int| system_prompt_of(format, topic, participants, i))
}

/// The views of the histories, in the order of the participants.
pub open spec fn history_views(histories: Seq<Vec<ChatMessage>>) -> Seq<Seq<ChatMessageView>> {
    Seq::new(histories.len(), |i: int| views(histories[i]@))
}

/// Drives one debate from its first section to its last. A value is used
/// for one run.
pub struct DebateOrchestrator {
    config: DebateConfig,
    participants: Vec<AIParticipant>,
    sections: Vec<DebateSection>,
    plan: Vec<PlanItem>,
    histories: Vec<Vec<ChatMessage>>,
    transcript: Vec<DebateMessage>,
    phase: Phase,
    cursor: usize,
    empty_responses: u32,
    attempts: CompletionAttempts,
}

impl View for DebateOrchestrator {
    type V = OrchestratorView;

    closed spec fn view(&self) -> OrchestratorView {
        OrchestratorView {
            config: self.config@,
            participants: views(self.participants@),
            sections: views(self.sections@),
            histories: history_views(self.histories@),
            transcript: views(self.transcript@),
            phase: self.phase,
            cursor: self.cursor as nat,
            empty_responses: self.empty_responses as nat,
            transport_failures: self.attempts.failures(),
        }
    }
}

/// Whether a sanitized response is long enough to be accepted.
pub fn substantive(text: &str) -> (accepted: bool)
    ensures
        accepted == is_substantive(text@),
{
    let chars = to_chars(text);
    let (from, to) = trim_range(&chars, 0, chars.len());
    assert(chars@.subrange(0, chars@.len() as int) =~= chars@);
    to - from > MIN_CONTENT_CHARS
}

/// The request that opens a turn in `section`.
pub fn section_request(section: &DebateSection) -> (message: ChatMessage)
    ensures
        message@ == user_message(section_prompt(section@)),
{
    let mut prompt = String::from_str(SECTION_PROMPT_OPEN);
    prompt.append(section.name.as_str());
    prompt.append(SECTION_PROMPT_DASH);
    prompt.append(section.description.as_str());
    prompt.append(SECTION_PROMPT_ASK);
    prompt.append(to_lowercase(section.name.as_str()).as_str());
    prompt.append(SECTION_PROMPT_CLOSE);
    ChatMessage { role: ChatRole::User, content: prompt }
}

/// What the other participants are told of a turn.
pub fn observation_message(speaker_name: &str, text: &str) -> (message: ChatMessage)
    ensures
        message@ == user_message(observation(speaker_name@, text@)),
{
    let mut content = String::from_str(OBSERVATION_OPEN);
    content.append(speaker_name);
    content.append(OBSERVATION_SAID);
    content.append(text);
    ChatMessage { role: ChatRole::User, content }
}

/// The error that ends a debate whose participant `name` gave no usable
/// answer.
pub fn exhaustion_error(name: &str) -> (error: DebateError)
    ensures
        error matches DebateError::ConfigError(detail) && detail@ == exhaustion_detail(name@),
{
    let mut detail = String::from_str(EXHAUSTED_OPEN);
    detail.append(name);
    detail.append(EXHAUSTED_COUNT);
    push_decimal(&mut detail, MAX_EMPTY_RESPONSES as u64);
    detail.append(EXHAUSTED_CLOSE);
    DebateError::ConfigError(detail)
}

/// The system prompt with which the participant `index` opens its history:
/// its own where it brings one, else the one that `format` generates for it
/// and its opponent.
pub fn system_prompt_for<F: DebateFormat + ?Sized>(
    format: &F,
    topic: &str,
    participants: &Vec<AIParticipant>,
    index: usize,
) -> (prompt: String)
    requires
        index < participants@.len(),
    ensures
        prompt@ == system_prompt_of(format, topic@, views(participants@), index as int),
{
    let participant = &participants[index];
    match &participant.custom_system_prompt {
        Some(custom) => custom.clone(),
        None => {
            let other: usize = if index == 0 {
                1
            } else {
                0
            };
            let role_name = participant.display_name_with_role();
            if other < participants.len() {
                format.system_prompt(topic, role_name.as_str(), participants[other].name.as_str())
            } else {
                format.system_prompt(topic, role_name.as_str(), FALLBACK_OPPONENT)
            }
        },
    }
}

impl DebateOrchestrator {
    /// Whether the value is consistent: its plan is the one of its sections
    /// and participants, and its state meets the invariant of a run.
    pub closed spec fn wf(&self) -> bool {
        &&& self.plan@ == self@.plan()
        &&& self@.inv()
    }

    /// An orchestrator over the given sections in which the participant `i`
    /// opens its history with the system prompt `system_prompts[i]`.
    pub fn from_parts(
        config: DebateConfig,
        participants: Vec<AIParticipant>,
        sections: Vec<DebateSection>,
        system_prompts: Vec<String>,
    ) -> (orchestrator: Self)
        requires
            system_prompts@.len() == participants@.len(),
        ensures
            orchestrator.wf(),
            orchestrator@ == initial_view(
                config@,
                views(participants@),
                views(sections@),
                text_views(system_prompts@),
            ),
    {
        let ghost prompts = text_views(system_prompts@);
        let count = participants.len();
        let mut histories: Vec<Vec<ChatMessage>> = Vec::new();
        let mut i: usize = 0;
        while i < count
            invariant
                i <= count == system_prompts@.len(),
                prompts == text_views(system_prompts@),
                histories@.len() == i,
                forall|k: int|
                    0 <= k < i ==> views((#[trigger] histories@[k])@) == seq![
                        system_message(prompts[k]),
                    ],
            decreases count - i,
        {
            let mut history: Vec<ChatMessage> = Vec::new();
            history.push(ChatMessage { role: ChatRole::System, content: system_prompts[i].clone() });
            assert(views(history@) =~= seq![system_message(prompts[i as int])]);
            histories.push(history);
            i = i + 1;
        }
        let plan = build_plan(&sections, count);
        let orchestrator = DebateOrchestrator {
            config,
            participants,
            sections,
            plan,
            histories,
            transcript: Vec::new(),
            phase: Phase::Ready,
            cursor: 0,
            empty_responses: 0,
            attempts: CompletionAttempts::new(),
        };
        proof {
            let initial = initial_view(config@, views(participants@), views(sections@), prompts);
            assert(orchestrator@.histories =~= initial.histories);
            assert(orchestrator@.transcript =~= initial.transcript);
            assert(orchestrator@ == initial);
            assert(initial.sections.len() == orchestrator.sections.len());
            lemma_initial_inv(config@, views(participants@), views(sections@), prompts);
        }
        orchestrator
    }

    /// Checks the number of participants against the bounds of the format
    /// and gives every participant a history that holds its system message:
    /// its own where it brings one, else the one that the format generates
    /// for it.
    pub fn new<F: DebateFormat + ?Sized>(
        config: DebateConfig,
        participants: Vec<AIParticipant>,
        format: Box<F>,
    ) -> (result: Result<Self, DebateError>)
        ensures
            match result {
                Ok(orchestrator) => {
                    &&& format.spec_min_participants() <= participants@.len()
                        <= format.spec_max_participants()
                    &&& orchestrator.wf()
                    &&& orchestrator@ == initial_view(
                        config@,
                        views(participants@),
                        format.spec_sections(),
                        system_prompts_of(&*format, config@.topic, views(participants@)),
                    )
                },
                Err(error) => {
                    &&& !(format.spec_min_participants() <= participants@.len()
                        <= format.spec_max_participants())
                    &&& error == DebateError::InvalidParticipantCount {
                        min: format.spec_min_participants() as usize,
                        max: format.spec_max_participants() as usize,
                        actual: participants@.len() as usize,
                    }
                },
            },
    {
        let count = participants.len();
        let min = format.min_participants();
        let max = format.max_participants();
        if count < min || count > max {
            return Err(DebateError::InvalidParticipantCount { min, max, actual: count });
        }
        let sections = format.sections();
        let ghost people = views(participants@);
        let mut prompts: Vec<String> = Vec::new();
        let mut i: usize = 0;
        while i < count
            invariant
                i <= count == participants@.len(),
                people == views(participants@),
                prompts@.len() == i,
                forall|k: int|
                    0 <= k < i ==> (#[trigger] prompts@[k])@ == system_prompt_of(
                        &*format,
                        config.topic@,
                        people,
                        k,
                    ),
            decreases count - i,
        {
            let prompt = system_prompt_for(&*format, config.topic.as_str(), &participants, i);
            prompts.push(prompt);
            i = i + 1;
        }
        assert(text_views(prompts@) =~= system_prompts_of(
            &*format,
            config@.topic,
            people,
        ));
        Ok(DebateOrchestrator::from_parts(config, participants, sections, prompts))
    }

    /// Walks on from position `from` of the plan, where no turn is open, to
    /// the next turn or to the end, and appends the events of the way.
    fn advance(&mut self, from: usize, events: &mut Vec<DebateEvent>) -> (action: Action)
        requires
            old(self).plan@ == old(self)@.plan(),
            settled_at(old(self)@, from as nat),
        ensures
            final(self).wf(),
            final(self)@ == old(self)@.arrived(next_turn(old(self)@.plan(), from as nat)),
            views(final(events)@) == views(old(events)@) + walk_events(
                old(self)@.plan(),
                old(self)@.sections,
                old(self)@.participants,
                from as nat,
            ),
            action == arrival_action(final(self)@),
    {
        let ghost before = self@;
        let ghost plan = self@.plan();
        proof {
            lemma_plan_in_bounds(before.sections, before.participants.len());
            lemma_arrived_inv(before, from as nat);
            lemma_next_turn(plan, from as nat);
        }
        let mut at: usize = from;
        assert(views(events@) + Seq::<EventView>::empty() =~= views(events@));
        while at < self.plan.len()
            invariant
                from <= at <= plan.len(),
                *self == *old(self),
                self.plan@ == plan,
                plan == before.plan(),
                before == self@,
                settled_at(before, from as nat),
                before.arrived(next_turn(plan, from as nat)).inv(),
                plan_in_bounds(plan, before.sections.len(), before.participants.len()),
                next_turn(plan, at as nat) == next_turn(plan, from as nat),
                views(events@) + walk_events(plan, before.sections, before.participants, at as nat)
                    == views(old(events)@) + walk_events(
                    plan,
                    before.sections,
                    before.participants,
                    from as nat,
                ),
            decreases plan.len() - at,
        {
            match self.plan[at] {
                PlanItem::Announce { section } => {
                    let event = DebateEvent::SectionStart {
                        name: self.sections[section].name.clone(),
                        description: self.sections[section].description.clone(),
                    };
                    proof {
                        lemma_views_push(events@, event);
                        let rest = walk_events(
                            plan,
                            before.sections,
                            before.participants,
                            (at + 1) as nat,
                        );
                        assert(views(events@).push(event@) + rest =~= views(events@) + (seq![
                            event@,
                        ] + rest));
                    }
                    events.push(event);
                    at = at + 1;
                },
                PlanItem::Turn { section, speaker } => {
                    let event = DebateEvent::SpeakerStart {
                        name: self.participants[speaker].name.clone(),
                        role: String::from_str(self.participants[speaker].role.display_name()),
                    };
                    proof {
                        lemma_views_push(events@, event);
                        assert(views(events@).push(event@) =~= views(events@) + seq![event@]);
                    }
                    events.push(event);
                    let request = section_request(&self.sections[section]);
                    let max_tokens = self.sections[section].max_tokens;
                    let ghost earlier = self.histories@;
                    self.histories[speaker].push(request);
                    self.phase = Phase::AwaitingCompletion;
                    self.cursor = at;
                    self.empty_responses = 0;
                    self.attempts = CompletionAttempts::new();
                    proof {
                        let target = before.arrived(at as nat);
                        assert(self@.histories =~= target.histories) by {
                            assert forall|k: int| 0 <= k < self.histories@.len() implies views(
                                self.histories@[k]@,
                            ) == target.histories[k] by {
                                if k == speaker {
                                    lemma_views_push(earlier[k]@, request);
                                } else {
                                    assert(self.histories@[k] == earlier[k]);
                                }
                            }
                        }
                        assert(self@ == target);
                    }
                    return Action::Request {
                        delay_secs: 0,
                        speaker,
                        max_tokens,
                        reason: RequestReason::FirstAttempt,
                    };
                },
            }
        }
        proof {
            lemma_views_push(events@, DebateEvent::DebateEnd);
            assert(views(events@).push(EventView::DebateEnd) =~= views(events@) + seq![
                EventView::DebateEnd,
            ]);
        }
        events.push(DebateEvent::DebateEnd);
        self.phase = Phase::Finished;
        self.cursor = at;
        self.empty_responses = 0;
        self.attempts = CompletionAttempts::new();
        assert(self@ == before.arrived(at as nat));
        Action::Finished
    }

    /// Starts the run: announces what comes before the first turn and asks
    /// for its completion, or ends the debate at once where the plan holds
    /// no turn.
    pub fn start(&mut self) -> (step: Step)
        requires
            old(self).wf(),
            old(self)@.phase == Phase::Ready,
        ensures
            final(self).wf(),
            final(self)@ == old(self)@.started(),
            views(step.events@) == walk_events(
                old(self)@.plan(),
                old(self)@.sections,
                old(self)@.participants,
                0,
            ),
            step.action == arrival_action(final(self)@),
    {
        let mut events: Vec<DebateEvent> = Vec::new();
        assert(settled_at(self@, 0));
        let action = self.advance(0, &mut events);
        assert(Seq::<EventView>::empty() + walk_events(
            old(self)@.plan(),
            old(self)@.sections,
            old(self)@.participants,
            0,
        ) =~= walk_events(old(self)@.plan(), old(self)@.sections, old(self)@.participants, 0));
        Step { events, action }
    }

    /// Takes the raw response of the completion endpoint for the open turn:
    /// sanitizes it and decides on the result as [`Self::on_answer`] does.
    pub fn on_response(&mut self, response: &str) -> (step: Step)
        requires
            old(self).wf(),
            old(self)@.phase == Phase::AwaitingCompletion,
        ensures
            final(self).wf(),
            answer_outcome(old(self)@, sanitized(response@), final(self)@, step),
    {
        let text = sanitize_response(response);
        self.on_answer(text)
    }

    /// Decides on the sanitized answer `text` for the open turn: it is
    /// accepted where it is substantive.
    pub fn on_answer(&mut self, text: String) -> (step: Step)
        requires
            old(self).wf(),
            old(self)@.phase == Phase::AwaitingCompletion,
        ensures
            final(self).wf(),
            answer_outcome(old(self)@, text@, final(self)@, step),
    {
        let accepted = substantive(text.as_str());
        self.on_verdict(text, accepted)
    }

    /// Acts on the verdict on the sanitized answer `text` for the open turn.
    ///
    /// An accepted answer is recorded, and the walk goes on to the next turn
    /// or to the end. Any other answer counts as empty: the turn is asked
    /// for again after a pause, or, where it was the last attempt, the
    /// debate is given up with an error that names the participant.
    pub fn on_verdict(&mut self, text: String, accepted: bool) -> (step: Step)
        requires
            old(self).wf(),
            old(self)@.phase == Phase::AwaitingCompletion,
            accepted == is_substantive(text@),
        ensures
            final(self).wf(),
            verdict_outcome(old(self)@, text@, accepted, final(self)@, step),
    {
        let ghost before = self@;
        let ghost plan = before.plan();
        proof {
            lemma_plan_in_bounds(before.sections, before.participants.len());
        }
        let (section, speaker) = match self.plan[self.cursor] {
            PlanItem::Turn { section, speaker } => (section, speaker),
            PlanItem::Announce { section } => (section, 0),
        };
        assert(before.current() == PlanItem::Turn { section, speaker });
        assert(speaker < before.participants.len() && section < before.sections.len());
        assert(self.cursor < self.plan.len());
        let mut events: Vec<DebateEvent> = Vec::new();
        if accepted {
            let name = self.participants[speaker].name.clone();
            let message = DebateMessage {
                section: self.sections[section].name.clone(),
                speaker_index: speaker,
                speaker_name: name.clone(),
                content: text.clone(),
            };
            let event = DebateEvent::SpeakerMessage { name: name.clone(), content: text.clone() };
            proof {
                lemma_views_push(self.transcript@, message);
                lemma_views_push(events@, event);
            }
            self.transcript.push(message);
            events.push(event);
            let ghost target = before.recorded(text@);
            let mut i: usize = 0;
            proof {
                assert(views(self.transcript@) == target.transcript);
                assert(self@.histories =~= Seq::new(
                    before.histories.len(),
                    |k: int|
                        if k < 0 {
                            target.histories[k]
                        } else {
                            before.histories[k]
                        },
                ));
            }
            while i < self.histories.len()
                invariant
                    i <= self.histories@.len() == before.histories.len(),
                    speaker < before.histories.len() == before.participants.len(),
                    before.current() == (PlanItem::Turn { section, speaker }),
                    name@ == before.participants[speaker as int].name,
                    target == before.recorded(text@),
                    self.plan@ == plan,
                    self@ == (OrchestratorView {
                        transcript: target.transcript,
                        histories: Seq::new(
                            before.histories.len(),
                            |k: int|
                                if k < i {
                                    target.histories[k]
                                } else {
                                    before.histories[k]
                                },
                        ),
                        ..before
                    }),
                decreases self.histories@.len() - i,
            {
                let ghost earlier = self.histories@;
                let entry = if i == speaker {
                    ChatMessage { role: ChatRole::Assistant, content: text.clone() }
                } else {
                    observation_message(name.as_str(), text.as_str())
                };
                self.histories[i].push(entry);
                proof {
                    lemma_views_push(earlier[i as int]@, entry);
                    assert(history_views(earlier)[i as int] == before.histories[i as int]);
                    assert(self@.histories =~= Seq::new(
                        before.histories.len(),
                        |k: int|
                            if k < i + 1 {
                                target.histories[k]
                            } else {
                                before.histories[k]
                            },
                    )) by {
                        assert forall|k: int| 0 <= k < self.histories@.len() implies views(
                            self.histories@[k]@,
                        ) == (if k < i + 1 {
                            target.histories[k]
                        } else {
                            before.histories[k]
                        }) by {
                            assert(history_views(earlier)[k] == views(earlier[k]@));
                            if k != i {
                                assert(self.histories@[k] == earlier[k]);
                            } else {
                                assert(self.histories@[k]@ == earlier[k]@.push(entry));
                                assert(target.histories[k] == before.histories[k].push(entry@));
                            }
                        }
                    }
                }
                i = i + 1;
            }
            proof {
                assert(self@.histories =~= target.histories);
                assert(self@ == target);
                lemma_recorded_settled(before, text@);
            }
            let next = self.cursor + 1;
            let action = self.advance(next, &mut events);
            proof {
                assert(views(seq![event]) =~= seq![event@]);
            }
            Step { events, action }
        } else if self.empty_responses + 1 < MAX_EMPTY_RESPONSES {
            self.empty_responses = self.empty_responses + 1;
            self.attempts = CompletionAttempts::new();
            assert(self@ == before.retried());
            Step {
                events,
                action: Action::Request {
                    delay_secs: EMPTY_RETRY_DELAY_SECS,
                    speaker,
                    max_tokens: self.sections[section].max_tokens,
                    reason: RequestReason::EmptyResponse { attempt: self.empty_responses },
                },
            }
        } else {
            self.phase = Phase::Failed;
            assert(self@ == before.aborted());
            let error = exhaustion_error(self.participants[speaker].name.as_str());
            Step { events, action: Action::Failed(error) }
        }
    }

    /// Takes the failure of the request for the open turn. The request is
    /// sent again after the backoff delay; the third failure in a row is
    /// final and ends the debate with the error it came with.
    pub fn on_failure(&mut self, error: OpenAIError) -> (step: Step)
        requires
            old(self).wf(),
            old(self)@.phase == Phase::AwaitingCompletion,
        ensures
            final(self).wf(),
            step.events@.len() == 0,
            old(self)@.transport_failures + 1 < MAX_TRANSPORT_ATTEMPTS ==> {
                &&& final(self)@ == old(self)@.resent()
                &&& step.action == request_for(
                    old(self)@,
                    backoff_secs(old(self)@.transport_failures + 1) as u64,
                    RequestReason::TransportFailure {
                        attempt: (old(self)@.transport_failures + 1) as u32,
                    },
                )
            },
            old(self)@.transport_failures + 1 >= MAX_TRANSPORT_ATTEMPTS ==> {
                &&& final(self)@ == old(self)@.aborted()
                &&& step.action == Action::Failed(DebateError::OpenAIError(error))
            },
    {
        let ghost before = self@;
        proof {
            lemma_plan_in_bounds(before.sections, before.participants.len());
        }
        let (section, speaker) = match self.plan[self.cursor] {
            PlanItem::Turn { section, speaker } => (section, speaker),
            PlanItem::Announce { section } => (section, 0),
        };
        let events: Vec<DebateEvent> = Vec::new();
        match self.attempts.record_failure() {
            Verdict::Retry { delay_secs, attempt } => {
                assert(self@ == before.resent());
                Step {
                    events,
                    action: Action::Request {
                        delay_secs,
                        speaker,
                        max_tokens: self.sections[section].max_tokens,
                        reason: RequestReason::TransportFailure { attempt },
                    },
                }
            },
            Verdict::GiveUp => {
                self.phase = Phase::Failed;
                assert(self@ == before.aborted());
                Step { events, action: Action::Failed(DebateError::OpenAIError(error)) }
            },
        }
    }

    /// The full transcript so far.
    pub fn transcript(&self) -> (entries: &[DebateMessage])
        ensures
            views(entries@) == self@.transcript,
    {
        self.transcript.as_slice()
    }

    /// The participants.
    pub fn participants(&self) -> (people: &[AIParticipant])
        ensures
            views(people@) == self@.participants,
    {
        self.participants.as_slice()
    }

    /// The sections of the debate.
    pub fn sections(&self) -> (sections: &[DebateSection])
        ensures
            views(sections@) == self@.sections,
    {
        self.sections.as_slice()
    }

    /// The configuration the orchestrator was made with.
    pub fn config(&self) -> (config: &DebateConfig)
        ensures
            config@ == self@.config,
    {
        &self.config
    }

    /// Where the run stands.
    pub fn phase(&self) -> (phase: Phase)
        ensures
            phase == self@.phase,
    {
        self.phase
    }

    /// The conversation history of the participant `index`, or `None` where
    /// there is no such participant.
    pub fn history(&self, index: usize) -> (history: Option<&[ChatMessage]>)
        requires
            self.wf(),
        ensures
            history is Some <==> index < self@.participants.len(),
            history matches Some(messages) ==> views(messages@) == self@.histories[index as int],
    {
        if index < self.histories.len() {
            Some(self.histories[index].as_slice())
        } else {
            None
        }
    }
}

} // verus!
