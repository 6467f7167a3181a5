//! The state of a debate run and the steps that change it.
//!
//! A run walks along the plan of the debate. At each turn it waits for an
//! answer; an answer that is accepted goes into the transcript and into every
//! history, and the walk moves on. The invariant ties what the transcript
//! and the histories hold to the plan and to the accepted texts.

use crate::completion::MAX_TRANSPORT_ATTEMPTS;
use crate::debate_format::SectionView;
use crate::error::DebateError;
use crate::history::{
    entries_start, history_after, lemma_announcements_add_nothing, lemma_history_after,
    lemma_history_entry, lemma_history_length, lemma_transcript_after, lemma_transcript_entry,
    observation, own_turns, section_prompt, texts_of, transcript_after, turn_entries,
    turn_message,
};
use crate::model::views;
use crate::participant::ParticipantView;
use crate::schedule::{
    lemma_next_turn, lemma_plan_counts, lemma_plan_in_bounds, next_turn, plan_of,
    scheduled_turns, turns_before, PlanItem,
};
use crate::text::{decimal, trimmed};
use crate::transcript::{
    assistant_message, system_message, user_message, ChatMessageView, ChatRole, DebateEvent,
    EventView, MessageView,
};
use vstd::prelude::*;
use vstd::string::StringExecFns;

verus! {

/// Attempts at one turn before the debate is given up: a response counts as
/// empty while its sanitized text is too short.
pub const MAX_EMPTY_RESPONSES: u32 = 3;

/// Seconds to wait before a turn is asked for again after an empty response.
pub const EMPTY_RETRY_DELAY_SECS: u64 = 2;

/// A sanitized response is accepted once it has more characters than this.
pub const MIN_CONTENT_CHARS: usize = 10;

/// What is being debated and where the completions come from.
#[derive(Debug)]
pub struct DebateConfig {
    /// The topic being debated.
    pub topic: String,
    /// Base URL of the completion endpoint.
    pub api_base: String,
    /// Key that authenticates the requests.
    pub api_key: String,
}

/// Mathematical content of a [`DebateConfig`].
pub struct DebateConfigView {
    pub topic: Seq<char>,
    pub api_base: Seq<char>,
    pub api_key: Seq<char>,
}

impl View for DebateConfig {
    type V = DebateConfigView;

    open spec fn view(&self) -> DebateConfigView {
        DebateConfigView { topic: self.topic@, api_base: self.api_base@, api_key: self.api_key@ }
    }
}

impl Clone for DebateConfig {
    fn clone(&self) -> (copy: Self)
        ensures
            copy@ == self@,
    {
        DebateConfig {
            topic: self.topic.clone(),
            api_base: self.api_base.clone(),
            api_key: self.api_key.clone(),
        }
    }
}

impl DebateConfig {
    pub fn new(topic: &str, api_base: &str, api_key: &str) -> (config: Self)
        ensures
            config@ == (DebateConfigView { topic: topic@, api_base: api_base@, api_key: api_key@ }),
    {
        DebateConfig {
            topic: String::from_str(topic),
            api_base: String::from_str(api_base),
            api_key: String::from_str(api_key),
        }
    }
}

/// Where a run stands between two steps. Within a step the run passes
/// through the announcement of sections and speakers and the recording of an
/// answer; it comes to rest only where it waits for a completion or is over.
#[derive(Debug, Clone, Copy, PartialEq, Eq, Structural)]
pub enum Phase {
    /// Constructed, not started.
    Ready,
    /// A completion for the current turn has been asked for.
    AwaitingCompletion,
    /// Every turn is recorded.
    Finished,
    /// The run was aborted.
    Failed,
}

/// Whether a sanitized response is long enough to be accepted.
pub open spec fn is_substantive(text: Seq<char>) -> bool {
    trimmed(text).len() > MIN_CONTENT_CHARS
}

pub const EXHAUSTED_OPEN: &'static str = "AI participant '";

pub const EXHAUSTED_COUNT: &'static str = "' returned empty response after ";

pub const EXHAUSTED_CLOSE: &'static str = " retries. Debate cannot continue.";

/// The detail of the error that ends a debate whose participant `name` gave
/// no usable answer.
pub open spec fn exhaustion_detail(name: Seq<char>) -> Seq<char> {
    EXHAUSTED_OPEN@ + name + EXHAUSTED_COUNT@ + decimal(MAX_EMPTY_RESPONSES as nat)
        + EXHAUSTED_CLOSE@
}

/// The events on the way from position `from` of the plan to the next turn:
/// one for each section that starts, then the one that announces the
/// speaker, or the end of the debate where no turn is left.
pub open spec fn walk_events(
    plan: Seq<PlanItem>,
    sections: Seq<SectionView>,
    participants: Seq<ParticipantView>,
    from: nat,
) -> Seq<EventView>
    decreases plan.len() - from,
{
    if from >= plan.len() {
        seq![EventView::DebateEnd]
    } else {
        match plan[from as int] {
            PlanItem::Announce { section } => seq![
                EventView::SectionStart {
                    name: sections[section as int].name,
                    description: sections[section as int].description,
                },
            ] + walk_events(plan, sections, participants, from + 1),
            PlanItem::Turn { section, speaker } => seq![
                EventView::SpeakerStart {
                    name: participants[speaker as int].name,
                    role: participants[speaker as int].role.label(),
                },
            ],
        }
    }
}

/// The event that announces the plan item `item`.
pub open spec fn announcement(
    item: PlanItem,
    sections: Seq<SectionView>,
    participants: Seq<ParticipantView>,
) -> EventView {
    match item {
        PlanItem::Announce { section } => EventView::SectionStart {
            name: sections[section as int].name,
            description: sections[section as int].description,
        },
        PlanItem::Turn { section, speaker } => EventView::SpeakerStart {
            name: participants[speaker as int].name,
            role: participants[speaker as int].role.label(),
        },
    }
}

/// The events of a walk are the announcements of the plan items it passes,
/// in order, the last of them the one of the turn it stops at; a walk that
/// reaches the end of the plan closes with the end of the debate.
pub proof fn lemma_walk_events(
    plan: Seq<PlanItem>,
    sections: Seq<SectionView>,
    participants: Seq<ParticipantView>,
    from: nat,
)
    requires
        from <= plan.len(),
    ensures
        walk_events(plan, sections, participants, from).len() == next_turn(plan, from) - from + 1,
        forall|k: int|
            from <= k < next_turn(plan, from) ==> walk_events(
                plan,
                sections,
                participants,
                from,
            )[k - from] == announcement(#[trigger] plan[k], sections, participants),
        walk_events(plan, sections, participants, from).last() == (if next_turn(plan, from)
            < plan.len() {
            announcement(plan[next_turn(plan, from) as int], sections, participants)
        } else {
            EventView::DebateEnd
        }),
    decreases plan.len() - from,
{
    lemma_next_turn(plan, from);
    if from < plan.len() && plan[from as int] is Announce {
        lemma_walk_events(plan, sections, participants, from + 1);
        let rest = walk_events(plan, sections, participants, from + 1);
        let all = walk_events(plan, sections, participants, from);
        assert(all == seq![announcement(plan[from as int], sections, participants)] + rest);
        assert forall|k: int| from <= k < next_turn(plan, from) implies all[k - from]
            == announcement(#[trigger] plan[k], sections, participants) by {
            if k > from {
                assert(all[k - from] == rest[k - from - 1]);
            }
        }
        assert(all.last() == rest.last());
    }
}

/// Mathematical state of a [`DebateOrchestrator`].
pub struct OrchestratorView {
    pub config: DebateConfigView,
    pub participants: Seq<ParticipantView>,
    pub sections: Seq<SectionView>,
    /// One history per participant.
    pub histories: Seq<Seq<ChatMessageView>>,
    pub transcript: Seq<MessageView>,
    pub phase: Phase,
    /// Position in the plan: the turn that is awaited, or the end.
    pub cursor: nat,
    /// Empty responses received for the current turn.
    pub empty_responses: nat,
    /// Failed attempts at the current request.
    pub transport_failures: nat,
}

impl OrchestratorView {
    /// The plan of the debate.
    pub open spec fn plan(self) -> Seq<PlanItem> {
        plan_of(self.sections, self.participants.len())
    }

    /// Whether a turn is open: its request stands in the history of its
    /// speaker and no answer has been accepted yet.
    pub open spec fn turn_open(self) -> bool {
        self.phase == Phase::AwaitingCompletion || self.phase == Phase::Failed
    }

    /// The turn at the cursor.
    pub open spec fn current(self) -> PlanItem {
        self.plan()[self.cursor as int]
    }

    /// What the history of participant `index` must hold in this state.
    pub open spec fn expected_history(self, index: int) -> Seq<ChatMessageView> {
        let settled = history_after(
            self.plan(),
            self.sections,
            self.participants,
            texts_of(self.transcript),
            self.histories[index][0].content,
            index,
            self.cursor,
        );
        if self.turn_open() && self.current()->speaker == index {
            let section = self.sections[self.current()->Turn_section as int];
            settled.push(user_message(section_prompt(section)))
        } else {
            settled
        }
    }

    /// The invariant of a run. The transcript holds one entry for each turn
    /// that lies behind, in the order of the plan, and each history holds the
    /// system message followed by what those turns added to it.
    pub open spec fn inv(self) -> bool {
        &&& self.sections.len() <= usize::MAX
        &&& self.histories.len() == self.participants.len()
        &&& self.cursor <= self.plan().len()
        &&& self.empty_responses < MAX_EMPTY_RESPONSES
        &&& self.transport_failures < MAX_TRANSPORT_ATTEMPTS
        &&& self.transcript.len() == turns_before(self.plan(), self.cursor)
        &&& self.transcript == transcript_after(
            self.plan(),
            self.sections,
            self.participants,
            texts_of(self.transcript),
            self.cursor,
        )
        &&& forall|i: int|
            0 <= i < self.histories.len() ==> (#[trigger] self.histories[i]).len() > 0
                && self.histories[i][0].role == ChatRole::System
                && self.histories[i] == self.expected_history(i)
        &&& match self.phase {
            Phase::Ready => self.cursor == 0 && self.empty_responses == 0
                && self.transport_failures == 0,
            Phase::AwaitingCompletion => self.cursor < self.plan().len() && self.current() is Turn,
            Phase::Finished => self.cursor == self.plan().len(),
            Phase::Failed => self.cursor < self.plan().len() && self.current() is Turn,
        }
    }

    /// The state in which the walk has reached position `at`: the end of
    /// the plan, or a turn, whose request is then added to the history of
    /// its speaker.
    pub open spec fn arrived(self, at: nat) -> OrchestratorView {
        if at >= self.plan().len() {
            OrchestratorView {
                phase: Phase::Finished,
                cursor: self.plan().len(),
                empty_responses: 0,
                transport_failures: 0,
                ..self
            }
        } else {
            let turn = self.plan()[at as int];
            let speaker = turn->speaker as int;
            let request = user_message(section_prompt(self.sections[turn->Turn_section as int]));
            OrchestratorView {
                phase: Phase::AwaitingCompletion,
                cursor: at,
                empty_responses: 0,
                transport_failures: 0,
                histories: self.histories.update(speaker, self.histories[speaker].push(request)),
                ..self
            }
        }
    }

    /// The state after the start of the run.
    pub open spec fn started(self) -> OrchestratorView {
        self.arrived(next_turn(self.plan(), 0))
    }

    /// The state in which `text` is recorded as the answer of the current
    /// turn: the transcript has its entry, the speaker's history the answer,
    /// every other history the observation.
    pub open spec fn recorded(self, text: Seq<char>) -> OrchestratorView {
        let turn = self.current();
        let name = self.participants[turn->speaker as int].name;
        OrchestratorView {
            transcript: self.transcript.push(
                turn_message(turn, self.sections, self.participants, text),
            ),
            histories: Seq::new(
                self.histories.len(),
                |i: int|
                    if i == turn->speaker {
                        self.histories[i].push(assistant_message(text))
                    } else {
                        self.histories[i].push(user_message(observation(name, text)))
                    },
            ),
            ..self
        }
    }

    /// The state after `text` has been accepted for the current turn.
    pub open spec fn accepted(self, text: Seq<char>) -> OrchestratorView {
        self.recorded(text).arrived(next_turn(self.plan(), self.cursor + 1))
    }

    /// The state after an empty response, where the turn may be tried again.
    pub open spec fn retried(self) -> OrchestratorView {
        OrchestratorView {
            empty_responses: self.empty_responses + 1,
            transport_failures: 0,
            ..self
        }
    }

    /// The state after a failed request that may be sent again.
    pub open spec fn resent(self) -> OrchestratorView {
        OrchestratorView { transport_failures: self.transport_failures + 1, ..self }
    }

    /// The state after the run has been given up.
    pub open spec fn aborted(self) -> OrchestratorView {
        OrchestratorView { phase: Phase::Failed, ..self }
    }
}

/// The state of a fresh orchestrator: every history holds its system
/// message, the transcript is empty.
pub open spec fn initial_view(
    config: DebateConfigView,
    participants: Seq<ParticipantView>,
    sections: Seq<SectionView>,
    system_prompts: Seq<Seq<char>>,
) -> OrchestratorView {
    OrchestratorView {
        config,
        participants,
        sections,
        histories: Seq::new(participants.len(), |i: int| seq![system_message(system_prompts[i])]),
        transcript: Seq::empty(),
        phase: Phase::Ready,
        cursor: 0,
        empty_responses: 0,
        transport_failures: 0,
    }
}

/// Whether `state` holds exactly what the first `done` items of the plan
/// leave behind, with no turn open.
pub open spec fn settled_at(state: OrchestratorView, done: nat) -> bool {
    &&& state.sections.len() <= usize::MAX
    &&& state.histories.len() == state.participants.len()
    &&& done <= state.plan().len()
    &&& state.transcript.len() == turns_before(state.plan(), done)
    &&& state.transcript == transcript_after(
        state.plan(),
        state.sections,
        state.participants,
        texts_of(state.transcript),
        done,
    )
    &&& forall|i: int|
        0 <= i < state.histories.len() ==> (#[trigger] state.histories[i]).len() > 0
            && state.histories[i][0].role == ChatRole::System
            && state.histories[i] == history_after(
            state.plan(),
            state.sections,
            state.participants,
            texts_of(state.transcript),
            state.histories[i][0].content,
            i,
            done,
        )
}

/// A fresh orchestrator meets the invariant.
pub proof fn lemma_initial_inv(
    config: DebateConfigView,
    participants: Seq<ParticipantView>,
    sections: Seq<SectionView>,
    system_prompts: Seq<Seq<char>>,
)
    requires
        sections.len() <= usize::MAX,
    ensures
        initial_view(config, participants, sections, system_prompts).inv(),
{
    let state = initial_view(config, participants, sections, system_prompts);
    assert(state.transcript =~= transcript_after(
        state.plan(),
        state.sections,
        state.participants,
        texts_of(state.transcript),
        0,
    ));
    assert forall|i: int| 0 <= i < state.histories.len() implies (
    #[trigger] state.histories[i]).len() > 0 && state.histories[i][0].role == ChatRole::System
        && state.histories[i] == state.expected_history(i) by {
        assert(state.histories[i] =~= state.expected_history(i));
    }
}

/// Walking on from a settled state to the next turn, or to the end, keeps
/// the invariant.
pub proof fn lemma_arrived_inv(state: OrchestratorView, done: nat)
    requires
        settled_at(state, done),
    ensures
        state.arrived(next_turn(state.plan(), done)).inv(),
{
    let plan = state.plan();
    let at = next_turn(plan, done);
    let next = state.arrived(at);
    let texts = texts_of(state.transcript);
    lemma_next_turn(plan, done);
    lemma_plan_in_bounds(state.sections, state.participants.len());
    assert(next.plan() == plan);
    lemma_announcements_add_nothing(
        plan,
        state.sections,
        state.participants,
        texts,
        Seq::empty(),
        0,
        done,
        at,
    );
    assert forall|i: int| 0 <= i < next.histories.len() implies (
    #[trigger] next.histories[i]).len() > 0 && next.histories[i][0].role
        == ChatRole::System && next.histories[i] == next.expected_history(
        i,
    ) by {
        let before = state.histories[i];
        assert(before.len() > 0);
        lemma_announcements_add_nothing(
            plan,
            state.sections,
            state.participants,
            texts,
            before[0].content,
            i,
            done,
            at,
        );
        if at < plan.len() {
            assert(plan[at as int] is Turn);
            let speaker = plan[at as int]->speaker as int;
            assert(0 <= speaker < state.histories.len());
            if i == speaker {
                assert(next.histories[i][0] == before[0]);
            } else {
                assert(next.histories[i] == before);
            }
        } else {
            assert(next.histories[i] == before);
        }
    }
}

/// Starting a run keeps the invariant.
pub proof fn lemma_started_inv(state: OrchestratorView)
    requires
        state.inv(),
        state.phase == Phase::Ready,
    ensures
        state.started().inv(),
{
    assert(settled_at(state, 0));
    lemma_arrived_inv(state, 0);
}

/// Recording the answer of the open turn leaves a settled state behind that
/// turn.
pub proof fn lemma_recorded_settled(state: OrchestratorView, text: Seq<char>)
    requires
        state.inv(),
        state.phase == Phase::AwaitingCompletion,
    ensures
        settled_at(state.recorded(text), state.cursor + 1),
        state.recorded(text).plan() == state.plan(),
{
    let plan = state.plan();
    let turn = state.current();
    let done = state.cursor;
    let next = state.recorded(text);
    let texts = texts_of(state.transcript);
    let longer = texts_of(next.transcript);
    lemma_plan_in_bounds(state.sections, state.participants.len());
    assert(next.plan() == plan);
    assert(longer =~= texts.push(text));
    lemma_transcript_after(plan, state.sections, state.participants, longer, texts, done);
    assert(next.transcript =~= transcript_after(
        plan,
        state.sections,
        state.participants,
        longer,
        done + 1,
    ));
    assert forall|i: int| 0 <= i < next.histories.len() implies (
    #[trigger] next.histories[i]).len() > 0 && next.histories[i][0].role
        == ChatRole::System && next.histories[i] == history_after(
        plan,
        next.sections,
        next.participants,
        longer,
        next.histories[i][0].content,
        i,
        done + 1,
    ) by {
        let before = state.histories[i];
        assert(before.len() > 0);
        assert(before == state.expected_history(i));
        assert(next.histories[i][0] == before[0]);
        lemma_history_after(
            plan,
            state.sections,
            state.participants,
            longer,
            texts,
            before[0].content,
            i,
            done,
        );
        assert(next.histories[i] =~= history_after(
            plan,
            next.sections,
            next.participants,
            longer,
            next.histories[i][0].content,
            i,
            done + 1,
        ));
    }
}

/// Accepting an answer for the open turn keeps the invariant.
pub proof fn lemma_accepted_inv(state: OrchestratorView, text: Seq<char>)
    requires
        state.inv(),
        state.phase == Phase::AwaitingCompletion,
    ensures
        state.accepted(text).inv(),
{
    lemma_recorded_settled(state, text);
    lemma_arrived_inv(state.recorded(text), state.cursor + 1);
}

/// While a turn is open, asking for it again, sending its request again and
/// giving the run up all keep the invariant.
pub proof fn lemma_waiting_keeps_inv(state: OrchestratorView)
    requires
        state.inv(),
        state.phase == Phase::AwaitingCompletion,
    ensures
        state.empty_responses + 1 < MAX_EMPTY_RESPONSES ==> state.retried().inv(),
        state.transport_failures + 1 < MAX_TRANSPORT_ATTEMPTS ==> state.resent().inv(),
        state.aborted().inv(),
{
    let retried = state.retried();
    let resent = state.resent();
    let aborted = state.aborted();
    assert forall|i: int| 0 <= i < aborted.histories.len() implies (
    #[trigger] aborted.histories[i]).len() > 0 && aborted.histories[i][0].role == ChatRole::System
        && aborted.histories[i] == aborted.expected_history(i) by {
        assert(state.histories[i] == state.expected_history(i));
    }
    assert forall|i: int| 0 <= i < retried.histories.len() implies (
    #[trigger] retried.histories[i]).len() > 0 && retried.histories[i][0].role == ChatRole::System
        && retried.histories[i] == retried.expected_history(i) by {
        assert(state.histories[i] == state.expected_history(i));
    }
    assert forall|i: int| 0 <= i < resent.histories.len() implies (
    #[trigger] resent.histories[i]).len() > 0 && resent.histories[i][0].role == ChatRole::System
        && resent.histories[i] == resent.expected_history(i) by {
        assert(state.histories[i] == state.expected_history(i));
    }
}

/// Once a run is finished, the transcript holds exactly one entry for each
/// scheduled turn, in the order of the sections and of their speakers, and
/// the history of each participant holds, after its system message, two
/// entries for each turn of its own and exactly one observation for each
/// turn of anybody else.
pub proof fn lemma_finished_run(state: OrchestratorView)
    requires
        state.inv(),
        state.phase == Phase::Finished,
    ensures
        state.transcript.len() == scheduled_turns(state.sections, state.participants.len()),
        forall|k: int|
            0 <= k < state.plan().len() && (#[trigger] state.plan()[k]) is Turn ==> {
                let at = turns_before(state.plan(), k as nat) as int;
                &&& at < state.transcript.len()
                &&& state.transcript[at] == turn_message(
                    state.plan()[k],
                    state.sections,
                    state.participants,
                    state.transcript[at].content,
                )
            },
        forall|i: int|
            0 <= i < state.participants.len() ==> {
                let own = own_turns(state.plan(), i, state.plan().len());
                &&& own <= state.transcript.len()
                &&& (#[trigger] state.histories[i]).len() == 1 + 2 * own + (state.transcript.len()
                    - own)
                &&& state.histories[i] == history_after(
                    state.plan(),
                    state.sections,
                    state.participants,
                    texts_of(state.transcript),
                    state.histories[i][0].content,
                    i,
                    state.plan().len(),
                )
            },
{
    let plan = state.plan();
    let texts = texts_of(state.transcript);
    lemma_plan_counts(state.sections, state.participants.len());
    assert forall|k: int| 0 <= k < plan.len() && (#[trigger] plan[k]) is Turn implies {
        let at = turns_before(plan, k as nat) as int;
        &&& at < state.transcript.len()
        &&& state.transcript[at] == turn_message(
            plan[k],
            state.sections,
            state.participants,
            state.transcript[at].content,
        )
    } by {
        lemma_transcript_entry(
            plan,
            state.sections,
            state.participants,
            texts,
            plan.len(),
            k as nat,
        );
    }
    assert forall|i: int| 0 <= i < state.participants.len() implies {
        let own = own_turns(plan, i, plan.len());
        &&& own <= state.transcript.len()
        &&& (#[trigger] state.histories[i]).len() == 1 + 2 * own + (state.transcript.len() - own)
        &&& state.histories[i] == history_after(
            plan,
            state.sections,
            state.participants,
            texts,
            state.histories[i][0].content,
            i,
            plan.len(),
        )
    } by {
        assert(state.histories[i] == state.expected_history(i));
        lemma_history_length(
            plan,
            state.sections,
            state.participants,
            texts,
            state.histories[i][0].content,
            i,
            plan.len(),
        );
    }
}

/// In every state of a run, each turn that lies behind stands in each
/// history at its place: in the history of its speaker as the request and
/// the accepted answer, in every other history as exactly one observation of
/// that answer.
pub proof fn lemma_turn_in_history(state: OrchestratorView, owner: int, turn: nat)
    requires
        state.inv(),
        0 <= owner < state.participants.len(),
        turn < state.cursor,
        state.plan()[turn as int] is Turn,
    ensures
        ({
            let at = entries_start(state.plan(), owner, turn);
            let said = turns_before(state.plan(), turn) as int;
            let entries = turn_entries(
                owner,
                state.plan()[turn as int],
                state.sections,
                state.participants,
                state.transcript[said].content,
            );
            &&& said < state.transcript.len()
            &&& 0 < at
            &&& at + entries.len() <= state.histories[owner].len()
            &&& state.histories[owner].subrange(at, at + entries.len()) == entries
        }),
{
    let plan = state.plan();
    let texts = texts_of(state.transcript);
    let history = state.histories[owner];
    let settled = history_after(
        plan,
        state.sections,
        state.participants,
        texts,
        history[0].content,
        owner,
        state.cursor,
    );
    let at = entries_start(plan, owner, turn);
    let said = turns_before(plan, turn) as int;
    lemma_transcript_entry(plan, state.sections, state.participants, texts, state.cursor, turn);
    lemma_history_entry(
        plan,
        state.sections,
        state.participants,
        texts,
        history[0].content,
        owner,
        state.cursor,
        turn,
    );
    assert(history == state.expected_history(owner));
    let entries = turn_entries(
        owner,
        plan[turn as int],
        state.sections,
        state.participants,
        texts[said],
    );
    assert(history.subrange(at, at + entries.len()) =~= settled.subrange(
        at,
        at + entries.len(),
    ));
}

/// Starting a run only appends: the transcript stays empty and every
/// history keeps its system message in front.
pub proof fn lemma_starting_appends(state: OrchestratorView)
    requires
        state.inv(),
        state.phase == Phase::Ready,
    ensures
        state.started().transcript == state.transcript,
        state.started().histories.len() == state.histories.len(),
        forall|i: int|
            0 <= i < state.histories.len() ==> (#[trigger] state.histories[i]).is_prefix_of(
                state.started().histories[i],
            ),
{
    let plan = state.plan();
    lemma_plan_in_bounds(state.sections, state.participants.len());
    lemma_next_turn(plan, 0);
    assert forall|i: int| 0 <= i < state.histories.len() implies (
    #[trigger] state.histories[i]).is_prefix_of(state.started().histories[i]) by {}
}

/// Accepting an answer only appends: the transcript and every history keep
/// what they held, and every history keeps its system message in front.
pub proof fn lemma_accepting_appends(state: OrchestratorView, text: Seq<char>)
    requires
        state.inv(),
        state.phase == Phase::AwaitingCompletion,
    ensures
        state.transcript.is_prefix_of(state.accepted(text).transcript),
        state.accepted(text).transcript.len() == state.transcript.len() + 1,
        state.accepted(text).transcript.last().content == text,
        state.accepted(text).histories.len() == state.histories.len(),
        forall|i: int|
            0 <= i < state.histories.len() ==> (#[trigger] state.histories[i]).is_prefix_of(
                state.accepted(text).histories[i],
            ),
{
    let plan = state.plan();
    let recorded = state.recorded(text);
    let at = next_turn(plan, state.cursor + 1);
    lemma_plan_in_bounds(state.sections, state.participants.len());
    lemma_next_turn(plan, state.cursor + 1);
    assert(recorded.plan() == plan);
    assert forall|i: int| 0 <= i < state.histories.len() implies (
    #[trigger] state.histories[i]).is_prefix_of(state.accepted(text).histories[i]) by {
        assert(state.histories[i].is_prefix_of(recorded.histories[i]));
        assert(recorded.histories[i].is_prefix_of(recorded.arrived(at).histories[i]));
    }
}

/// Why a request is sent.
#[derive(Debug, Clone, Copy, PartialEq, Eq, Structural)]
pub enum RequestReason {
    /// The turn has just been opened.
    FirstAttempt,
    /// The response number `attempt` of this turn was empty.
    EmptyResponse { attempt: u32 },
    /// The attempt number `attempt` at this request failed.
    TransportFailure { attempt: u32 },
}

/// What the caller is to do next.
#[derive(Debug)]
pub enum Action {
    /// Wait `delay_secs` seconds, then send the history of `speaker` to the
    /// completion endpoint with the token budget `max_tokens`, and report
    /// what came back.
    Request { delay_secs: u64, speaker: usize, max_tokens: u32, reason: RequestReason },
    /// The debate is over and the transcript complete.
    Finished,
    /// The debate is given up.
    Failed(DebateError),
}

/// The outcome of one step: the events to deliver, in order, and the action
/// to perform after them.
#[derive(Debug)]
pub struct Step {
    pub events: Vec<DebateEvent>,
    pub action: Action,
}

/// The request for the open turn of `state`.
pub open spec fn request_for(state: OrchestratorView, delay_secs: u64, reason: RequestReason) -> Action {
    Action::Request {
        delay_secs,
        speaker: state.current()->speaker,
        max_tokens: state.sections[state.current()->Turn_section as int].max_tokens,
        reason,
    }
}

/// The action that follows the arrival at a turn or at the end of the plan.
pub open spec fn arrival_action(state: OrchestratorView) -> Action {
    if state.phase == Phase::Finished {
        Action::Finished
    } else {
        request_for(state, 0, RequestReason::FirstAttempt)
    }
}

/// What the verdict on the sanitized answer `text` leaves behind: the state
/// `after` and the outcome `step` for the state `before`, in which a turn
/// is open.
///
/// An accepted answer is recorded; the events tell of it and of the way to
/// the next turn. An answer that is not accepted counts as empty: the turn
/// is asked for again after a pause, or, where it was the last attempt, the
/// run is given up with an error that names the participant.
pub open spec fn verdict_outcome(
    before: OrchestratorView,
    text: Seq<char>,
    accepted: bool,
    after: OrchestratorView,
    step: Step,
) -> bool {
    let speaker = before.participants[before.current()->speaker as int];
    if accepted {
        &&& after == before.accepted(text)
        &&& views(step.events@) == seq![
            EventView::SpeakerMessage { name: speaker.name, content: text },
        ] + walk_events(before.plan(), before.sections, before.participants, before.cursor + 1)
        &&& step.action == arrival_action(after)
    } else if before.empty_responses + 1 < MAX_EMPTY_RESPONSES {
        &&& after == before.retried()
        &&& step.events@.len() == 0
        &&& step.action == request_for(
            before,
            EMPTY_RETRY_DELAY_SECS,
            RequestReason::EmptyResponse { attempt: (before.empty_responses + 1) as u32 },
        )
    } else {
        &&& after == before.aborted()
        &&& step.events@.len() == 0
        &&& step.action matches Action::Failed(DebateError::ConfigError(detail))
        &&& detail@ == exhaustion_detail(speaker.name)
    }
}

/// What a step that decides on the sanitized answer `text` leaves behind:
/// the answer is accepted where it is substantive.
pub open spec fn answer_outcome(
    before: OrchestratorView,
    text: Seq<char>,
    after: OrchestratorView,
    step: Step,
) -> bool {
    verdict_outcome(before, text, is_substantive(text), after, step)
}

} // verus!
