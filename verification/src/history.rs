//! What the transcript and the conversation histories hold, stated from the
//! plan of the debate and the texts of the accepted turns.
//!
//! Every accepted turn adds one entry to the transcript. To the history of
//! its speaker it adds the request for the turn and the answer; to the
//! history of every other participant it adds one observation.

use crate::debate_format::SectionView;
use crate::participant::ParticipantView;
use crate::schedule::{turns_before, PlanItem};
use crate::text::unicode_lowercase;
use crate::transcript::{
    assistant_message, system_message, user_message, ChatMessageView, MessageView,
};
use vstd::prelude::*;

verus! {

pub const SECTION_PROMPT_OPEN: &'static str = "[";

pub const SECTION_PROMPT_DASH: &'static str = " - ";

pub const SECTION_PROMPT_ASK: &'static str = "]\nPlease provide your ";

pub const SECTION_PROMPT_CLOSE: &'static str = ".";

pub const OBSERVATION_OPEN: &'static str = "[Opponent ";

pub const OBSERVATION_SAID: &'static str = " said]: ";

/// The request that opens a turn in `section`.
pub open spec fn section_prompt(section: SectionView) -> Seq<char> {
    SECTION_PROMPT_OPEN@ + section.name + SECTION_PROMPT_DASH@ + section.description
        + SECTION_PROMPT_ASK@ + unicode_lowercase(section.name) + SECTION_PROMPT_CLOSE@
}

/// What the other participants are told of a turn.
pub open spec fn observation(speaker_name: Seq<char>, text: Seq<char>) -> Seq<char> {
    OBSERVATION_OPEN@ + speaker_name + OBSERVATION_SAID@ + text
}

/// The transcript entry of the turn `item` with the accepted text `text`.
pub open spec fn turn_message(
    item: PlanItem,
    sections: Seq<SectionView>,
    participants: Seq<ParticipantView>,
    text: Seq<char>,
) -> MessageView
    recommends
        item is Turn,
{
    MessageView {
        section: sections[item->Turn_section as int].name,
        speaker_index: item->speaker,
        speaker_name: participants[item->speaker as int].name,
        content: text,
    }
}

/// What the turn `item` with the accepted text `text` adds to the history of
/// the participant `owner`.
pub open spec fn turn_entries(
    owner: int,
    item: PlanItem,
    sections: Seq<SectionView>,
    participants: Seq<ParticipantView>,
    text: Seq<char>,
) -> Seq<ChatMessageView>
    recommends
        item is Turn,
{
    if item->speaker == owner {
        seq![
            user_message(section_prompt(sections[item->Turn_section as int])),
            assistant_message(text),
        ]
    } else {
        seq![user_message(observation(participants[item->speaker as int].name, text))]
    }
}

/// The transcript once the first `done` items of the plan are behind, where
/// `texts` holds the accepted texts in the order of their turns.
pub open spec fn transcript_after(
    plan: Seq<PlanItem>,
    sections: Seq<SectionView>,
    participants: Seq<ParticipantView>,
    texts: Seq<Seq<char>>,
    done: nat,
) -> Seq<MessageView>
    decreases done,
{
    if done == 0 || done > plan.len() {
        Seq::empty()
    } else {
        let before = transcript_after(plan, sections, participants, texts, (done - 1) as nat);
        let item = plan[done - 1];
        if item is Turn {
            before.push(
                turn_message(
                    item,
                    sections,
                    participants,
                    texts[turns_before(plan, (done - 1) as nat) as int],
                ),
            )
        } else {
            before
        }
    }
}

/// The history of the participant `owner`, which opened with the system
/// prompt `system_prompt`, once the first `done` items of the plan are
/// behind.
pub open spec fn history_after(
    plan: Seq<PlanItem>,
    sections: Seq<SectionView>,
    participants: Seq<ParticipantView>,
    texts: Seq<Seq<char>>,
    system_prompt: Seq<char>,
    owner: int,
    done: nat,
) -> Seq<ChatMessageView>
    decreases done,
{
    if done == 0 || done > plan.len() {
        seq![system_message(system_prompt)]
    } else {
        let before = history_after(
            plan,
            sections,
            participants,
            texts,
            system_prompt,
            owner,
            (done - 1) as nat,
        );
        let item = plan[done - 1];
        if item is Turn {
            before + turn_entries(
                owner,
                item,
                sections,
                participants,
                texts[turns_before(plan, (done - 1) as nat) as int],
            )
        } else {
            before
        }
    }
}

/// The texts of the transcript entries, in order.
pub open spec fn texts_of(transcript: Seq<MessageView>) -> Seq<Seq<char>> {
    Seq::new(transcript.len(), |k: int| transcript[k].content)
}

/// The number of turns before a position grows with the position.
pub proof fn lemma_turns_before_monotonic(plan: Seq<PlanItem>, earlier: nat, later: nat)
    requires
        earlier <= later <= plan.len(),
    ensures
        turns_before(plan, earlier) <= turns_before(plan, later) <= later,
    decreases later,
{
    if later > 0 {
        if earlier < later {
            lemma_turns_before_monotonic(plan, earlier, (later - 1) as nat);
        } else {
            lemma_turns_before_monotonic(plan, (later - 1) as nat, (later - 1) as nat);
        }
    }
}

/// The transcript after `done` items has one entry for each turn among
/// them, and reads only the texts of those turns.
pub proof fn lemma_transcript_after(
    plan: Seq<PlanItem>,
    sections: Seq<SectionView>,
    participants: Seq<ParticipantView>,
    texts: Seq<Seq<char>>,
    others: Seq<Seq<char>>,
    done: nat,
)
    requires
        done <= plan.len(),
        forall|k: int| 0 <= k < turns_before(plan, done) ==> texts[k] == others[k],
    ensures
        transcript_after(plan, sections, participants, texts, done).len() == turns_before(
            plan,
            done,
        ),
        transcript_after(plan, sections, participants, texts, done) == transcript_after(
            plan,
            sections,
            participants,
            others,
            done,
        ),
    decreases done,
{
    if done > 0 {
        lemma_turns_before_monotonic(plan, (done - 1) as nat, done);
        lemma_transcript_after(plan, sections, participants, texts, others, (done - 1) as nat);
    }
}

/// The history after `done` items opens with the system message and reads
/// only the texts of the turns among those items.
pub proof fn lemma_history_after(
    plan: Seq<PlanItem>,
    sections: Seq<SectionView>,
    participants: Seq<ParticipantView>,
    texts: Seq<Seq<char>>,
    others: Seq<Seq<char>>,
    system_prompt: Seq<char>,
    owner: int,
    done: nat,
)
    requires
        done <= plan.len(),
        forall|k: int| 0 <= k < turns_before(plan, done) ==> texts[k] == others[k],
    ensures
        history_after(plan, sections, participants, texts, system_prompt, owner, done).len() > 0,
        history_after(plan, sections, participants, texts, system_prompt, owner, done)[0]
            == system_message(system_prompt),
        history_after(plan, sections, participants, texts, system_prompt, owner, done)
            == history_after(plan, sections, participants, others, system_prompt, owner, done),
    decreases done,
{
    if done > 0 {
        lemma_turns_before_monotonic(plan, (done - 1) as nat, done);
        lemma_history_after(
            plan,
            sections,
            participants,
            texts,
            others,
            system_prompt,
            owner,
            (done - 1) as nat,
        );
    }
}

/// Announcements change neither the transcript nor any history.
pub proof fn lemma_announcements_add_nothing(
    plan: Seq<PlanItem>,
    sections: Seq<SectionView>,
    participants: Seq<ParticipantView>,
    texts: Seq<Seq<char>>,
    system_prompt: Seq<char>,
    owner: int,
    from: nat,
    to: nat,
)
    requires
        from <= to <= plan.len(),
        forall|k: int| from <= k < to ==> #[trigger] plan[k] is Announce,
    ensures
        transcript_after(plan, sections, participants, texts, to) == transcript_after(
            plan,
            sections,
            participants,
            texts,
            from,
        ),
        history_after(plan, sections, participants, texts, system_prompt, owner, to)
            == history_after(plan, sections, participants, texts, system_prompt, owner, from),
    decreases to - from,
{
    if from < to {
        assert(plan[to - 1] is Announce);
        lemma_announcements_add_nothing(
            plan,
            sections,
            participants,
            texts,
            system_prompt,
            owner,
            from,
            (to - 1) as nat,
        );
    }
}

/// The number of turns of the participant `owner` among the first `done`
/// items of the plan.
pub open spec fn own_turns(plan: Seq<PlanItem>, owner: int, done: nat) -> nat
    decreases done,
{
    if done == 0 || done > plan.len() {
        0
    } else {
        own_turns(plan, owner, (done - 1) as nat) + if plan[done - 1] is Turn && plan[done
            - 1]->speaker == owner {
            1nat
        } else {
            0nat
        }
    }
}

/// A history holds its system message, two entries for each turn of its
/// owner and one entry, the observation, for each turn of anybody else.
pub proof fn lemma_history_length(
    plan: Seq<PlanItem>,
    sections: Seq<SectionView>,
    participants: Seq<ParticipantView>,
    texts: Seq<Seq<char>>,
    system_prompt: Seq<char>,
    owner: int,
    done: nat,
)
    requires
        done <= plan.len(),
    ensures
        own_turns(plan, owner, done) <= turns_before(plan, done),
        history_after(plan, sections, participants, texts, system_prompt, owner, done).len() == 1
            + 2 * own_turns(plan, owner, done) + (turns_before(plan, done) - own_turns(
            plan,
            owner,
            done,
        )),
    decreases done,
{
    if done > 0 {
        lemma_history_length(
            plan,
            sections,
            participants,
            texts,
            system_prompt,
            owner,
            (done - 1) as nat,
        );
    }
}

/// The transcript holds the entry of every turn that lies behind, at the
/// place that the order of the plan gives it.
pub proof fn lemma_transcript_entry(
    plan: Seq<PlanItem>,
    sections: Seq<SectionView>,
    participants: Seq<ParticipantView>,
    texts: Seq<Seq<char>>,
    done: nat,
    turn: nat,
)
    requires
        turn < done <= plan.len(),
        plan[turn as int] is Turn,
    ensures
        turns_before(plan, turn) < transcript_after(plan, sections, participants, texts, done).len(),
        transcript_after(plan, sections, participants, texts, done)[turns_before(plan, turn) as int]
            == turn_message(
            plan[turn as int],
            sections,
            participants,
            texts[turns_before(plan, turn) as int],
        ),
    decreases done,
{
    lemma_transcript_after(plan, sections, participants, texts, texts, (done - 1) as nat);
    if turn < done - 1 {
        lemma_transcript_entry(plan, sections, participants, texts, (done - 1) as nat, turn);
    }
}

/// Where the entries of the turn at position `turn` of the plan begin in
/// the history of the participant `owner`: behind the system message, one
/// entry for each earlier turn and one more for each earlier turn of the
/// owner.
pub open spec fn entries_start(plan: Seq<PlanItem>, owner: int, turn: nat) -> int {
    1 + turns_before(plan, turn) as int + own_turns(plan, owner, turn) as int
}

/// Every turn that lies behind stands in every history at its place: in the
/// history of its speaker as the request and the answer, in every other
/// history as exactly one observation.
pub proof fn lemma_history_entry(
    plan: Seq<PlanItem>,
    sections: Seq<SectionView>,
    participants: Seq<ParticipantView>,
    texts: Seq<Seq<char>>,
    system_prompt: Seq<char>,
    owner: int,
    done: nat,
    turn: nat,
)
    requires
        turn < done <= plan.len(),
        plan[turn as int] is Turn,
    ensures
        ({
            let history = history_after(
                plan,
                sections,
                participants,
                texts,
                system_prompt,
                owner,
                done,
            );
            let at = entries_start(plan, owner, turn);
            let entries = turn_entries(
                owner,
                plan[turn as int],
                sections,
                participants,
                texts[turns_before(plan, turn) as int],
            );
            &&& 0 < at
            &&& at + entries.len() <= history.len()
            &&& history.subrange(at, at + entries.len()) == entries
        }),
    decreases done,
{
    let earlier = history_after(
        plan,
        sections,
        participants,
        texts,
        system_prompt,
        owner,
        (done - 1) as nat,
    );
    let history = history_after(plan, sections, participants, texts, system_prompt, owner, done);
    let at = entries_start(plan, owner, turn);
    let entries = turn_entries(
        owner,
        plan[turn as int],
        sections,
        participants,
        texts[turns_before(plan, turn) as int],
    );
    lemma_history_length(
        plan,
        sections,
        participants,
        texts,
        system_prompt,
        owner,
        (done - 1) as nat,
    );
    if turn < done - 1 {
        lemma_history_entry(
            plan,
            sections,
            participants,
            texts,
            system_prompt,
            owner,
            (done - 1) as nat,
            turn,
        );
        assert(history.subrange(at, at + entries.len()) =~= earlier.subrange(
            at,
            at + entries.len(),
        ));
    } else {
        assert(history == earlier + entries);
        assert(history.subrange(at, at + entries.len()) =~= entries);
    }
}

} // verus!
