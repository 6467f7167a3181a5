//! The order of a debate: which sections are announced and who speaks when.
//!
//! The sections of a format and the number of participants fix one flat
//! plan. Each section contributes its announcement, followed by one turn for
//! each index of its speaker order that names an existing participant.

use crate::debate_format::{
    first_leads, lemma_presidential_shape, main_round_count, presidential_sections,
    second_leads, DebateSection, SectionView,
};
use crate::model::views;
use vstd::prelude::*;

verus! {

/// One step of the plan.
#[derive(Debug, Clone, Copy, PartialEq, Eq, Structural)]
pub enum PlanItem {
    /// The section with this index starts.
    Announce { section: usize },
    /// The participant `speaker` speaks in the section `section`.
    Turn { section: usize, speaker: usize },
}

/// The turns of one section: its speaker order without the indices that name
/// no participant.
pub open spec fn section_turns(section: usize, order: Seq<usize>, participants: nat) -> Seq<
    PlanItem,
>
    decreases order.len(),
{
    if order.len() == 0 {
        Seq::empty()
    } else {
        let before = section_turns(section, order.drop_last(), participants);
        if order.last() < participants {
            before.push(PlanItem::Turn { section, speaker: order.last() })
        } else {
            before
        }
    }
}

/// The plan of a debate over `sections` with `participants` participants.
pub open spec fn plan_of(sections: Seq<SectionView>, participants: nat) -> Seq<PlanItem>
    decreases sections.len(),
{
    if sections.len() == 0 {
        Seq::empty()
    } else {
        let section = (sections.len() - 1) as usize;
        plan_of(sections.drop_last(), participants).push(PlanItem::Announce { section })
            + section_turns(section, sections.last().speaker_order, participants)
    }
}

/// Whether every item of `plan` names a section below `sections` and every
/// turn a participant below `participants`.
pub open spec fn plan_in_bounds(plan: Seq<PlanItem>, sections: nat, participants: nat) -> bool {
    forall|k: int|
        0 <= k < plan.len() ==> match #[trigger] plan[k] {
            PlanItem::Announce { section } => section < sections,
            PlanItem::Turn { section, speaker } => section < sections && speaker < participants,
        }
}

/// Whether `item` is a turn of the section `section` by an existing
/// participant.
pub open spec fn is_turn_of(item: PlanItem, section: usize, participants: nat) -> bool {
    match item {
        PlanItem::Announce { .. } => false,
        PlanItem::Turn { section: s, speaker } => s == section && speaker < participants,
    }
}

/// The turns of a section name that section and existing participants only.
pub proof fn lemma_section_turns_in_bounds(section: usize, order: Seq<usize>, participants: nat)
    ensures
        section_turns(section, order, participants).len() <= order.len(),
        forall|k: int|
            0 <= k < section_turns(section, order, participants).len() ==> is_turn_of(
                #[trigger] section_turns(section, order, participants)[k],
                section,
                participants,
            ),
    decreases order.len(),
{
    if order.len() > 0 {
        lemma_section_turns_in_bounds(section, order.drop_last(), participants);
    }
}

/// A plan names existing sections and participants only.
pub proof fn lemma_plan_in_bounds(sections: Seq<SectionView>, participants: nat)
    requires
        sections.len() <= usize::MAX,
    ensures
        plan_in_bounds(plan_of(sections, participants), sections.len(), participants),
    decreases sections.len(),
{
    if sections.len() > 0 {
        let section = (sections.len() - 1) as usize;
        lemma_plan_in_bounds(sections.drop_last(), participants);
        lemma_section_turns_in_bounds(section, sections.last().speaker_order, participants);
        let head = plan_of(sections.drop_last(), participants).push(
            PlanItem::Announce { section },
        );
        let tail = section_turns(section, sections.last().speaker_order, participants);
        let plan = plan_of(sections, participants);
        assert(plan == head + tail);
        assert forall|k: int| 0 <= k < plan.len() implies match #[trigger] plan[k] {
            PlanItem::Announce { section } => section < sections.len(),
            PlanItem::Turn { section, speaker } => section < sections.len() && speaker
                < participants,
        } by {
            if k < head.len() - 1 {
                assert(plan[k] == plan_of(sections.drop_last(), participants)[k]);
            } else if k == head.len() - 1 {
                assert(plan[k] == PlanItem::Announce { section });
            } else {
                assert(plan[k] == tail[k - head.len()]);
            }
        }
    }
}

/// The number of turns in a debate over `sections` with `participants`
/// participants: for each section, the indices of its speaker order that name
/// a participant.
pub open spec fn scheduled_turns(sections: Seq<SectionView>, participants: nat) -> nat
    decreases sections.len(),
{
    if sections.len() == 0 {
        0
    } else {
        scheduled_turns(sections.drop_last(), participants) + section_turns(
            0,
            sections.last().speaker_order,
            participants,
        ).len()
    }
}

/// Appending items that are all turns adds their number to the turn count.
pub proof fn lemma_turns_before_append(head: Seq<PlanItem>, tail: Seq<PlanItem>, done: nat)
    requires
        done <= tail.len(),
        forall|k: int| 0 <= k < tail.len() ==> #[trigger] tail[k] is Turn,
    ensures
        turns_before(head + tail, head.len() + done) == turns_before(head, head.len()) + done,
    decreases done,
{
    let whole = head + tail;
    if done == 0 {
        lemma_turns_before_prefix(head, tail, head.len());
    } else {
        lemma_turns_before_append(head, tail, (done - 1) as nat);
        assert(whole[head.len() + done - 1] == tail[done - 1]);
    }
}

/// The turn count of a prefix does not depend on what follows it.
pub proof fn lemma_turns_before_prefix(head: Seq<PlanItem>, tail: Seq<PlanItem>, done: nat)
    requires
        done <= head.len(),
    ensures
        turns_before(head + tail, done) == turns_before(head, done),
    decreases done,
{
    if done > 0 {
        lemma_turns_before_prefix(head, tail, (done - 1) as nat);
        assert((head + tail)[done - 1] == head[done - 1]);
    }
}

/// The number of turns of a section does not depend on its index.
pub proof fn lemma_section_turns_len(
    section: usize,
    other: usize,
    order: Seq<usize>,
    participants: nat,
)
    ensures
        section_turns(section, order, participants).len() == section_turns(
            other,
            order,
            participants,
        ).len(),
    decreases order.len(),
{
    if order.len() > 0 {
        lemma_section_turns_len(section, other, order.drop_last(), participants);
    }
}

/// A plan holds one announcement for each section and one turn for each
/// scheduled speaker.
pub proof fn lemma_plan_counts(sections: Seq<SectionView>, participants: nat)
    ensures
        plan_of(sections, participants).len() == sections.len() + scheduled_turns(
            sections,
            participants,
        ),
        turns_before(plan_of(sections, participants), plan_of(sections, participants).len())
            == scheduled_turns(sections, participants),
    decreases sections.len(),
{
    if sections.len() > 0 {
        let section = (sections.len() - 1) as usize;
        let earlier = plan_of(sections.drop_last(), participants);
        let head = earlier.push(PlanItem::Announce { section });
        let tail = section_turns(section, sections.last().speaker_order, participants);
        lemma_plan_counts(sections.drop_last(), participants);
        lemma_section_turns_in_bounds(section, sections.last().speaker_order, participants);
        lemma_section_turns_len(section, 0, sections.last().speaker_order, participants);
        lemma_turns_before_append(head, tail, tail.len());
        assert(head =~= earlier + seq![PlanItem::Announce { section }]);
        lemma_turns_before_prefix(earlier, seq![PlanItem::Announce { section }], earlier.len());
        assert(head[head.len() - 1] == PlanItem::Announce { section });
    }
}

/// Where every section lets the same number of participants speak, the
/// debate has that number of turns for each section.
pub proof fn lemma_scheduled_turns_uniform(
    sections: Seq<SectionView>,
    participants: nat,
    per_section: nat,
)
    requires
        forall|k: int|
            0 <= k < sections.len() ==> section_turns(
                0,
                (#[trigger] sections[k]).speaker_order,
                participants,
            ).len() == per_section,
    ensures
        scheduled_turns(sections, participants) == per_section * sections.len(),
    decreases sections.len(),
{
    if sections.len() > 0 {
        let earlier = sections.drop_last();
        assert forall|k: int| 0 <= k < earlier.len() implies section_turns(
            0,
            (#[trigger] earlier[k]).speaker_order,
            participants,
        ).len() == per_section by {
            assert(earlier[k] == sections[k]);
        }
        lemma_scheduled_turns_uniform(earlier, participants, per_section);
        assert(sections.last() == sections[sections.len() - 1]);
        assert(per_section * earlier.len() + per_section == per_section * sections.len())
            by (nonlinear_arith)
            requires
                earlier.len() + 1 == sections.len(),
        ;
    }
}

/// In a presidential debate between two participants both speak in every
/// section: a debate of `R` rounds, with `R` at least four, has `2 R` turns.
pub proof fn lemma_presidential_turns(rounds: nat)
    requires
        rounds >= 4,
    ensures
        scheduled_turns(presidential_sections(rounds), 2) == 2 * rounds,
        plan_of(presidential_sections(rounds), 2).len() == 3 * rounds,
{
    let sections = presidential_sections(rounds);
    lemma_presidential_shape(rounds);
    assert forall|k: int| 0 <= k < sections.len() implies section_turns(
        0,
        (#[trigger] sections[k]).speaker_order,
        2,
    ).len() == 2 by {
        let order = sections[k].speaker_order;
        assert(order == first_leads() || order == second_leads()) by {
            if k == 0 {
            } else if k <= main_round_count(rounds) {
            } else if k == rounds - 2 {
            } else {
                assert(k == rounds - 1);
            }
        }
        assert(order.len() == 2);
        assert(order.drop_last().len() == 1);
        assert(order.drop_last().drop_last().len() == 0);
        reveal_with_fuel(section_turns, 3);
    }
    lemma_scheduled_turns_uniform(sections, 2, 2);
    lemma_plan_counts(sections, 2);
}

/// Builds the plan of a debate.
pub fn build_plan(sections: &Vec<DebateSection>, participants: usize) -> (plan: Vec<PlanItem>)
    ensures
        plan@ == plan_of(views(sections@), participants as nat),
{
    let ghost all = views(sections@);
    let mut plan: Vec<PlanItem> = Vec::new();
    let mut s: usize = 0;
    assert(all.take(0) =~= Seq::<SectionView>::empty());
    while s < sections.len()
        invariant
            s <= sections@.len(),
            all == views(sections@),
            plan@ == plan_of(all.take(s as int), participants as nat),
        decreases sections@.len() - s,
    {
        let section = &sections[s];
        let ghost before = plan@;
        proof {
            assert(all.take(s + 1).drop_last() =~= all.take(s as int));
            assert(all.take(s + 1).last() == section@);
            assert(section.speaker_order@.take(0) =~= Seq::<usize>::empty());
        }
        plan.push(PlanItem::Announce { section: s });
        let mut p: usize = 0;
        while p < section.speaker_order.len()
            invariant
                p <= section.speaker_order@.len(),
                plan@ == before.push(PlanItem::Announce { section: s }) + section_turns(
                    s,
                    section.speaker_order@.take(p as int),
                    participants as nat,
                ),
            decreases section.speaker_order@.len() - p,
        {
            let speaker = section.speaker_order[p];
            proof {
                let order = section.speaker_order@;
                assert(order.take(p + 1).drop_last() =~= order.take(p as int));
                assert(order.take(p + 1).last() == speaker);
            }
            if speaker < participants {
                plan.push(PlanItem::Turn { section: s, speaker });
            }
            p = p + 1;
        }
        proof {
            let order = section.speaker_order@;
            assert(order.take(order.len() as int) =~= order);
        }
        s = s + 1;
    }
    assert(all.take(sections@.len() as int) =~= all);
    plan
}

/// The index of the first turn at or after `from`, or the length of the plan
/// where no turn is left.
pub open spec fn next_turn(plan: Seq<PlanItem>, from: nat) -> nat
    decreases plan.len() - from,
{
    if from >= plan.len() {
        plan.len()
    } else if plan[from as int] is Turn {
        from
    } else {
        next_turn(plan, from + 1)
    }
}

/// The number of turns among the first `done` items of the plan.
pub open spec fn turns_before(plan: Seq<PlanItem>, done: nat) -> nat
    decreases done,
{
    if done == 0 || done > plan.len() {
        0
    } else {
        turns_before(plan, (done - 1) as nat) + if plan[done - 1] is Turn {
            1nat
        } else {
            0nat
        }
    }
}

/// Between a position and the next turn after it the plan holds
/// announcements only.
pub proof fn lemma_next_turn(plan: Seq<PlanItem>, from: nat)
    requires
        from <= plan.len(),
    ensures
        from <= next_turn(plan, from) <= plan.len(),
        next_turn(plan, from) < plan.len() ==> plan[next_turn(plan, from) as int] is Turn,
        forall|k: int| from <= k < next_turn(plan, from) ==> #[trigger] plan[k] is Announce,
        turns_before(plan, next_turn(plan, from)) == turns_before(plan, from),
    decreases plan.len() - from,
{
    if from < plan.len() && !(plan[from as int] is Turn) {
        lemma_next_turn(plan, from + 1);
    }
}

/// The position of the first turn at or after `from`.
pub fn find_next_turn(plan: &Vec<PlanItem>, from: usize) -> (at: usize)
    requires
        from <= plan@.len(),
    ensures
        at == next_turn(plan@, from as nat),
{
    let mut at: usize = from;
    while at < plan.len()
        invariant
            from <= at <= plan@.len(),
            next_turn(plan@, from as nat) == next_turn(plan@, at as nat),
        decreases plan@.len() - at,
    {
        match plan[at] {
            PlanItem::Turn { .. } => {
                return at;
            },
            PlanItem::Announce { .. } => {},
        }
        at = at + 1;
    }
    at
}

} // verus!
