//! The order of texts, as the standard library orders strings, and sorting
//! by it.

use vstd::prelude::*;

verus! {

/// Whether `a` comes before `b` or equals it: texts are ordered character
/// by character, by code point, and a text comes after its proper prefixes.
pub open spec fn text_le(a: Seq<char>, b: Seq<char>) -> bool
    decreases a.len(),
{
    if a.len() == 0 {
        true
    } else if b.len() == 0 {
        false
    } else if a[0] != b[0] {
        (a[0] as u32) < (b[0] as u32)
    } else {
        text_le(a.drop_first(), b.drop_first())
    }
}

/// Of two texts one comes before the other, or they are equal.
pub proof fn lemma_text_le_total(a: Seq<char>, b: Seq<char>)
    ensures
        text_le(a, b) || text_le(b, a),
        text_le(a, b) && text_le(b, a) ==> a == b,
        text_le(a, a),
    decreases a.len(),
{
    if a.len() > 0 {
        lemma_text_le_total(a.drop_first(), a.drop_first());
        if b.len() > 0 {
            if a[0] == b[0] {
                lemma_text_le_total(a.drop_first(), b.drop_first());
                if text_le(a, b) && text_le(b, a) {
                    assert(a =~= seq![a[0]] + a.drop_first());
                    assert(b =~= seq![b[0]] + b.drop_first());
                }
            } else {
                vstd::utf8::char_u32_cast(a[0], a[0] as u32);
                vstd::utf8::char_u32_cast(b[0], b[0] as u32);
                assert((a[0] as u32) != (b[0] as u32));
            }
        }
    } else if b.len() == 0 {
        assert(a =~= b);
    }
}

/// What comes before something that comes before a third comes before the
/// third.
pub proof fn lemma_text_le_transitive(a: Seq<char>, b: Seq<char>, c: Seq<char>)
    requires
        text_le(a, b),
        text_le(b, c),
    ensures
        text_le(a, c),
    decreases a.len(),
{
    if a.len() > 0 && b.len() > 0 && c.len() > 0 {
        if a[0] == b[0] && b[0] == c[0] {
            lemma_text_le_transitive(a.drop_first(), b.drop_first(), c.drop_first());
        }
    }
}

/// Whether `a` comes before `b` or equals it.
pub fn text_precedes(a: &Vec<char>, b: &Vec<char>) -> (le: bool)
    ensures
        le == text_le(a@, b@),
{
    let mut i: usize = 0;
    assert(a@.skip(0) =~= a@ && b@.skip(0) =~= b@);
    while i < a.len() && i < b.len()
        invariant
            i <= a@.len(),
            i <= b@.len(),
            text_le(a@, b@) == text_le(a@.skip(i as int), b@.skip(i as int)),
        decreases a@.len() - i,
    {
        let ghost x = a@.skip(i as int);
        let ghost y = b@.skip(i as int);
        assert(x[0] == a@[i as int] && y[0] == b@[i as int]);
        if a[i] != b[i] {
            return (a[i] as u32) < (b[i] as u32);
        }
        assert(x.drop_first() =~= a@.skip(i + 1));
        assert(y.drop_first() =~= b@.skip(i + 1));
        i = i + 1;
    }
    i == a.len()
}

/// Where `item` goes into the ordered `sorted`: behind the last text that
/// does not come after it.
pub open spec fn insertion_point(sorted: Seq<Seq<char>>, item: Seq<char>) -> nat
    decreases sorted.len(),
{
    if sorted.len() == 0 || text_le(sorted.last(), item) {
        sorted.len()
    } else {
        insertion_point(sorted.drop_last(), item)
    }
}

/// `items` in ascending order; equal texts keep the order they came in.
pub open spec fn sorted_texts(items: Seq<Seq<char>>) -> Seq<Seq<char>>
    decreases items.len(),
{
    if items.len() == 0 {
        Seq::empty()
    } else {
        let before = sorted_texts(items.drop_last());
        before.insert(insertion_point(before, items.last()) as int, items.last())
    }
}

/// Whether no text of `items` comes after a later one.
pub open spec fn ascending(items: Seq<Seq<char>>) -> bool {
    forall|i: int, j: int| 0 <= i <= j < items.len() ==> text_le(items[i], items[j])
}

/// The insertion point lies behind what does not come after the item and in
/// front of what does.
pub proof fn lemma_insertion_point(sorted: Seq<Seq<char>>, item: Seq<char>)
    ensures
        insertion_point(sorted, item) <= sorted.len(),
        insertion_point(sorted, item) > 0 ==> text_le(
            sorted[insertion_point(sorted, item) - 1],
            item,
        ),
        forall|k: int|
            insertion_point(sorted, item) <= k < sorted.len() ==> !text_le(
                #[trigger] sorted[k],
                item,
            ),
    decreases sorted.len(),
{
    if sorted.len() > 0 && !text_le(sorted.last(), item) {
        let earlier = sorted.drop_last();
        lemma_insertion_point(earlier, item);
        assert forall|k: int| insertion_point(sorted, item) <= k < sorted.len() implies !text_le(
            #[trigger] sorted[k],
            item,
        ) by {
            if k < earlier.len() {
                assert(sorted[k] == earlier[k]);
            }
        }
        if insertion_point(sorted, item) > 0 {
            assert(sorted[insertion_point(sorted, item) - 1] == earlier[insertion_point(
                earlier,
                item,
            ) - 1]);
        }
    }
}

/// Sorting keeps every text as often as it came and puts the texts in
/// ascending order.
pub proof fn lemma_sorted_texts(items: Seq<Seq<char>>)
    ensures
        sorted_texts(items).len() == items.len(),
        sorted_texts(items).to_multiset() == items.to_multiset(),
        ascending(sorted_texts(items)),
    decreases items.len(),
{
    if items.len() > 0 {
        let item = items.last();
        let before = sorted_texts(items.drop_last());
        let at = insertion_point(before, item) as int;
        let after = before.insert(at, item);
        lemma_sorted_texts(items.drop_last());
        lemma_insertion_point(before, item);
        vstd::seq_lib::to_multiset_insert(before, at, item);
        vstd::seq_lib::to_multiset_build(items.drop_last(), item);
        assert(items.drop_last().push(item) =~= items);
        assert forall|i: int, j: int| 0 <= i <= j < after.len() implies text_le(
            after[i],
            after[j],
        ) by {
            lemma_text_le_total(after[i], after[j]);
            if i == j {
            } else if j < at {
                assert(after[i] == before[i] && after[j] == before[j]);
            } else if j == at {
                assert(after[i] == before[i]);
                assert(text_le(before[i], before[at - 1]));
                lemma_text_le_transitive(before[i], before[at - 1], item);
            } else if i < at {
                assert(after[i] == before[i] && after[j] == before[j - 1]);
            } else if i == at {
                assert(after[j] == before[j - 1]);
                lemma_text_le_total(before[j - 1], item);
            } else {
                assert(after[i] == before[i - 1] && after[j] == before[j - 1]);
            }
        }
    } else {
        assert(sorted_texts(items) =~= items);
    }
}

/// The texts of `items`.
pub open spec fn texts(items: Seq<Vec<char>>) -> Seq<Seq<char>> {
    Seq::new(items.len(), |i: int| items[i]@)
}

/// Sorts `items` in ascending order.
pub fn sort_texts(items: Vec<Vec<char>>) -> (sorted: Vec<Vec<char>>)
    ensures
        texts(sorted@) == sorted_texts(texts(items@)),
{
    let ghost all = texts(items@);
    let mut sorted: Vec<Vec<char>> = Vec::new();
    let mut i: usize = 0;
    assert(all.take(0) =~= Seq::<Seq<char>>::empty());
    assert(texts(sorted@) =~= sorted_texts(all.take(0)));
    while i < items.len()
        invariant
            i <= items@.len(),
            all == texts(items@),
            texts(sorted@) == sorted_texts(all.take(i as int)),
        decreases items@.len() - i,
    {
        let item = items[i].clone();
        assert(item@ == items@[i as int]@);
        let ghost before = texts(sorted@);
        let mut at: usize = sorted.len();
        assert(before.take(before.len() as int) =~= before);
        while at > 0 && !text_precedes(&sorted[at - 1], &item)
            invariant
                at <= sorted@.len(),
                before == texts(sorted@),
                insertion_point(before, item@) == insertion_point(before.take(at as int), item@),
            decreases at,
        {
            proof {
                let head = before.take(at as int);
                assert(head.last() == sorted@[at - 1]@);
                assert(head.drop_last() =~= before.take(at - 1));
            }
            at = at - 1;
        }
        proof {
            let head = before.take(at as int);
            if at > 0 {
                assert(head.last() == sorted@[at - 1]@);
            }
            assert(insertion_point(before, item@) == at);
            assert(all.take(i + 1).drop_last() =~= all.take(i as int));
            assert(all.take(i + 1).last() == item@);
        }
        sorted.insert(at, item);
        assert(texts(sorted@) =~= before.insert(at as int, item@));
        i = i + 1;
    }
    assert(all.take(items@.len() as int) =~= all);
    sorted
}

} // verus!
