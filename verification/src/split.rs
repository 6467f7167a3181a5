//! Cutting a text into pieces: at separators, which stay with the piece in
//! front of them, and into words.

use crate::text::{is_whitespace, lemma_trim_start_shape, trim_start, unicode_whitespace};
use vstd::prelude::*;

verus! {

/// The characters at which a text is cut.
#[derive(Debug, Clone, Copy, PartialEq, Eq, Structural)]
pub enum Separator {
    /// A sentence ends: `.`, `!`, `?` or `;`.
    SentenceEnd,
    /// A comma.
    Comma,
}

impl Separator {
    /// Whether `c` is a separator of this kind.
    pub open spec fn cuts_at(self, c: char) -> bool {
        match self {
            Separator::SentenceEnd => c == '.' || c == '!' || c == '?' || c == ';',
            Separator::Comma => c == ',',
        }
    }

    /// Whether `c` is a separator of this kind.
    pub fn is_match(self, c: char) -> (found: bool)
        ensures
            found == self.cuts_at(c),
    {
        match self {
            Separator::SentenceEnd => c == '.' || c == '!' || c == '?' || c == ';',
            Separator::Comma => c == ',',
        }
    }
}

/// The length of the first piece of `s`: up to and with its first
/// separator, or all of `s` where it holds none.
pub open spec fn piece_len(s: Seq<char>, separator: Separator) -> nat
    decreases s.len(),
{
    if s.len() == 0 {
        0
    } else if separator.cuts_at(s[0]) {
        1
    } else {
        1 + piece_len(s.drop_first(), separator)
    }
}

/// The pieces of `s`, as `str::split_inclusive` cuts them: each separator
/// ends a piece and belongs to it; what follows the last separator is a
/// piece of its own unless it is empty.
pub open spec fn split_inclusive(s: Seq<char>, separator: Separator) -> Seq<Seq<char>>
    decreases s.len(),
{
    if s.len() == 0 {
        Seq::empty()
    } else {
        let n = piece_len(s, separator);
        if 0 < n <= s.len() {
            seq![s.take(n as int)] + split_inclusive(s.skip(n as int), separator)
        } else {
            seq![s]
        }
    }
}

/// The first piece of a text that is not empty holds at least one
/// character and lies within the text.
pub proof fn lemma_piece_len(s: Seq<char>, separator: Separator)
    ensures
        piece_len(s, separator) <= s.len(),
        s.len() > 0 ==> piece_len(s, separator) > 0,
        forall|i: int| 0 <= i < piece_len(s, separator) - 1 ==> !separator.cuts_at(#[trigger] s[i]),
        piece_len(s, separator) < s.len() ==> separator.cuts_at(
            s[piece_len(s, separator) - 1],
        ),
    decreases s.len(),
{
    if s.len() > 0 && !separator.cuts_at(s[0]) {
        let rest = s.drop_first();
        lemma_piece_len(rest, separator);
        assert forall|i: int| 0 <= i < piece_len(s, separator) - 1 implies !separator.cuts_at(
            #[trigger] s[i],
        ) by {
            if i > 0 {
                assert(s[i] == rest[i - 1]);
            }
        }
        if piece_len(s, separator) < s.len() {
            assert(s[piece_len(s, separator) - 1] == rest[piece_len(rest, separator) - 1]);
        }
    }
}

/// Where the piece that starts at `from` ends: behind its separator, or at
/// `to` where `chars[from..to]` holds none.
pub fn piece_end(chars: &Vec<char>, from: usize, to: usize, separator: Separator) -> (end: usize)
    requires
        from <= to <= chars@.len(),
    ensures
        from <= end <= to,
        end - from == piece_len(chars@.subrange(from as int, to as int), separator),
{
    let ghost whole = chars@.subrange(from as int, to as int);
    let mut at: usize = from;
    assert(whole.skip(0) =~= whole);
    while at < to
        invariant
            from <= at <= to <= chars@.len(),
            whole == chars@.subrange(from as int, to as int),
            piece_len(whole, separator) == (at - from) + piece_len(
                whole.skip(at - from),
                separator,
            ),
        decreases to - at,
    {
        let ghost rest = whole.skip(at - from);
        assert(rest[0] == chars@[at as int]);
        if separator.is_match(chars[at]) {
            return at + 1;
        }
        assert(rest.drop_first() =~= whole.skip(at + 1 - from));
        at = at + 1;
    }
    assert(whole.skip(to - from).len() == 0);
    at
}

/// The length of the first word of `s`: its leading characters that are not
/// whitespace.
pub open spec fn word_len(s: Seq<char>) -> nat
    decreases s.len(),
{
    if s.len() == 0 || unicode_whitespace(s[0]) {
        0
    } else {
        1 + word_len(s.drop_first())
    }
}

/// The words of `s`, as `str::split_whitespace` gives them: the longest
/// runs of characters that are not whitespace.
pub open spec fn words(s: Seq<char>) -> Seq<Seq<char>>
    decreases s.len(),
{
    let rest = trim_start(s);
    let n = word_len(rest);
    if 0 < n <= rest.len() <= s.len() {
        seq![rest.take(n as int)] + words(rest.skip(n as int))
    } else {
        Seq::empty()
    }
}

/// The first word lies within the text and is not empty unless the text
/// starts with whitespace or is empty.
pub proof fn lemma_word_len(s: Seq<char>)
    ensures
        word_len(s) <= s.len(),
        s.len() > 0 && !unicode_whitespace(s[0]) ==> word_len(s) > 0,
        forall|i: int| 0 <= i < word_len(s) ==> !unicode_whitespace(#[trigger] s[i]),
        word_len(s) < s.len() ==> unicode_whitespace(s[word_len(s) as int]),
    decreases s.len(),
{
    if s.len() > 0 && !unicode_whitespace(s[0]) {
        let rest = s.drop_first();
        lemma_word_len(rest);
        assert forall|i: int| 0 <= i < word_len(s) implies !unicode_whitespace(#[trigger] s[i]) by {
            if i > 0 {
                assert(s[i] == rest[i - 1]);
            }
        }
        if word_len(s) < s.len() {
            assert(s[word_len(s) as int] == rest[word_len(rest) as int]);
        }
    }
}

/// The bounds of the first word of `chars[from..]`, or `None` where only
/// whitespace is left.
pub fn next_word(chars: &Vec<char>, from: usize) -> (bounds: Option<(usize, usize)>)
    requires
        from <= chars@.len(),
    ensures
        match bounds {
            Some((start, end)) => {
                &&& from <= start < end <= chars@.len()
                &&& words(chars@.skip(from as int)) == seq![
                    chars@.subrange(start as int, end as int),
                ] + words(chars@.skip(end as int))
            },
            None => words(chars@.skip(from as int)).len() == 0,
        },
{
    let ghost tail = chars@.skip(from as int);
    let mut start: usize = from;
    while start < chars.len() && is_whitespace(chars[start])
        invariant
            from <= start <= chars@.len(),
            forall|i: int| from <= i < start ==> unicode_whitespace(#[trigger] chars@[i]),
        decreases chars@.len() - start,
    {
        start = start + 1;
    }
    let ghost rest = chars@.skip(start as int);
    proof {
        crate::text::lemma_trim_start_is_skip(tail, start - from);
        assert(tail.skip(start - from) =~= rest);
        lemma_trim_start_shape(tail);
        lemma_word_len(rest);
    }
    if start == chars.len() {
        return None;
    }
    let mut end: usize = start;
    assert(rest.skip(0) =~= rest);
    while end < chars.len() && !is_whitespace(chars[end])
        invariant
            start <= end <= chars@.len(),
            rest == chars@.skip(start as int),
            word_len(rest) == (end - start) + word_len(rest.skip(end - start)),
        decreases chars@.len() - end,
    {
        proof {
            let left = rest.skip(end - start);
            assert(left[0] == chars@[end as int]);
            assert(left.drop_first() =~= rest.skip(end + 1 - start));
        }
        end = end + 1;
    }
    proof {
        let left = rest.skip(end - start);
        if end < chars@.len() {
            assert(left[0] == chars@[end as int]);
        }
        assert(word_len(rest) == end - start);
        assert(rest[0] == chars@[start as int]);
        assert(rest.take(end - start) =~= chars@.subrange(start as int, end as int));
        assert(rest.skip(end - start) =~= chars@.skip(end as int));
    }
    Some((start, end))
}

} // verus!
