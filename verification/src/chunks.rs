//! Cutting a text into chunks that a speech engine can take.
//!
//! Sentences are packed into chunks of at most a given number of bytes. A
//! sentence that is too long by itself is packed part by part, the parts
//! ending at its commas; a part that is still too long makes a chunk of its
//! own.

use crate::model::text_views;
use crate::split::{piece_end, split_inclusive, Separator};
use crate::text::{byte_len, from_chars, push_char, to_chars, trim, trim_range, trimmed, utf8_len};
use vstd::prelude::*;
use vstd::string::StringExecFns;

verus! {

/// Longest chunk, in bytes, that the speech engine is given.
pub const SPEECH_CHUNK_BYTES: usize = 200;

/// The chunks that are complete and the one that is being filled.
pub struct Packing {
    pub chunks: Seq<Seq<char>>,
    pub current: Seq<char>,
}

impl Packing {
    /// Nothing packed yet.
    pub open spec fn empty() -> Packing {
        Packing { chunks: Seq::empty(), current: Seq::empty() }
    }

    /// Whether `piece` does not fit into the current chunk.
    pub open spec fn overflows(self, piece: Seq<char>, max_bytes: nat) -> bool {
        utf8_len(self.current) + utf8_len(piece) > max_bytes
    }

    /// The current chunk is closed unless it is empty.
    pub open spec fn flushed(self) -> Packing {
        if self.current.len() > 0 {
            Packing { chunks: self.chunks.push(trimmed(self.current)), current: Seq::empty() }
        } else {
            self
        }
    }

    /// `piece` and a space are added to the current chunk.
    pub open spec fn appended(self, piece: Seq<char>) -> Packing {
        Packing { current: self.current + piece + seq![' '], ..self }
    }

    /// The part `part` of a long sentence is packed: into the current chunk
    /// where it fits, else into a new one.
    pub open spec fn with_part(self, part: Seq<char>, max_bytes: nat) -> Packing {
        if self.overflows(part, max_bytes) {
            self.flushed().appended(part)
        } else {
            self.appended(part)
        }
    }

    /// The parts `parts` are packed in order.
    pub open spec fn with_parts(self, parts: Seq<Seq<char>>, max_bytes: nat) -> Packing
        decreases parts.len(),
    {
        if parts.len() == 0 {
            self
        } else {
            self.with_parts(parts.drop_last(), max_bytes).with_part(parts.last(), max_bytes)
        }
    }

    /// The piece `raw` of the text is packed: nothing where it is blank,
    /// its trimmed text where that fits into a chunk, else its parts.
    pub open spec fn with_sentence(self, raw: Seq<char>, max_bytes: nat) -> Packing {
        let sentence = trimmed(raw);
        if sentence.len() == 0 {
            self
        } else if self.overflows(sentence, max_bytes) {
            if utf8_len(sentence) > max_bytes {
                self.flushed().with_parts(split_inclusive(sentence, Separator::Comma), max_bytes)
            } else {
                self.flushed().appended(sentence)
            }
        } else {
            self.appended(sentence)
        }
    }

    /// The pieces `raws` of the text are packed in order.
    pub open spec fn with_sentences(self, raws: Seq<Seq<char>>, max_bytes: nat) -> Packing
        decreases raws.len(),
    {
        if raws.len() == 0 {
            self
        } else {
            self.with_sentences(raws.drop_last(), max_bytes).with_sentence(raws.last(), max_bytes)
        }
    }

    /// All chunks, the current one closed unless it is blank.
    pub open spec fn finished(self) -> Seq<Seq<char>> {
        if trimmed(self.current).len() > 0 {
            self.chunks.push(trimmed(self.current))
        } else {
            self.chunks
        }
    }
}

/// The chunks of `text` for a limit of `max_bytes` bytes.
pub open spec fn chunks_of(text: Seq<char>, max_bytes: nat) -> Seq<Seq<char>> {
    Packing::empty().with_sentences(
        split_inclusive(text, Separator::SentenceEnd),
        max_bytes,
    ).finished()
}

/// Whether a chunk of `current` bytes cannot take `piece` bytes more.
fn exceeds(current: usize, piece: usize, max_bytes: usize) -> (over: bool)
    ensures
        over == (current + piece > max_bytes),
{
    piece > max_bytes || current > max_bytes - piece
}

/// Closes the current chunk unless it is empty.
fn flush(chunks: &mut Vec<String>, current: &mut String)
    ensures
        (Packing { chunks: text_views(final(chunks)@), current: final(current)@ }) == (Packing {
            chunks: text_views(old(chunks)@),
            current: old(current)@,
        }).flushed(),
{
    if current.as_str().unicode_len() > 0 {
        let chunk = trim(current.as_str());
        assert(text_views(chunks@.push(chunk)) =~= text_views(chunks@).push(chunk@));
        chunks.push(chunk);
        *current = String::new();
    }
}

/// Adds `piece` and a space to the current chunk.
fn append_piece(current: &mut String, piece: &str)
    ensures
        final(current)@ == old(current)@ + piece@ + seq![' '],
{
    current.append(piece);
    push_char(current, ' ');
}

/// Splits `text` into chunks that are safe for speech synthesis.
pub fn split_into_chunks(text: &str, max_chars: usize) -> (chunks: Vec<String>)
    ensures
        text_views(chunks@) == chunks_of(text@, max_chars as nat),
{
    let chars = to_chars(text);
    let total = chars.len();
    let ghost max_bytes = max_chars as nat;
    let mut chunks: Vec<String> = Vec::new();
    let mut current = String::new();
    let ghost mut done: Seq<Seq<char>> = Seq::empty();
    let mut at: usize = 0;
    proof {
        assert(chars@.skip(0) =~= chars@);
        assert(text_views(chunks@) =~= Seq::<Seq<char>>::empty());
        assert(done + split_inclusive(chars@, Separator::SentenceEnd) =~= split_inclusive(
            chars@,
            Separator::SentenceEnd,
        ));
    }
    while at < total
        invariant
            at <= total == chars@.len(),
            chars@ == text@,
            max_bytes == max_chars as nat,
            done + split_inclusive(chars@.skip(at as int), Separator::SentenceEnd)
                == split_inclusive(chars@, Separator::SentenceEnd),
            (Packing { chunks: text_views(chunks@), current: current@ })
                == Packing::empty().with_sentences(done, max_bytes),
        decreases total - at,
    {
        let ghost before = Packing { chunks: text_views(chunks@), current: current@ };
        let ghost tail = chars@.skip(at as int);
        let end = piece_end(&chars, at, total, Separator::SentenceEnd);
        let ghost raw = chars@.subrange(at as int, end as int);
        proof {
            assert(chars@.subrange(at as int, total as int) =~= tail);
            crate::split::lemma_piece_len(tail, Separator::SentenceEnd);
            assert(tail.take(end - at) =~= raw);
            assert(tail.skip(end - at) =~= chars@.skip(end as int));
            assert(done.push(raw) + split_inclusive(chars@.skip(end as int), Separator::SentenceEnd)
                =~= done + (seq![raw] + split_inclusive(
                chars@.skip(end as int),
                Separator::SentenceEnd,
            )));
            assert(done.push(raw).drop_last() =~= done);
        }
        let (from, to) = trim_range(&chars, at, end);
        let ghost sentence = chars@.subrange(from as int, to as int);
        if from < to {
            let piece = from_chars(&chars, from, to);
            let piece_bytes = byte_len(piece.as_str());
            let current_bytes = byte_len(current.as_str());
            if exceeds(current_bytes, piece_bytes, max_chars) {
                flush(&mut chunks, &mut current);
                if piece_bytes > max_chars {
                    let ghost start = Packing { chunks: text_views(chunks@), current: current@ };
                    let ghost mut parts: Seq<Seq<char>> = Seq::empty();
                    let mut p: usize = from;
                    proof {
                        assert(sentence.skip(0) =~= sentence);
                        assert(parts + split_inclusive(sentence, Separator::Comma)
                            =~= split_inclusive(sentence, Separator::Comma));
                    }
                    while p < to
                        invariant
                            from <= p <= to <= chars@.len(),
                            sentence == chars@.subrange(from as int, to as int),
                            max_bytes == max_chars as nat,
                            parts + split_inclusive(sentence.skip(p - from), Separator::Comma)
                                == split_inclusive(sentence, Separator::Comma),
                            (Packing { chunks: text_views(chunks@), current: current@ })
                                == start.with_parts(parts, max_bytes),
                        decreases to - p,
                    {
                        let ghost rest = sentence.skip(p - from);
                        let q = piece_end(&chars, p, to, Separator::Comma);
                        let ghost part = chars@.subrange(p as int, q as int);
                        proof {
                            assert(chars@.subrange(p as int, to as int) =~= rest);
                            crate::split::lemma_piece_len(rest, Separator::Comma);
                            assert(rest.take(q - p) =~= part);
                            assert(rest.skip(q - p) =~= sentence.skip(q - from));
                            assert(parts.push(part) + split_inclusive(
                                sentence.skip(q - from),
                                Separator::Comma,
                            ) =~= parts + (seq![part] + split_inclusive(
                                sentence.skip(q - from),
                                Separator::Comma,
                            )));
                            assert(parts.push(part).drop_last() =~= parts);
                        }
                        let text_part = from_chars(&chars, p, q);
                        let part_bytes = byte_len(text_part.as_str());
                        let filled = byte_len(current.as_str());
                        if exceeds(filled, part_bytes, max_chars) {
                            flush(&mut chunks, &mut current);
                        }
                        append_piece(&mut current, text_part.as_str());
                        proof {
                            parts = parts.push(part);
                        }
                        p = q;
                    }
                    assert(sentence.skip(to - from).len() == 0);
                    assert(parts == split_inclusive(sentence, Separator::Comma)) by {
                        assert(parts + Seq::<Seq<char>>::empty() =~= parts);
                    }
                } else {
                    append_piece(&mut current, piece.as_str());
                }
            } else {
                append_piece(&mut current, piece.as_str());
            }
        }
        proof {
            done = done.push(raw);
        }
        at = end;
    }
    proof {
        assert(chars@.skip(total as int).len() == 0);
        assert(done + Seq::<Seq<char>>::empty() =~= done);
    }
    let last = trim(current.as_str());
    if last.as_str().unicode_len() > 0 {
        assert(text_views(chunks@.push(last)) =~= text_views(chunks@).push(last@));
        chunks.push(last);
    }
    chunks
}

} // verus!
