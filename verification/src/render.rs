//! Laying out text for the console.

use crate::split::{next_word, words};
use crate::text::{byte_len, from_chars, push_char, to_chars, utf8_len};
use vstd::prelude::*;
use vstd::string::StringExecFns;

verus! {

/// The wrapped text so far and the number of bytes in its last line.
pub struct Wrapping {
    pub text: Seq<char>,
    pub line_bytes: nat,
}

impl Wrapping {
    /// Nothing laid out yet.
    pub open spec fn empty() -> Wrapping {
        Wrapping { text: Seq::empty(), line_bytes: 0 }
    }

    /// A new line is begun where `word` and a space in front of it would
    /// take the line beyond `width` bytes, unless the line is empty.
    pub open spec fn broken_for(self, word: Seq<char>, width: nat) -> Wrapping {
        if self.line_bytes + utf8_len(word) + 1 > width && self.line_bytes > 0 {
            Wrapping { text: self.text.push('\n'), line_bytes: 0 }
        } else {
            self
        }
    }

    /// A space is added unless the line is empty.
    pub open spec fn spaced(self) -> Wrapping {
        if self.line_bytes > 0 {
            Wrapping { text: self.text.push(' '), line_bytes: self.line_bytes + 1 }
        } else {
            self
        }
    }

    /// `word` is laid out: on the current line where it fits, else on a new
    /// one.
    pub open spec fn with_word(self, word: Seq<char>, width: nat) -> Wrapping {
        let ready = self.broken_for(word, width).spaced();
        Wrapping { text: ready.text + word, line_bytes: ready.line_bytes + utf8_len(word) }
    }

    /// The words `all` are laid out in order.
    pub open spec fn with_words(self, all: Seq<Seq<char>>, width: nat) -> Wrapping
        decreases all.len(),
    {
        if all.len() == 0 {
            self
        } else {
            self.with_words(all.drop_last(), width).with_word(all.last(), width)
        }
    }
}

/// The words of `text`, each two divided by one space or, where the next
/// word would take a line beyond `width` bytes, by a line break.
pub open spec fn wrapped(text: Seq<char>, width: nat) -> Seq<char> {
    Wrapping::empty().with_words(words(text), width).text
}

/// Wraps `text` to lines of at most `width` bytes, where its words allow.
pub fn textwrap(text: &str, width: usize) -> (out: String)
    ensures
        out@ == wrapped(text@, width as nat),
{
    let chars = to_chars(text);
    let mut out = String::new();
    let mut line_bytes: usize = 0;
    let ghost mut done: Seq<Seq<char>> = Seq::empty();
    let mut at: usize = 0;
    proof {
        assert(chars@.skip(0) =~= chars@);
        assert(done + words(chars@) =~= words(chars@));
    }
    loop
        invariant_except_break
            at <= chars@.len(),
            done + words(chars@.skip(at as int)) == words(chars@),
        invariant
            chars@ == text@,
            (Wrapping { text: out@, line_bytes: line_bytes as nat })
                == Wrapping::empty().with_words(done, width as nat),
        ensures
            done == words(chars@),
        decreases chars@.len() - at,
    {
        match next_word(&chars, at) {
            None => {
                proof {
                    assert(words(chars@.skip(at as int)) =~= Seq::<Seq<char>>::empty());
                    assert(done + Seq::<Seq<char>>::empty() =~= done);
                }
                break ;
            },
            Some((start, end)) => {
                let ghost word = chars@.subrange(start as int, end as int);
                proof {
                    assert(done.push(word) + words(chars@.skip(end as int)) =~= done + (seq![
                        word,
                    ] + words(chars@.skip(end as int))));
                    assert(done.push(word).drop_last() =~= done);
                }
                let piece = from_chars(&chars, start, end);
                let word_bytes = byte_len(piece.as_str());
                if line_bytes > 0 && (word_bytes >= width || line_bytes >= width - word_bytes) {
                    push_char(&mut out, '\n');
                    line_bytes = 0;
                }
                if line_bytes > 0 {
                    push_char(&mut out, ' ');
                    line_bytes = line_bytes + 1;
                }
                out.append(piece.as_str());
                line_bytes = line_bytes + word_bytes;
                proof {
                    done = done.push(word);
                }
                at = end;
            },
        }
    }
    out
}

} // verus!
