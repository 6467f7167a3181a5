//! Character-level string operations with exact specifications.
//!
//! Strings are modelled as sequences of `char`. The few questions that only
//! the Unicode tables of the standard library can answer are asked through
//! the trusted functions at the top of this module; everything else is proved.

use vstd::prelude::*;
use vstd::string::{StringExecFns, StringSliceAdditionalSpecFns};

verus! {

/// What `char::is_whitespace` answers for `c`: whether `c` has the Unicode
/// `White_Space` property.
pub uninterp spec fn unicode_whitespace(c: char) -> bool;

/// What `char::is_alphanumeric` answers for `c`: whether `c` is a Unicode
/// letter or number.
pub uninterp spec fn unicode_alphanumeric(c: char) -> bool;

/// What `str::to_lowercase` returns for `s`: the lowercase mapping of `s`
/// under the Unicode `Lowercase` derived property.
pub uninterp spec fn unicode_lowercase(s: Seq<char>) -> Seq<char>;

/// Calls `char::is_whitespace`. Trusted: the answer is the one the Unicode
/// tables of the standard library give, named [`unicode_whitespace`].
#[verifier::external_body]
pub(crate) fn is_whitespace(c: char) -> (b: bool)
    ensures
        b == unicode_whitespace(c),
{
    c.is_whitespace()
}

/// Calls `char::is_alphanumeric`. Trusted: the answer is the one the Unicode
/// tables of the standard library give, named [`unicode_alphanumeric`].
#[verifier::external_body]
pub(crate) fn is_alphanumeric(c: char) -> (b: bool)
    ensures
        b == unicode_alphanumeric(c),
{
    c.is_alphanumeric()
}

/// Calls `str::to_lowercase`. Trusted: the result is the lowercase mapping
/// of the standard library, named [`unicode_lowercase`].
#[verifier::external_body]
pub(crate) fn to_lowercase(s: &str) -> (lower: String)
    ensures
        lower@ == unicode_lowercase(s@),
{
    s.to_lowercase()
}

/// Calls `String::push`. Trusted: the character is appended and nothing
/// else changes.
#[verifier::external_body]
pub(crate) fn push_char(s: &mut String, c: char)
    ensures
        final(s)@ == old(s)@.push(c),
{
    s.push(c)
}

/// The characters of `s`, in order.
pub fn to_chars(s: &str) -> (chars: Vec<char>)
    ensures
        chars@ == s@,
{
    broadcast use vstd::string::group_string_axioms;

    let mut chars: Vec<char> = Vec::new();
    for c in it: s.chars()
        invariant
            it.seq() == s@,
            chars@ =~= s@.take(it.index()),
    {
        chars.push(c);
    }
    assert(chars@ =~= s@);
    chars
}

/// The string made of `chars[from..to]`.
pub fn from_chars(chars: &Vec<char>, from: usize, to: usize) -> (s: String)
    requires
        from <= to <= chars@.len(),
    ensures
        s@ == chars@.subrange(from as int, to as int),
{
    let mut s = String::new();
    let mut i: usize = from;
    while i < to
        invariant
            from <= i <= to <= chars@.len(),
            s@ =~= chars@.subrange(from as int, i as int),
        decreases to - i,
    {
        push_char(&mut s, chars[i]);
        i = i + 1;
    }
    s
}

/// `s` without its leading whitespace.
pub open spec fn trim_start(s: Seq<char>) -> Seq<char>
    decreases s.len(),
{
    if s.len() > 0 && unicode_whitespace(s[0]) {
        trim_start(s.drop_first())
    } else {
        s
    }
}

/// `s` without its trailing whitespace.
pub open spec fn trim_end(s: Seq<char>) -> Seq<char>
    decreases s.len(),
{
    if s.len() > 0 && unicode_whitespace(s.last()) {
        trim_end(s.drop_last())
    } else {
        s
    }
}

/// `s` without its leading and trailing whitespace.
pub open spec fn trimmed(s: Seq<char>) -> Seq<char> {
    trim_end(trim_start(s))
}

/// Trimming at the front drops exactly the leading run of whitespace.
pub proof fn lemma_trim_start_is_skip(s: Seq<char>, a: int)
    requires
        0 <= a <= s.len(),
        forall|i: int| 0 <= i < a ==> unicode_whitespace(#[trigger] s[i]),
        a == s.len() || !unicode_whitespace(s[a]),
    ensures
        trim_start(s) == s.skip(a),
    decreases a,
{
    if a == 0 {
        assert(s.skip(0) =~= s);
    } else {
        assert(unicode_whitespace(s[0]));
        let rest = s.drop_first();
        assert forall|i: int| 0 <= i < a - 1 implies unicode_whitespace(#[trigger] rest[i]) by {
            assert(rest[i] == s[i + 1]);
        }
        lemma_trim_start_is_skip(rest, a - 1);
        assert(rest.skip(a - 1) =~= s.skip(a));
    }
}

/// Trimming at the back drops exactly the trailing run of whitespace.
pub proof fn lemma_trim_end_is_take(s: Seq<char>, b: int)
    requires
        0 <= b <= s.len(),
        forall|i: int| b <= i < s.len() ==> unicode_whitespace(#[trigger] s[i]),
        b == 0 || !unicode_whitespace(s[b - 1]),
    ensures
        trim_end(s) == s.take(b),
    decreases s.len() - b,
{
    if b == s.len() {
        assert(s.take(b) =~= s);
    } else {
        assert(unicode_whitespace(s[s.len() - 1]));
        let rest = s.drop_last();
        lemma_trim_end_is_take(rest, b);
        assert(rest.take(b) =~= s.take(b));
    }
}

/// What front trimming leaves is a suffix that does not start with
/// whitespace.
pub proof fn lemma_trim_start_shape(s: Seq<char>)
    ensures
        trim_start(s).len() <= s.len(),
        trim_start(s) == s.skip(s.len() - trim_start(s).len()),
        trim_start(s).len() > 0 ==> !unicode_whitespace(trim_start(s)[0]),
    decreases s.len(),
{
    if s.len() > 0 && unicode_whitespace(s[0]) {
        let rest = s.drop_first();
        lemma_trim_start_shape(rest);
        let kept = trim_start(rest).len();
        assert(rest.skip(rest.len() - kept) =~= s.skip(s.len() - kept));
    } else {
        assert(s.skip(0) =~= s);
    }
}

/// What back trimming leaves is a prefix that does not end with whitespace.
pub proof fn lemma_trim_end_shape(s: Seq<char>)
    ensures
        trim_end(s).len() <= s.len(),
        trim_end(s) == s.take(trim_end(s).len() as int),
        trim_end(s).len() > 0 ==> !unicode_whitespace(trim_end(s).last()),
    decreases s.len(),
{
    if s.len() > 0 && unicode_whitespace(s.last()) {
        let rest = s.drop_last();
        lemma_trim_end_shape(rest);
        let kept = trim_end(rest).len();
        assert(rest.take(kept as int) =~= s.take(kept as int));
    } else {
        assert(s.take(s.len() as int) =~= s);
    }
}

/// Trimming a trimmed text changes nothing.
pub proof fn lemma_trimmed_idempotent(s: Seq<char>)
    ensures
        trimmed(trimmed(s)) == trimmed(s),
{
    let front = trim_start(s);
    let t = trim_end(front);
    lemma_trim_start_shape(s);
    lemma_trim_end_shape(front);
    if t.len() > 0 {
        assert(t[0] == front[0]);
        assert(trim_start(t) == t);
        assert(trim_end(t) == t);
    } else {
        assert(trim_start(t) == t);
        assert(trim_end(t) == t);
    }
}

/// The bounds of `chars[from..to]` without its leading and trailing
/// whitespace.
pub fn trim_range(chars: &Vec<char>, from: usize, to: usize) -> (bounds: (usize, usize))
    requires
        from <= to <= chars@.len(),
    ensures
        from <= bounds.0 <= bounds.1 <= to,
        chars@.subrange(bounds.0 as int, bounds.1 as int) == trimmed(
            chars@.subrange(from as int, to as int),
        ),
{
    let mut a: usize = from;
    while a < to && is_whitespace(chars[a])
        invariant
            from <= a <= to <= chars@.len(),
            forall|i: int| from <= i < a ==> unicode_whitespace(#[trigger] chars@[i]),
        decreases to - a,
    {
        a = a + 1;
    }
    let mut b: usize = to;
    while b > a && is_whitespace(chars[b - 1])
        invariant
            a <= b <= to <= chars@.len(),
            forall|i: int| b <= i < to ==> unicode_whitespace(#[trigger] chars@[i]),
        decreases b,
    {
        b = b - 1;
    }
    proof {
        let whole = chars@.subrange(from as int, to as int);
        lemma_trim_start_is_skip(whole, a - from);
        let tail = whole.skip(a - from);
        assert(tail =~= chars@.subrange(a as int, to as int));
        lemma_trim_end_is_take(tail, b - a);
        assert(tail.take(b - a) =~= chars@.subrange(a as int, b as int));
    }
    (a, b)
}

/// `s` without its leading and trailing whitespace, as `str::trim` gives it.
pub fn trim(s: &str) -> (t: String)
    ensures
        t@ == trimmed(s@),
{
    let chars = to_chars(s);
    let (a, b) = trim_range(&chars, 0, chars.len());
    assert(chars@.subrange(0, chars@.len() as int) =~= chars@);
    from_chars(&chars, a, b)
}

/// Whether two texts hold the same characters.
pub fn same_text(a: &str, b: &str) -> (same: bool)
    ensures
        same == (a@ == b@),
{
    String::from_str(a) == String::from_str(b)
}

/// The decimal digit for `d`, where `d < 10`.
pub open spec fn decimal_digit(d: nat) -> char {
    ('0' as nat + d) as char
}

/// `n` written in base ten, without leading zeros.
pub open spec fn decimal(n: nat) -> Seq<char>
    decreases n,
{
    if n < 10 {
        seq![decimal_digit(n)]
    } else {
        decimal(n / 10).push(decimal_digit(n % 10))
    }
}

/// Appends `n` in base ten to `out`.
pub fn push_decimal(out: &mut String, n: u64)
    ensures
        final(out)@ == old(out)@ + decimal(n as nat),
    decreases n,
{
    if n >= 10 {
        push_decimal(out, n / 10);
    }
    let d: u8 = (n % 10) as u8;
    let c = (48u8 + d) as char;
    assert(c == decimal_digit((n % 10) as nat));
    push_char(out, c);
    assert(final(out)@ =~= old(out)@ + decimal(n as nat));
}

/// `n` written in base ten.
pub fn decimal_string(n: u64) -> (s: String)
    ensures
        s@ == decimal(n as nat),
{
    let mut s = String::new();
    push_decimal(&mut s, n);
    assert(Seq::<char>::empty() + decimal(n as nat) =~= decimal(n as nat));
    s
}

/// Whether `needle` stands in `haystack` at position `at`.
pub open spec fn occurs_at(haystack: Seq<char>, needle: Seq<char>, at: int) -> bool {
    &&& 0 <= at
    &&& at + needle.len() <= haystack.len()
    &&& haystack.subrange(at, at + needle.len()) == needle
}

/// Whether `needle` occurs somewhere in `haystack`.
pub open spec fn contains_text(haystack: Seq<char>, needle: Seq<char>) -> bool {
    exists|at: int| occurs_at(haystack, needle, at)
}

/// Whether `needle` stands in `haystack` at position `at`.
pub fn matches_at(haystack: &Vec<char>, needle: &Vec<char>, at: usize) -> (found: bool)
    requires
        at + needle@.len() <= haystack@.len(),
    ensures
        found == occurs_at(haystack@, needle@, at as int),
{
    let mut k: usize = 0;
    while k < needle.len()
        invariant
            k <= needle@.len(),
            at + needle@.len() <= haystack.len(),
            forall|j: int| 0 <= j < k ==> haystack@[at + j] == needle@[j],
        decreases needle@.len() - k,
    {
        if haystack[at + k] != needle[k] {
            proof {
                let part = haystack@.subrange(at as int, at + needle@.len());
                assert(part[k as int] != needle@[k as int]);
            }
            return false;
        }
        k = k + 1;
    }
    assert(haystack@.subrange(at as int, at + needle@.len()) =~= needle@);
    true
}

/// Whether `needle` occurs somewhere in `haystack`, as `str::contains` tells
/// for a string pattern.
pub fn contains(haystack: &str, needle: &str) -> (found: bool)
    ensures
        found == contains_text(haystack@, needle@),
{
    let hay = to_chars(haystack);
    let pin = to_chars(needle);
    if pin.len() > hay.len() {
        return false;
    }
    let last: usize = hay.len() - pin.len();
    let mut at: usize = 0;
    while at < last
        invariant
            at <= last,
            last == hay@.len() - pin@.len(),
            hay@ == haystack@,
            pin@ == needle@,
            forall|j: int| 0 <= j < at ==> !occurs_at(hay@, pin@, j),
        decreases last - at,
    {
        if matches_at(&hay, &pin, at) {
            return true;
        }
        at = at + 1;
    }
    matches_at(&hay, &pin, last)
}

/// The number of bytes that `c` takes in UTF-8.
pub open spec fn utf8_width(c: char) -> nat {
    if (c as u32) < 0x80 {
        1
    } else if (c as u32) < 0x800 {
        2
    } else if (c as u32) < 0x10000 {
        3
    } else {
        4
    }
}

/// The number of bytes that `c` takes in UTF-8.
pub fn char_width(c: char) -> (width: usize)
    ensures
        width == utf8_width(c),
        1 <= width <= 4,
{
    let code = c as u32;
    if code < 0x80 {
        1
    } else if code < 0x800 {
        2
    } else if code < 0x10000 {
        3
    } else {
        4
    }
}

/// The number of bytes that `s` takes in UTF-8.
pub open spec fn utf8_len(s: Seq<char>) -> nat
    decreases s.len(),
{
    if s.len() == 0 {
        0
    } else {
        utf8_len(s.drop_last()) + utf8_width(s.last())
    }
}

/// The width of a character is the length of its UTF-8 encoding.
pub proof fn lemma_utf8_width_is_encoded_len(c: char)
    ensures
        utf8_width(c) == vstd::utf8::encode_scalar(c as u32).len(),
{
    vstd::utf8::char_is_scalar(c);
}

/// The byte length of a text is the sum of the byte lengths of its parts.
pub proof fn lemma_utf8_len_concat(a: Seq<char>, b: Seq<char>)
    ensures
        utf8_len(a + b) == utf8_len(a) + utf8_len(b),
    decreases b.len(),
{
    if b.len() == 0 {
        assert(a + b =~= a);
    } else {
        lemma_utf8_len_concat(a, b.drop_last());
        assert((a + b).drop_last() =~= a + b.drop_last());
        assert((a + b).last() == b.last());
    }
}

/// The byte length of a text is the length of its UTF-8 encoding.
pub proof fn lemma_utf8_len_is_encoded_len(s: Seq<char>)
    ensures
        utf8_len(s) == vstd::utf8::encode_utf8(s).len(),
    decreases s.len(),
{
    if s.len() > 0 {
        let first = seq![s[0]];
        let rest = s.drop_first();
        lemma_utf8_len_is_encoded_len(rest);
        lemma_utf8_width_is_encoded_len(s[0]);
        lemma_utf8_len_concat(first, rest);
        assert(first + rest =~= s);
        assert(first.drop_last() =~= Seq::<char>::empty());
        assert(utf8_len(first.drop_last()) == 0);
    }
}

/// The number of bytes that `s` takes, as `str::len` gives it.
pub fn byte_len(s: &str) -> (len: usize)
    ensures
        len == utf8_len(s@),
{
    proof {
        lemma_utf8_len_is_encoded_len(s@);
    }
    s.as_bytes().len()
}

/// The number of leading characters of `s` that fit into `budget` bytes.
pub open spec fn fit_count(s: Seq<char>, budget: nat) -> nat
    decreases s.len(),
{
    if s.len() == 0 || utf8_width(s[0]) > budget {
        0
    } else {
        1 + fit_count(s.drop_first(), (budget - utf8_width(s[0])) as nat)
    }
}

/// The longest prefix of `s` that takes at most `budget` bytes in UTF-8.
pub open spec fn prefix_within(s: Seq<char>, budget: nat) -> Seq<char> {
    s.take(fit_count(s, budget) as int)
}

/// The prefix within a budget fits the budget, and no longer prefix does.
pub proof fn lemma_fit_count(s: Seq<char>, budget: nat)
    ensures
        fit_count(s, budget) <= s.len(),
        utf8_len(prefix_within(s, budget)) <= budget,
        fit_count(s, budget) < s.len() ==> utf8_len(s.take(fit_count(s, budget) as int + 1))
            > budget,
    decreases s.len(),
{
    if s.len() == 0 || utf8_width(s[0]) > budget {
        assert(utf8_len(s.take(0)) == 0);
        if s.len() > 0 {
            assert(s.take(1) =~= seq![s[0]]);
            assert(s.take(1).drop_last() =~= Seq::<char>::empty());
            assert(utf8_len(s.take(1).drop_last()) == 0);
        }
    } else {
        let rest = s.drop_first();
        let left = (budget - utf8_width(s[0])) as nat;
        let n = fit_count(rest, left) as int;
        lemma_fit_count(rest, left);
        assert(s.take(n + 1) =~= seq![s[0]] + rest.take(n));
        lemma_utf8_len_concat(seq![s[0]], rest.take(n));
        assert(seq![s[0]].drop_last() =~= Seq::<char>::empty());
        assert(utf8_len(seq![s[0]].drop_last()) == 0);
        assert(utf8_len(seq![s[0]]) == utf8_width(s[0]));
        if n < rest.len() {
            assert(s.take(n + 2) =~= seq![s[0]] + rest.take(n + 1));
            lemma_utf8_len_concat(seq![s[0]], rest.take(n + 1));
        }
    }
}

/// The number of leading characters of `chars` that fit into `budget`
/// bytes.
pub fn count_within(chars: &Vec<char>, budget: usize) -> (count: usize)
    ensures
        count == fit_count(chars@, budget as nat),
        count <= chars@.len(),
{
    let mut count: usize = 0;
    let mut left: usize = budget;
    assert(chars@.skip(0) =~= chars@);
    while count < chars.len() && char_width(chars[count]) <= left
        invariant
            count <= chars@.len(),
            fit_count(chars@, budget as nat) == count + fit_count(
                chars@.skip(count as int),
                left as nat,
            ),
        decreases chars@.len() - count,
    {
        proof {
            let rest = chars@.skip(count as int);
            assert(rest[0] == chars@[count as int]);
            assert(rest.drop_first() =~= chars@.skip(count + 1));
        }
        left = left - char_width(chars[count]);
        count = count + 1;
    }
    proof {
        let rest = chars@.skip(count as int);
        if count < chars@.len() {
            assert(rest[0] == chars@[count as int]);
        }
    }
    count
}

/// `text` with every occurrence of `pattern` replaced by `with`, the
/// occurrences taken from the left and not overlapping. An empty pattern
/// occurs nowhere.
pub open spec fn replaced(text: Seq<char>, pattern: Seq<char>, with: Seq<char>) -> Seq<char>
    decreases text.len(),
{
    if pattern.len() == 0 || text.len() < pattern.len() {
        text
    } else if occurs_at(text, pattern, 0) {
        with + replaced(text.skip(pattern.len() as int), pattern, with)
    } else {
        seq![text[0]] + replaced(text.skip(1), pattern, with)
    }
}

/// Replaces every occurrence of `pattern` in `text` by `with`, as
/// `str::replace` does for a pattern that is not empty.
pub fn replace_all(text: &str, pattern: &str, with: &str) -> (out: String)
    ensures
        out@ == replaced(text@, pattern@, with@),
{
    let source = to_chars(text);
    let pin = to_chars(pattern);
    let filler = to_chars(with);
    let mut out: Vec<char> = Vec::new();
    let mut at: usize = 0;
    if pin.len() > 0 {
        assert(source@.skip(0) =~= source@);
        while source.len() - at >= pin.len()
            invariant
                at <= source@.len(),
                pin@.len() > 0,
                out@ + replaced(source@.skip(at as int), pin@, filler@) == replaced(
                    source@,
                    pin@,
                    filler@,
                ),
            decreases source@.len() - at,
        {
            let ghost rest = source@.skip(at as int);
            if matches_at(&source, &pin, at) {
                proof {
                    assert(rest.subrange(0, pin@.len() as int) =~= source@.subrange(
                        at as int,
                        at + pin@.len(),
                    ));
                    assert(rest.skip(pin@.len() as int) =~= source@.skip(at + pin@.len()));
                    assert(out@ + filler@ + replaced(
                        source@.skip(at + pin@.len()),
                        pin@,
                        filler@,
                    ) =~= out@ + (filler@ + replaced(rest.skip(pin@.len() as int), pin@, filler@)));
                }
                let mut k: usize = 0;
                let ghost before = out@;
                while k < filler.len()
                    invariant
                        k <= filler@.len(),
                        out@ == before + filler@.take(k as int),
                    decreases filler@.len() - k,
                {
                    out.push(filler[k]);
                    assert(before + filler@.take(k as int + 1) =~= (before + filler@.take(
                        k as int,
                    )).push(filler@[k as int]));
                    k = k + 1;
                }
                assert(filler@.take(filler@.len() as int) =~= filler@);
                at = at + pin.len();
            } else {
                proof {
                    assert(rest.subrange(0, pin@.len() as int) =~= source@.subrange(
                        at as int,
                        at + pin@.len(),
                    ));
                    assert(rest.skip(1) =~= source@.skip(at + 1));
                    assert(out@.push(source@[at as int]) + replaced(
                        source@.skip(at + 1),
                        pin@,
                        filler@,
                    ) =~= out@ + (seq![rest[0]] + replaced(rest.skip(1), pin@, filler@)));
                }
                out.push(source[at]);
                at = at + 1;
            }
        }
    }
    let ghost before = out@;
    let ghost rest = source@.skip(at as int);
    let mut k: usize = at;
    while k < source.len()
        invariant
            at <= k <= source@.len(),
            out@ == before + source@.subrange(at as int, k as int),
        decreases source@.len() - k,
    {
        out.push(source[k]);
        assert(before + source@.subrange(at as int, k + 1) =~= (before + source@.subrange(
            at as int,
            k as int,
        )).push(source@[k as int]));
        k = k + 1;
    }
    proof {
        assert(source@.subrange(at as int, source@.len() as int) =~= rest);
        assert(replaced(rest, pin@, filler@) == rest);
        if pin@.len() == 0 {
            assert(rest =~= source@);
            assert(before + rest =~= source@);
        }
    }
    let result = from_chars(&out, 0, out.len());
    assert(out@.subrange(0, out@.len() as int) =~= out@);
    result
}

} // verus!
