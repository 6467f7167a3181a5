//! Cleaning of model responses before a turn is accepted.
//!
//! A response may carry reasoning markup (`<thinking>…</thinking>` and the
//! like), stray tags, emphasis asterisks and irregular whitespace. The
//! stages below remove them in a fixed order. Pattern matching is done by
//! the `regex` crate; the rest is proved here.

use crate::text::{from_chars, lemma_trimmed_idempotent, to_chars, trim, trimmed};
use vstd::prelude::*;
use vstd::string::StringExecFns;

verus! {

/// Whether `Regex::new` accepts `pattern`.
pub uninterp spec fn regex_compiles(pattern: Seq<char>) -> bool;

/// What `Regex::replace_all` returns for the regex compiled from `pattern`,
/// applied to `haystack` with the replacement string `replacement`.
pub uninterp spec fn regex_replace_all(
    pattern: Seq<char>,
    haystack: Seq<char>,
    replacement: Seq<char>,
) -> Seq<char>;

/// Compiles `pattern` with `regex::Regex::new` and, where that succeeds,
/// applies `Regex::replace_all` to `haystack`.
///
/// Trusted: the result is `None` exactly when the pattern is refused, and
/// otherwise the string that `replace_all` returns. Both are functions of the
/// arguments alone and are named by [`regex_compiles`] and
/// [`regex_replace_all`]; nothing more is claimed of them.
#[verifier::external_body]
fn replace_all_matches(pattern: &str, haystack: &str, replacement: &str) -> (out: Option<String>)
    ensures
        out is Some <==> regex_compiles(pattern@),
        out matches Some(s) ==> s@ == regex_replace_all(pattern@, haystack@, replacement@),
{
    match regex::Regex::new(pattern) {
        Ok(re) => Some(re.replace_all(haystack, replacement).into_owned()),
        Err(_) => None,
    }
}

/// `text` with every match of `pattern` replaced, or `text` itself where the
/// pattern does not compile.
pub open spec fn replaced_or_kept(pattern: Seq<char>, text: Seq<char>, replacement: Seq<char>) -> Seq<
    char,
> {
    if regex_compiles(pattern) {
        regex_replace_all(pattern, text, replacement)
    } else {
        text
    }
}

/// Number of reasoning-tag names.
pub const REASONING_TAG_COUNT: usize = 15;

/// The names of the tags whose spans are removed together with their content.
pub open spec fn reasoning_tag_names() -> Seq<Seq<char>> {
    seq![
        "thinking"@,
        "think"@,
        "reflection"@,
        "reflect"@,
        "internal"@,
        "reasoning"@,
        "thought"@,
        "scratch"@,
        "scratchpad"@,
        "plan"@,
        "analysis"@,
        "analyze"@,
        "consider"@,
        "pondering"@,
        "deliberation"@,
    ]
}

/// The pattern of one span `<tag …>…</tag>`: case-insensitive, shortest
/// match, the content may run over several lines.
pub open spec fn tag_span_pattern(tag: Seq<char>) -> Seq<char> {
    "(?is)<"@ + tag + "[^>]*>.*?</"@ + tag + ">"@
}

/// The pattern of any opening or closing tag.
pub open spec fn any_tag_pattern() -> Seq<char> {
    "</?[\\w]+[^>]*>"@
}

/// The pattern of a run of whitespace.
pub open spec fn whitespace_run_pattern() -> Seq<char> {
    "\\s+"@
}

/// `text` after the spans of the first `count` reasoning tags have been
/// removed, one tag name after the other.
pub open spec fn strip_reasoning_spans(text: Seq<char>, count: nat) -> Seq<char>
    decreases count,
{
    if count == 0 || count > reasoning_tag_names().len() {
        text
    } else {
        replaced_or_kept(
            tag_span_pattern(reasoning_tag_names()[count - 1]),
            strip_reasoning_spans(text, (count - 1) as nat),
            ""@,
        )
    }
}

/// `text` without any remaining opening or closing tag.
pub open spec fn strip_orphan_tags(text: Seq<char>) -> Seq<char> {
    replaced_or_kept(any_tag_pattern(), text, ""@)
}

/// Whether `c` is kept when emphasis markers are removed.
pub open spec fn not_asterisk() -> spec_fn(char) -> bool {
    |c: char| c != '*'
}

/// `text` without its asterisks.
pub open spec fn strip_emphasis_spec(text: Seq<char>) -> Seq<char> {
    text.filter(not_asterisk())
}

/// `text` with every run of whitespace replaced by one space.
pub open spec fn collapse_whitespace(text: Seq<char>) -> Seq<char> {
    replaced_or_kept(whitespace_run_pattern(), text, " "@)
}

/// The cleaned form of a raw response: reasoning spans removed, then stray
/// tags, then asterisks; whitespace runs collapsed; the ends trimmed.
pub open spec fn sanitized(raw: Seq<char>) -> Seq<char> {
    trimmed(
        collapse_whitespace(
            strip_emphasis_spec(
                strip_orphan_tags(strip_reasoning_spans(raw, REASONING_TAG_COUNT as nat)),
            ),
        ),
    )
}

/// Whether no stage before trimming changes `text`: it holds no reasoning
/// span, no tag, no asterisk and no whitespace run to collapse.
pub open spec fn is_settled(text: Seq<char>) -> bool {
    &&& strip_reasoning_spans(text, REASONING_TAG_COUNT as nat) == text
    &&& strip_orphan_tags(text) == text
    &&& strip_emphasis_spec(text) == text
    &&& collapse_whitespace(text) == text
}

/// Sanitizing is idempotent wherever the first pass leaves a settled text:
/// a second pass then returns its input. (Removing a tag can bring a new one
/// together from the text around it; such a result is not settled.)
pub proof fn lemma_sanitize_idempotent(raw: Seq<char>)
    requires
        is_settled(sanitized(raw)),
    ensures
        sanitized(sanitized(raw)) == sanitized(raw),
{
    lemma_trimmed_idempotent(
        collapse_whitespace(
            strip_emphasis_spec(
                strip_orphan_tags(strip_reasoning_spans(raw, REASONING_TAG_COUNT as nat)),
            ),
        ),
    );
}

/// Replaces the matches of `pattern` in `text`; a pattern that does not
/// compile leaves the text as it is.
fn replace_matches(pattern: &str, text: String, replacement: &str) -> (out: String)
    ensures
        out@ == replaced_or_kept(pattern@, text@, replacement@),
{
    match replace_all_matches(pattern, text.as_str(), replacement) {
        Some(replaced) => replaced,
        None => text,
    }
}

/// The reasoning-tag names, in the order in which they are applied.
pub fn reasoning_tags() -> (tags: Vec<&'static str>)
    ensures
        tags@.len() == REASONING_TAG_COUNT,
        tags@.len() == reasoning_tag_names().len(),
        forall|i: int| 0 <= i < tags@.len() ==> (#[trigger] tags@[i])@ == reasoning_tag_names()[i],
{
    let tags = vec![
        "thinking",
        "think",
        "reflection",
        "reflect",
        "internal",
        "reasoning",
        "thought",
        "scratch",
        "scratchpad",
        "plan",
        "analysis",
        "analyze",
        "consider",
        "pondering",
        "deliberation",
    ];
    tags
}

/// The regex source for the span of `tag`.
fn tag_pattern(tag: &str) -> (pattern: String)
    ensures
        pattern@ == tag_span_pattern(tag@),
{
    let mut pattern = String::from_str("(?is)<");
    pattern.append(tag);
    pattern.append("[^>]*>.*?</");
    pattern.append(tag);
    pattern.append(">");
    pattern
}

/// Removes every asterisk from `text`.
pub fn strip_emphasis(text: &str) -> (out: String)
    ensures
        out@ == strip_emphasis_spec(text@),
{
    let chars = to_chars(text);
    let mut kept: Vec<char> = Vec::new();
    let mut i: usize = 0;
    assert(chars@.take(0) =~= Seq::<char>::empty());
    assert(Seq::<char>::empty().filter(not_asterisk()) =~= Seq::<char>::empty()) by {
        reveal(Seq::filter);
    }
    while i < chars.len()
        invariant
            i <= chars@.len(),
            kept@ == chars@.take(i as int).filter(not_asterisk()),
        decreases chars@.len() - i,
    {
        let c = chars[i];
        proof {
            assert(chars@.take(i + 1) =~= chars@.take(i as int).push(c));
            chars@.take(i as int).lemma_filter_push(c, not_asterisk());
        }
        if c != '*' {
            kept.push(c);
        }
        i = i + 1;
    }
    assert(chars@.take(chars@.len() as int) =~= chars@);
    let out = from_chars(&kept, 0, kept.len());
    assert(kept@.subrange(0, kept@.len() as int) =~= kept@);
    out
}

/// Strips reasoning artifacts and markup from a raw model response and
/// normalizes its whitespace.
pub fn sanitize_response(response: &str) -> (clean: String)
    ensures
        clean@ == sanitized(response@),
{
    let tags = reasoning_tags();
    let mut result = String::from_str(response);
    let mut i: usize = 0;
    while i < tags.len()
        invariant
            i <= tags@.len(),
            tags@.len() == REASONING_TAG_COUNT,
            tags@.len() == reasoning_tag_names().len(),
            forall|k: int|
                0 <= k < tags@.len() ==> (#[trigger] tags@[k])@ == reasoning_tag_names()[k],
            result@ == strip_reasoning_spans(response@, i as nat),
        decreases tags@.len() - i,
    {
        let pattern = tag_pattern(tags[i]);
        result = replace_matches(pattern.as_str(), result, "");
        i = i + 1;
    }
    let result = replace_matches("</?[\\w]+[^>]*>", result, "");
    let result = strip_emphasis(result.as_str());
    let result = replace_matches("\\s+", result, " ");
    trim(result.as_str())
}

} // verus!
