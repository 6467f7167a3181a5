use debateai_core::sanitize::{reasoning_tags, sanitize_response, strip_emphasis};

#[test]
fn test_sanitize_response_thinking_tags() {
    let input = "<thinking>Let me think about this...</thinking>The answer is 42.";
    let output = sanitize_response(input);
    assert_eq!(output, "The answer is 42.");
}

#[test]
fn test_sanitize_response_reflection_tags() {
    let input = "Hello <reflection>internal thought</reflection> world!";
    let output = sanitize_response(input);
    assert_eq!(output, "Hello world!");
}

#[test]
fn test_sanitize_response_no_tags() {
    let input = "No tags here, just text.";
    let output = sanitize_response(input);
    assert_eq!(output, "No tags here, just text.");
}

#[test]
fn test_sanitize_response_multiline_tags() {
    let input = "<thinking>\nMultiple\nlines\nof\nthought\n</thinking>Final answer here.";
    let output = sanitize_response(input);
    assert_eq!(output, "Final answer here.");
}

#[test]
fn test_sanitize_response_nested_content() {
    let input = "Start <think>nested <inner>tags</inner> content</think> end";
    let output = sanitize_response(input);
    assert!(!output.contains("<"));
    assert!(!output.contains(">"));
}

#[test]
fn test_sanitize_response_multiple_tag_types() {
    let input = "<plan>First plan</plan>Then <reasoning>reason</reasoning> finally the answer.";
    let output = sanitize_response(input);
    assert_eq!(output, "Then finally the answer.");
}

#[test]
fn sanitize_short_thinking_example() {
    assert_eq!(
        sanitize_response("<thinking>...</thinking>The answer is 42."),
        "The answer is 42."
    );
    assert_eq!(
        sanitize_response("Hello <reflection>internal</reflection> world!"),
        "Hello world!"
    );
}

#[test]
fn sanitize_nested_tags_of_different_names() {
    let output = sanitize_response("<think>outer <reasoning>inner</reasoning></think>");
    assert_eq!(output, "");
    let output = sanitize_response("a <think>outer <reasoning>inner</reasoning></think> b");
    assert_eq!(output, "a b");
}

#[test]
fn sanitize_is_case_insensitive_and_takes_attributes() {
    assert_eq!(sanitize_response("<THINKING level=\"3\">x</Thinking>done"), "done");
    assert_eq!(sanitize_response("<Scratchpad>1+1</SCRATCHPAD> two"), "two");
}

#[test]
fn sanitize_removes_orphan_tags() {
    assert_eq!(sanitize_response("one </think> two <b>three</b>"), "one two three");
    assert_eq!(sanitize_response("<unknown attr='1'>kept text"), "kept text");
}

#[test]
fn sanitize_strips_asterisks() {
    assert_eq!(sanitize_response("This is **very** important*"), "This is very important");
}

#[test]
fn sanitize_collapses_whitespace_and_trims() {
    assert_eq!(sanitize_response("  a \n\n  b\t\tc  \n"), "a b c");
    assert_eq!(sanitize_response("   \n\t "), "");
    assert_eq!(sanitize_response(""), "");
}

#[test]
fn sanitize_applies_stages_in_order() {
    // The reasoning span goes first, so the asterisks inside it never count.
    assert_eq!(sanitize_response("<plan>*a*</plan> *b*  c"), "b c");
    // A tag name that asterisks interrupt is no tag when tags are removed.
    assert_eq!(sanitize_response("<*b*>x"), "<b>x");
}

#[test]
fn sanitize_twice_equals_once_on_plain_results() {
    let inputs = [
        "<thinking>...</thinking>The answer is 42.",
        "Hello <reflection>internal</reflection> world!",
        "  spaced   out  *text* ",
        "Start <think>nested <inner>tags</inner> content</think> end",
        "",
    ];
    for input in inputs {
        let once = sanitize_response(input);
        let twice = sanitize_response(&once);
        assert_eq!(twice, once);
    }
}

#[test]
fn sanitize_twice_differs_where_removal_joins_a_tag() {
    let once = sanitize_response("<<b>a>");
    assert_eq!(once, "<a>");
    assert_eq!(sanitize_response(&once), "");
}

#[test]
fn strip_emphasis_removes_only_asterisks() {
    assert_eq!(strip_emphasis("*a* b ** c"), "a b  c");
    assert_eq!(strip_emphasis("no stars"), "no stars");
    assert_eq!(strip_emphasis("***"), "");
}

#[test]
fn reasoning_tags_are_the_fifteen_names_in_order() {
    let tags = reasoning_tags();
    assert_eq!(
        tags,
        vec![
            "thinking",
            "think",
            "reflection",
            "reflect",
            "internal",
            "reasoning",
            "thought",
            "scratch",
            "scratchpad",
            "plan",
            "analysis",
            "analyze",
            "consider",
            "pondering",
            "deliberation",
        ]
    );
}
