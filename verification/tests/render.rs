use debateai_core::render::textwrap;

#[test]
fn wraps_at_the_width() {
    assert_eq!(textwrap("the quick brown fox jumps", 10), "the quick\nbrown fox\njumps");
    assert_eq!(textwrap("the quick brown fox jumps", 9), "the quick\nbrown fox\njumps");
    assert_eq!(textwrap("the quick brown fox jumps", 8), "the\nquick\nbrown\nfox\njumps");
    assert_eq!(textwrap("the quick brown fox jumps", 100), "the quick brown fox jumps");
}

#[test]
fn a_line_takes_a_word_when_one_byte_is_left_over() {
    // "aa bb" takes five bytes: it fits a width of six and of five.
    assert_eq!(textwrap("aa bb", 6), "aa bb");
    assert_eq!(textwrap("aa bb", 5), "aa bb");
    assert_eq!(textwrap("aa bb", 4), "aa\nbb");
}

#[test]
fn whitespace_between_words_is_normalized() {
    assert_eq!(textwrap("  a \n\n b\t\tc  ", 66), "a b c");
    assert_eq!(textwrap("", 66), "");
    assert_eq!(textwrap(" \n ", 66), "");
    assert_eq!(textwrap("word", 0), "word");
    assert_eq!(textwrap("a b", 0), "a\nb");
}

#[test]
fn long_words_stand_on_lines_of_their_own() {
    assert_eq!(textwrap("a incomprehensibilities b c", 5), "a\nincomprehensibilities\nb c");
}

#[test]
fn width_is_counted_in_bytes() {
    // Two bytes each: "ää öö" takes nine bytes.
    assert_eq!(textwrap("ää öö", 9), "ää öö");
    assert_eq!(textwrap("ää öö", 8), "ää\nöö");
}

#[test]
fn wraps_like_a_loop_over_split_whitespace() {
    let texts = [
        "Tabs are better than spaces because they respect the reader.",
        "one  two   three    four     five",
        "x",
        "a b c d e f g h i j k l m n o p q r s t u v w x y z",
    ];
    for text in texts {
        for width in [0usize, 1, 3, 7, 12, 66] {
            let mut expected = String::new();
            let mut line = 0usize;
            for word in text.split_whitespace() {
                if line + word.len() + 1 > width && line > 0 {
                    expected.push('\n');
                    line = 0;
                }
                if line > 0 {
                    expected.push(' ');
                    line += 1;
                }
                expected.push_str(word);
                line += word.len();
            }
            assert_eq!(textwrap(text, width), expected);
        }
    }
}
