use debateai_core::split::{next_word, piece_end, Separator};
use debateai_core::text::{
    byte_len, char_width, contains, count_within, decimal_string, from_chars, matches_at,
    push_decimal, replace_all, same_text, to_chars, trim, trim_range,
};

const SAMPLES: [&str; 12] = [
    "",
    " ",
    "plain",
    "  leading",
    "trailing \n",
    "\t both \r\n",
    "in ner",
    "\u{a0}no-break\u{2003}",
    "日本語 テキスト",
    " \u{3000} ",
    "a",
    "  a  b  ",
];

#[test]
fn trim_agrees_with_str_trim() {
    for sample in SAMPLES {
        assert_eq!(trim(sample), sample.trim());
    }
}

#[test]
fn trim_range_gives_the_bounds_of_the_trimmed_part() {
    let chars = to_chars("  ab  cd  ");
    assert_eq!(trim_range(&chars, 0, chars.len()), (2, 8));
    assert_eq!(trim_range(&chars, 3, 7), (3, 7));
    assert_eq!(trim_range(&chars, 4, 6), (6, 6));
    assert_eq!(trim_range(&chars, 0, 0), (0, 0));
    assert_eq!(trim_range(&chars, 8, 10), (10, 10));
    assert_eq!(trim_range(&chars, 1, 5), (2, 4));
}

#[test]
fn chars_round_trip() {
    for sample in SAMPLES {
        let chars = to_chars(sample);
        assert_eq!(chars, sample.chars().collect::<Vec<char>>());
        assert_eq!(from_chars(&chars, 0, chars.len()), sample);
    }
    let chars = to_chars("hello");
    assert_eq!(from_chars(&chars, 1, 3), "el");
    assert_eq!(from_chars(&chars, 2, 2), "");
}

#[test]
fn same_text_compares_contents() {
    assert!(same_text("abc", "abc"));
    assert!(!same_text("abc", "abd"));
    assert!(!same_text("abc", "ab"));
    assert!(same_text("", ""));
}

#[test]
fn decimal_strings() {
    for n in [0u64, 1, 9, 10, 11, 99, 100, 101, 12345, 4294967295, u64::MAX] {
        assert_eq!(decimal_string(n), n.to_string());
    }
    let mut out = String::from("n=");
    push_decimal(&mut out, 407);
    assert_eq!(out, "n=407");
}

#[test]
fn contains_agrees_with_str_contains() {
    let haystacks = ["", "a", "FOR", "Alice (FOR)", "Professor", "xxFOxFOR", "日本FOR語", "aaa"];
    let needles = ["", "FOR", "Pro", "a", "aa", "aaaa", "語", "x"];
    for haystack in haystacks {
        for needle in needles {
            assert_eq!(contains(haystack, needle), haystack.contains(needle));
        }
    }
}

#[test]
fn matches_at_compares_in_place() {
    let hay = to_chars("abcabc");
    let pin = to_chars("bc");
    assert!(!matches_at(&hay, &pin, 0));
    assert!(matches_at(&hay, &pin, 1));
    assert!(matches_at(&hay, &pin, 4));
    assert!(matches_at(&hay, &Vec::new(), 6));
}

#[test]
fn replace_all_agrees_with_str_replace() {
    let texts = ["", "{name}", "a {name} b {name}", "{{name}}", "{nam{name}e}", "aaaa", "x{topic}"];
    let patterns = ["{name}", "{topic}", "aa", "a", "{"];
    let fillers = ["", "Bob", "{name}", "aaa"];
    for text in texts {
        for pattern in patterns {
            for filler in fillers {
                assert_eq!(replace_all(text, pattern, filler), text.replace(pattern, filler));
            }
        }
    }
    // An empty pattern occurs nowhere.
    assert_eq!(replace_all("abc", "", "-"), "abc");
}

#[test]
fn byte_lengths() {
    for sample in SAMPLES {
        assert_eq!(byte_len(sample), sample.len());
        let sum: usize = sample.chars().map(char_width).sum();
        assert_eq!(sum, sample.len());
    }
    assert_eq!(char_width('a'), 1);
    assert_eq!(char_width('\u{7f}'), 1);
    assert_eq!(char_width('\u{80}'), 2);
    assert_eq!(char_width('\u{7ff}'), 2);
    assert_eq!(char_width('\u{800}'), 3);
    assert_eq!(char_width('\u{ffff}'), 3);
    assert_eq!(char_width('\u{10000}'), 4);
    assert_eq!(char_width('\u{10ffff}'), 4);
}

#[test]
fn count_within_takes_whole_characters() {
    let chars = to_chars("aé日😀b");
    assert_eq!(count_within(&chars, 0), 0);
    assert_eq!(count_within(&chars, 1), 1);
    assert_eq!(count_within(&chars, 2), 1);
    assert_eq!(count_within(&chars, 3), 2);
    assert_eq!(count_within(&chars, 5), 2);
    assert_eq!(count_within(&chars, 6), 3);
    assert_eq!(count_within(&chars, 9), 3);
    assert_eq!(count_within(&chars, 10), 4);
    assert_eq!(count_within(&chars, 11), 5);
    assert_eq!(count_within(&chars, 1000), 5);
}

#[test]
fn pieces_end_behind_their_separator() {
    let chars = to_chars("ab.c!d, e");
    assert_eq!(piece_end(&chars, 0, chars.len(), Separator::SentenceEnd), 3);
    assert_eq!(piece_end(&chars, 3, chars.len(), Separator::SentenceEnd), 5);
    assert_eq!(piece_end(&chars, 5, chars.len(), Separator::SentenceEnd), 9);
    assert_eq!(piece_end(&chars, 5, chars.len(), Separator::Comma), 7);
    assert_eq!(piece_end(&chars, 0, 2, Separator::SentenceEnd), 2);
    assert_eq!(piece_end(&chars, 4, 4, Separator::Comma), 4);
    assert!(Separator::SentenceEnd.is_match(';'));
    assert!(Separator::SentenceEnd.is_match('?'));
    assert!(!Separator::SentenceEnd.is_match(','));
    assert!(Separator::Comma.is_match(','));
}

#[test]
fn words_are_found_in_order() {
    for sample in SAMPLES {
        let chars = to_chars(sample);
        let mut found = Vec::new();
        let mut at = 0;
        while let Some((start, end)) = next_word(&chars, at) {
            found.push(from_chars(&chars, start, end));
            at = end;
        }
        let expected: Vec<String> = sample.split_whitespace().map(|w| w.to_string()).collect();
        assert_eq!(found, expected);
    }
}
