use notary_facts::text::{
    chars_of, count_leading_whitespace, decode_text, find, find_disclosed, is_whitespace,
    last_line_bounds, pattern_at, same_identity, span_is_disclosed,
    starts_with_disclosed, starts_with_trimmed,
};

fn text_chars(s: &str) -> Vec<char> {
    s.chars().collect()
}

fn last_line_by_bounds(s: &str) -> Option<String> {
    let chars = text_chars(s);
    last_line_bounds(&chars).map(|(start, end)| chars[start..end].iter().collect())
}

#[test]
fn whitespace_is_the_unicode_property() {
    let mut code: u32 = 0;
    while code <= 0x10FFFF {
        if let Some(c) = char::from_u32(code) {
            assert_eq!(is_whitespace(c), c.is_whitespace(), "U+{:04X}", code);
        }
        code += 1;
    }
}

#[test]
fn whitespace_examples() {
    assert!(is_whitespace(' '));
    assert!(is_whitespace('\t'));
    assert!(is_whitespace('\n'));
    assert!(is_whitespace('\r'));
    assert!(is_whitespace('\u{00A0}'));
    assert!(is_whitespace('\u{3000}'));
    assert!(!is_whitespace('G'));
    assert!(!is_whitespace('\u{200B}'));
    assert!(!is_whitespace('\0'));
}

#[test]
fn chars_of_keeps_every_character() {
    assert_eq!(chars_of(""), Vec::<char>::new());
    assert_eq!(chars_of("a\u{e9}\u{1F600}z"), vec!['a', '\u{e9}', '\u{1F600}', 'z']);
}

#[test]
fn leading_whitespace_is_counted() {
    assert_eq!(count_leading_whitespace(&text_chars("")), 0);
    assert_eq!(count_leading_whitespace(&text_chars("GET")), 0);
    assert_eq!(count_leading_whitespace(&text_chars("  GET ")), 2);
    assert_eq!(count_leading_whitespace(&text_chars(" \t\r\n")), 4);
    assert_eq!(count_leading_whitespace(&text_chars("\u{2003}x y")), 1);
}

#[test]
fn pattern_at_a_position() {
    let s = text_chars("hello world");
    assert!(pattern_at(&s, 0, &text_chars("hello")));
    assert!(pattern_at(&s, 6, &text_chars("world")));
    assert!(!pattern_at(&s, 7, &text_chars("world")));
    assert!(!pattern_at(&s, 1, &text_chars("hello")));
    assert!(pattern_at(&s, 11, &text_chars("")));
    assert!(!pattern_at(&s, 12, &text_chars("")));
    assert!(!pattern_at(&s, usize::MAX, &text_chars("h")));
}

#[test]
fn prefix_after_leading_whitespace() {
    let s = text_chars("  GET https://api.example.com/x");
    assert!(starts_with_trimmed(&s, &text_chars("GET https://api.example.com/x")));
    assert!(starts_with_trimmed(&s, &text_chars("GET")));
    assert!(starts_with_trimmed(&s, &text_chars("")));
    assert!(!starts_with_trimmed(&s, &text_chars("POST")));
    assert!(!starts_with_trimmed(&s, &text_chars(" GET")));
    assert!(!starts_with_trimmed(&s, &text_chars("GET https://api.example.com/x/y")));
    assert!(starts_with_trimmed(&text_chars("   "), &text_chars("")));
    assert!(!starts_with_trimmed(&text_chars("   "), &text_chars(" ")));
}

#[test]
fn prefix_agrees_with_std() {
    let inputs = ["", " ", "GET /", "\n\tGET /", "\u{a0}GET", "G", " x GET"];
    let prefixes = ["", "GET", "GET /", " ", "x", "\u{a0}"];
    for input in inputs {
        for prefix in prefixes {
            assert_eq!(
                starts_with_trimmed(&text_chars(input), &text_chars(prefix)),
                input.trim_start().starts_with(prefix),
                "{:?} {:?}",
                input,
                prefix
            );
        }
    }
}

#[test]
fn find_gives_the_first_position() {
    let s = text_chars("abcabcabd");
    assert_eq!(find(&s, &text_chars("abc")), Some(0));
    assert_eq!(find(&s, &text_chars("bca")), Some(1));
    assert_eq!(find(&s, &text_chars("abd")), Some(6));
    assert_eq!(find(&s, &text_chars("d")), Some(8));
    assert_eq!(find(&s, &text_chars("abe")), None);
    assert_eq!(find(&s, &text_chars("abcabcabda")), None);
    assert_eq!(find(&s, &text_chars("")), Some(0));
    assert_eq!(find(&text_chars(""), &text_chars("")), Some(0));
    assert_eq!(find(&text_chars(""), &text_chars("a")), None);
}

#[test]
fn find_agrees_with_std() {
    let inputs = ["", "a", "aaa", "abab", "screen_name%22%3A%22alice", "x\u{e9}y"];
    let needles = ["", "a", "aa", "ab", "ba", "alice", "\u{e9}y", "zz"];
    for input in inputs {
        for needle in needles {
            let expected = input.find(needle).map(|at| input[..at].chars().count());
            assert_eq!(find(&text_chars(input), &text_chars(needle)), expected);
        }
    }
}

#[test]
fn last_line_examples() {
    assert_eq!(last_line_by_bounds(""), None);
    assert_eq!(last_line_by_bounds("one"), Some("one".to_string()));
    assert_eq!(last_line_by_bounds("one\ntwo"), Some("two".to_string()));
    assert_eq!(last_line_by_bounds("one\ntwo\n"), Some("two".to_string()));
    assert_eq!(last_line_by_bounds("one\r\ntwo\r\n"), Some("two".to_string()));
    assert_eq!(last_line_by_bounds("one\n\n"), Some("".to_string()));
    assert_eq!(last_line_by_bounds("\n"), Some("".to_string()));
    assert_eq!(last_line_by_bounds("\r\n"), Some("".to_string()));
    assert_eq!(last_line_by_bounds("one\ntwo\r"), Some("two\r".to_string()));
    assert_eq!(last_line_by_bounds("one\n\r"), Some("\r".to_string()));
}

#[test]
fn last_line_agrees_with_std() {
    let inputs = [
        "",
        "a",
        "a\n",
        "a\r\n",
        "a\r",
        "\n",
        "\r",
        "\r\n",
        "\n\n",
        "a\nb",
        "a\nb\n",
        "a\r\nb\r\n",
        "a\n\r\n",
        "a\r\r\n",
        "HTTP/1.1 200 OK\r\n\r\n1f\r\n{\"a\":1}\r\n0\r\n\r\n",
        "HTTP/1.1 200 OK\r\n\r\n{\"screen_name\":\"alice\"}",
    ];
    for input in inputs {
        assert_eq!(
            last_line_by_bounds(input),
            input.lines().last().map(|line| line.to_string()),
            "{:?}",
            input
        );
    }
}

#[test]
fn decode_text_accepts_utf8_only() {
    assert_eq!(decode_text(b"GET /"), Some("GET /"));
    assert_eq!(decode_text(&[]), Some(""));
    assert_eq!(decode_text(&[0xC3, 0xA9]), Some("\u{e9}"));
    assert_eq!(decode_text(&[0xFF]), None);
    assert_eq!(decode_text(&[0xC3]), None);
    assert_eq!(decode_text(&[b'a', 0x80, b'b']), None);
    assert_eq!(decode_text(&[0xED, 0xA0, 0x80]), None);
}

#[test]
fn identity_ignores_case() {
    assert!(same_identity("Alice", "alice"));
    assert!(same_identity("alice", "ALICE"));
    assert!(same_identity("alice", "alice"));
    assert!(!same_identity("Alice", "bob"));
    assert!(!same_identity("alice", "alice "));
    assert!(same_identity("\u{c9}MILE", "\u{e9}mile"));
    assert!(same_identity("", ""));
}

#[test]
fn spans_are_disclosed_where_every_mark_says_so() {
    let marks = vec![false, false, true, false];
    assert!(span_is_disclosed(&marks, 0, 2));
    assert!(!span_is_disclosed(&marks, 0, 3));
    assert!(!span_is_disclosed(&marks, 2, 3));
    assert!(span_is_disclosed(&marks, 3, 4));
    assert!(span_is_disclosed(&marks, 2, 2));
    assert!(span_is_disclosed(&marks, 9, 9));
    assert!(span_is_disclosed(&marks, 5, 1));
    assert!(!span_is_disclosed(&marks, 3, 5));
    assert!(!span_is_disclosed(&marks, 4, 5));
    assert!(!span_is_disclosed(&vec![], 0, 1));
}

#[test]
fn find_disclosed_skips_occurrences_on_withheld_positions() {
    let s = text_chars("abXXab");
    let marks = vec![false, false, true, true, false, false];
    assert_eq!(find_disclosed(&s, &marks, &text_chars("ab")), Some(0));
    assert_eq!(find_disclosed(&s, &marks, &text_chars("b")), Some(1));
    assert_eq!(find_disclosed(&s, &marks, &text_chars("X")), None);
    assert_eq!(find_disclosed(&s, &marks, &text_chars("bX")), None);
    assert_eq!(find_disclosed(&s, &marks, &text_chars("Xa")), None);
    assert_eq!(find_disclosed(&s, &marks, &text_chars("")), Some(0));
    let hidden_first = vec![true, true, false, false, false, false];
    assert_eq!(find_disclosed(&s, &hidden_first, &text_chars("ab")), Some(4));
    assert_eq!(find_disclosed(&s, &hidden_first, &text_chars("XX")), Some(2));
}

#[test]
fn prefix_on_disclosed_positions() {
    let s = text_chars("  GET /XX");
    let marks = vec![false, false, false, false, false, false, false, true, true];
    assert!(starts_with_disclosed(&s, &marks, &text_chars("GET /")));
    assert!(!starts_with_disclosed(&s, &marks, &text_chars("GET /X")));
    assert!(!starts_with_disclosed(&s, &marks, &text_chars("POST")));
    assert!(starts_with_disclosed(&s, &marks, &text_chars("")));
    let hidden = vec![false, false, true, false, false, false, false, false, false];
    assert!(!starts_with_disclosed(&s, &hidden, &text_chars("GET")));
    assert!(!starts_with_disclosed(&s, &hidden, &text_chars("G")));
}

#[test]
fn identity_agrees_with_lowercasing() {
    let names = [
        "", "alice", "Alice", "ALICE", "aLiCe", "bob", "alice_1", "ALICE_1", "Alice ", "@[`{",
        "\u{c9}mile", "\u{e9}mile", "\u{e9}MILE", "emile", "\u{130}", "i\u{307}", "\u{3a3}", "\u{3c3}",
        "STRASSE", "stra\u{df}e", "\u{212a}", "k", "K",
    ];
    for a in names {
        for b in names {
            assert_eq!(
                same_identity(a, b),
                a.to_lowercase() == b.to_lowercase(),
                "{:?} {:?}",
                a,
                b
            );
        }
    }
}

#[test]
fn identity_of_ascii_names_agrees_with_lowercasing_letter_by_letter() {
    let mut code: u8 = 0;
    while code < 128 {
        let c = code as char;
        let lower = c.to_string().to_lowercase();
        for other in 0..128u8 {
            let d = (other as char).to_string();
            assert_eq!(same_identity(&c.to_string(), &d), lower == d.to_lowercase(), "{} {}", code, other);
        }
        code += 1;
    }
}
