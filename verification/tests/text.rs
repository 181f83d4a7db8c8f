use capscan_leaderboard::lines::{lines, trim, white_space};
use capscan_leaderboard::text::{comes_before, duplicate_all, join, push_decimal, same_text};

fn samples() -> Vec<&'static str> {
    vec![
        "", "a", "b", "ab", "aa", "a-b", "a_b", "A", "z", "\u{e9}", "\u{e9}a", "\u{ffff}",
        "\u{10000}", "serde", "serde_json", "serde-json", "0", "10", "9",
    ]
}

#[test]
fn text_order_is_the_order_of_strings() {
    for a in samples() {
        for b in samples() {
            assert_eq!(comes_before(a, b), a < b, "{a:?} {b:?}");
            assert_eq!(same_text(a, b), a == b, "{a:?} {b:?}");
        }
    }
}

#[test]
fn numbers_are_written_in_decimal() {
    let numbers = [0, 1, 9, 10, 11, 99, 100, 101, 1234567890, usize::MAX];
    for n in numbers {
        let mut out = "n=".to_string();
        push_decimal(&mut out, n);
        assert_eq!(out, format!("n={n}"));
    }
}

#[test]
fn joining_puts_separators_between() {
    let none: Vec<String> = vec![];
    assert_eq!(join(&none, ", "), "");
    assert_eq!(join(&vec!["a".to_string()], ", "), "a");
    let three = vec!["a".to_string(), "".to_string(), "c".to_string()];
    assert_eq!(join(&three, ", "), "a, , c");
    assert_eq!(duplicate_all(&three), three);
}

#[test]
fn white_space_is_the_unicode_property() {
    for code in 0..=0x10ffff {
        if let Some(c) = char::from_u32(code) {
            assert_eq!(white_space(c), c.is_whitespace(), "{code:x}");
        }
    }
}

#[test]
fn trimming_is_the_trimming_of_strings() {
    let texts = [
        "", " ", " \t\r\n", "a", " a", "a ", "  a b  ", "\u{3000}a\u{a0}", "\u{feff}a", "#", " # x",
    ];
    for text in texts {
        assert_eq!(trim(text), text.trim());
        assert_eq!(trim(trim(text)), trim(text));
    }
}

#[test]
fn lines_are_the_lines_of_strings() {
    let texts = [
        "", "\n", "\r\n", "\r", "a", "a\n", "a\nb", "a\r\nb\r\n", "a\rb\n", "a\n\n\nb", "a\r", "\n\r",
        "a\r\r\n", "\u{e9}\n\u{2028}x\n",
    ];
    for text in texts {
        let expected: Vec<&str> = text.lines().collect();
        assert_eq!(lines(text), expected, "{text:?}");
    }
}

#[test]
fn lines_of_a_complete_text_and_another_follow_each_other() {
    let mut both = lines("a\nb\r\n");
    both.extend(lines("c\n\nd"));
    assert_eq!(lines("a\nb\r\nc\n\nd"), both);
}
