use tray_host::number::{parse_i32_text, push_decimal, push_hex, push_signed};
use tray_host::text::{
    before_text, contains_text, is_whitespace, lines_text, same_text, splitn_text,
    strip_prefix_text, text_at_most, trim_text, words_text,
};

#[test]
fn white_space_is_that_of_unicode() {
    for c in '\0'..=char::MAX {
        assert_eq!(is_whitespace(c), c.is_whitespace());
    }
}

const SAMPLES: [&str; 22] = [
    "",
    " ",
    "a",
    " a ",
    "\t\na b\u{a0}c \u{3000}",
    "a b c d",
    "a  b",
    "a\tb\tc\td",
    "\ta\t",
    "one\ntwo\nthree",
    "one\r\ntwo\n",
    "one\rtwo\r",
    "\n",
    "\n\n",
    "\r\n\r\n",
    "x\n\ny",
    "LIST",
    "ERROR: nothing",
    "ERROR:",
    "naïve—日本語 ✓",
    "日本 語\t✓",
    "zebra",
];

#[test]
fn trimming_is_that_of_std() {
    for s in SAMPLES {
        assert_eq!(trim_text(s), s.trim());
    }
}

#[test]
fn splitting_is_that_of_std() {
    for s in SAMPLES {
        for sep in [' ', '\t', '\n'] {
            for n in 0..5 {
                let expected: Vec<&str> = s.splitn(n, sep).collect();
                assert_eq!(splitn_text(s, n, sep), expected);
            }
            assert_eq!(Some(before_text(s, sep).as_str()), s.split(sep).next());
        }
        let lines: Vec<&str> = s.lines().collect();
        assert_eq!(lines_text(s), lines);
        let words: Vec<&str> = s.split_whitespace().collect();
        assert_eq!(words_text(s), words);
    }
}

#[test]
fn searching_is_that_of_std() {
    for s in SAMPLES {
        for t in SAMPLES {
            assert_eq!(contains_text(s, t), s.contains(t));
            assert_eq!(strip_prefix_text(s, t).as_deref(), s.strip_prefix(t));
            assert_eq!(same_text(s, t), s == t);
        }
    }
    assert!(contains_text("abcabd", "abd"));
    assert_eq!(strip_prefix_text("ERROR: x", "ERROR: "), Some("x".to_string()));
}

#[test]
fn order_is_that_of_std() {
    for s in SAMPLES {
        for t in SAMPLES {
            assert_eq!(text_at_most(s, t), s <= t);
        }
    }
    assert!(text_at_most("\u{ffff}", "\u{10000}"));
    assert!(!text_at_most("a", "B"));
}

#[test]
fn decimal_numbers_are_written() {
    for n in [0u64, 7, 10, 99, 100, 1234567890, u64::MAX] {
        let mut s = String::from("n=");
        push_decimal(&mut s, n);
        assert_eq!(s, format!("n={n}"));
    }
    for n in [0i32, 5, -5, 10, -10, i32::MAX, i32::MIN] {
        let mut s = String::new();
        push_signed(&mut s, n);
        assert_eq!(s, n.to_string());
    }
}

#[test]
fn hexadecimal_numbers_are_written() {
    for n in [0u64, 255, 0xdead_beef, u64::MAX] {
        let mut s = String::new();
        push_hex(&mut s, n, 16);
        assert_eq!(s, format!("{n:016x}"));
    }
}

#[test]
fn decimal_numbers_are_read() {
    for s in [
        "", "0", "-0", "+0", "7", "-7", "+7", "007", "-", "+", "--1", "+-1", "1x", "x1", " 1", "1 ",
        "2147483647", "2147483648", "-2147483648", "-2147483649", "00000000000000000000012",
        "99999999999999999999999999", "-99999999999999999999999999", "१", "1_000",
    ] {
        assert_eq!(parse_i32_text(s), s.parse::<i32>().ok());
    }
}

#[test]
fn decimal_numbers_are_read_back() {
    for n in [0i32, 1, -1, 42, 99999, -100000, i32::MAX, i32::MIN] {
        let mut s = String::new();
        push_signed(&mut s, n);
        assert_eq!(parse_i32_text(&s), Some(n));
    }
}
