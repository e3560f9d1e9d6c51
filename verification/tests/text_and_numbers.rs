use cc_switch::number::{parse_i64, parse_usize, push_decimal};
use cc_switch::text::{
    chars_of, contains_chars, count_of, is_whitespace, split_chars, trim_chars, trimmed_string,
    words_of,
};

fn chars(s: &str) -> Vec<char> {
    s.chars().collect()
}

fn strings(v: Vec<Vec<char>>) -> Vec<String> {
    v.into_iter().map(|w| w.into_iter().collect()).collect()
}

#[test]
fn whitespace_agrees_with_std_for_every_char() {
    for n in 0u32..=0x10FFFF {
        if let Some(c) = char::from_u32(n) {
            assert_eq!(is_whitespace(c), c.is_whitespace(), "char {:#x}", n);
        }
    }
}

#[test]
fn trim_agrees_with_std() {
    let samples = [
        "",
        "   ",
        "  a b  ",
        "\t\r\nIPv4 Address: 1.2.3.4\r",
        "\u{3000}x\u{a0}",
        "abc",
        "\u{2028}\u{2029}",
    ];
    for s in samples {
        assert_eq!(trimmed_string(s), s.trim());
        let t: String = trim_chars(&chars(s)).into_iter().collect();
        assert_eq!(t, s.trim());
    }
}

#[test]
fn split_agrees_with_std() {
    let samples = ["", "a", "a:b", ":a::b:", "1.2.3.4", "..", "x/24"];
    for s in samples {
        for sep in [':', '.', '/'] {
            let expected: Vec<String> = s.split(sep).map(|p| p.to_string()).collect();
            assert_eq!(strings(split_chars(&chars(s), sep)), expected, "{:?} on {:?}", s, sep);
        }
    }
}

#[test]
fn words_agree_with_split_whitespace() {
    let samples = ["", "   ", "a", " a  b\tc\n", "2: eth0    inet 192.168.1.5/24 brd x", "x\u{3000}y"];
    for s in samples {
        let expected: Vec<String> = s.split_whitespace().map(|p| p.to_string()).collect();
        assert_eq!(strings(words_of(&chars(s))), expected);
    }
}

#[test]
fn contains_and_count() {
    assert!(contains_chars(&chars("IPv4 Address"), &chars("IPv4")));
    assert!(!contains_chars(&chars("IPv6 Address"), &chars("IPv4")));
    assert!(contains_chars(&chars("abc"), &chars("")));
    assert!(!contains_chars(&chars("ab"), &chars("abc")));
    assert_eq!(count_of(&chars("1.2.3.4"), '.'), 3);
    assert_eq!(count_of(&chars(""), '.'), 0);
}

#[test]
fn chars_of_keeps_every_char() {
    assert_eq!(chars_of("héllo：1"), chars("héllo：1"));
}

#[test]
fn decimal_text_of_numbers() {
    for n in [0u64, 7, 10, 255, 3345, 3445, u64::MAX] {
        let mut s = String::from("x");
        push_decimal(&mut s, n);
        assert_eq!(s, format!("x{}", n));
    }
}

#[test]
fn i64_parse_agrees_with_std() {
    let samples = [
        "", "+", "-", "0", "-0", "+0", "42", "-42", "+42", "007", "1.5", " 1", "1 ", "++1", "+-1",
        "9223372036854775807", "9223372036854775808", "-9223372036854775808",
        "-9223372036854775809", "99999999999999999999999", "12a", "１２",
    ];
    for s in samples {
        assert_eq!(parse_i64(&chars(s)), s.parse::<i64>().ok(), "{:?}", s);
    }
}

#[test]
fn usize_parse_agrees_with_std() {
    let samples = [
        "", "+", "-", "0", "-0", "+6", "6", "-6", "0006", "18446744073709551615",
        "18446744073709551616", "4294967296", "abc",
    ];
    for s in samples {
        assert_eq!(parse_usize(&chars(s)), s.parse::<usize>().ok(), "{:?}", s);
    }
}

#[test]
fn decimal_text_reads_back() {
    for n in [0u64, 9, 10, 1_700_000_000, i64::MAX as u64] {
        let mut s = String::new();
        push_decimal(&mut s, n);
        let cs = chars(&s);
        assert_eq!(parse_i64(&cs), Some(n as i64));
        assert_eq!(parse_usize(&cs), Some(n as usize));
    }
}
