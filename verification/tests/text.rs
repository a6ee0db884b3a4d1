use monitor::text::{blank, characters, contains, is_whitespace, join, precedes, split_once};

const SAMPLES: [&str; 9] = ["", "a", "ab", "b", "é", "日本", "a_b_c", "\u{ffff}", "\u{10000}"];

#[test]
fn white_space_is_that_of_unicode() {
    for u in 0..=0x10ffffu32 {
        if let Some(c) = char::from_u32(u) {
            assert_eq!(is_whitespace(c), c.is_whitespace(), "{:x}", u);
        }
    }
}

#[test]
fn blank_is_what_trims_to_nothing() {
    for s in ["", " ", "\t\r\n", "\u{a0}\u{2003}", " x ", "\u{200b}"] {
        assert_eq!(blank(s), s.trim().is_empty(), "{:?}", s);
    }
}

#[test]
fn order_is_that_of_bytes() {
    for a in SAMPLES {
        for b in SAMPLES {
            assert_eq!(precedes(a, b), a < b, "{:?} {:?}", a, b);
            assert_eq!(contains(a, b), a.contains(b), "{:?} {:?}", a, b);
            assert_eq!(join(a, b), format!("{}{}", a, b));
        }
    }
}

#[test]
fn cut_at_the_first() {
    for s in ["a_b_c", "_", "", "abc", "日_本"] {
        let expected = s.split_once('_').map(|(a, b)| (a.to_string(), b.to_string()));
        assert_eq!(split_once(s, '_'), expected);
    }
}

#[test]
fn overlapping_beginnings_are_found() {
    assert!(contains("aaab", "aab"));
    assert!(contains("abcabd", "abd"));
    assert!(!contains("abcabc", "abd"));
    assert_eq!(characters("aé日"), vec!['a', 'é', '日']);
}
