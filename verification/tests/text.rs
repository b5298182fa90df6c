//! Texts, held against those of std.

use wf::text::{
    byte_len, chars_of, contains, ends_with, is_white_space, lines, lower_ascii, parse_u32,
    push_decimal, push_two_digits, skip_bytes, starts_with, tail_after, text_of, trim, unquote,
};

fn string(v: &Vec<char>) -> String {
    v.iter().collect()
}

const SAMPLES: [&str; 14] = [
    "",
    " ",
    "a",
    "  a b\t\n",
    "\u{a0}x\u{3000}",
    "one\ntwo\r\nthree",
    "one\n",
    "\n\n",
    "a\r",
    "a\r\n",
    "\r\nb\r\r\n",
    "Ünïcödé ● ↑",
    "a=b=c",
    "x/y/z",
];

#[test]
fn white_space_is_that_of_std() {
    for c in (0u32..0x11_0000).filter_map(char::from_u32) {
        assert_eq!(is_white_space(c), c.is_whitespace(), "{:x}", c as u32);
    }
}

#[test]
fn trims_like_std() {
    for s in SAMPLES {
        assert_eq!(string(&trim(&chars_of(s))), s.trim());
    }
}

#[test]
fn lines_like_std() {
    for s in SAMPLES {
        let ours: Vec<String> = lines(&chars_of(s)).iter().map(string).collect();
        let theirs: Vec<&str> = s.lines().collect();
        assert_eq!(ours, theirs, "{s:?}");
    }
}

#[test]
fn searches_like_std() {
    for s in SAMPLES {
        for needle in ["", "a", "b=", "\n", "●", "x/y/z", "zz"] {
            let v = chars_of(s);
            assert_eq!(contains(&v, needle), s.contains(needle), "{s:?} {needle:?}");
            assert_eq!(starts_with(&v, needle), s.starts_with(needle));
            assert_eq!(ends_with(&v, needle), s.ends_with(needle));
        }
    }
}

#[test]
fn strings_come_back() {
    for s in SAMPLES {
        assert_eq!(text_of(&chars_of(s)), s);
        assert_eq!(byte_len(s), s.len());
    }
}

#[test]
fn skips_bytes_like_slices() {
    for s in SAMPLES {
        for n in 0usize..8 {
            let ours = skip_bytes(&chars_of(s), n).map(|v| string(&v));
            assert_eq!(ours.as_deref(), s.get(n..), "{s:?} {n}");
        }
    }
}

#[test]
fn quotes_go() {
    assert_eq!(string(&unquote(&chars_of("\"\"a\"b\""), '"')), "a\"b");
    assert_eq!(string(&unquote(&chars_of("\"\""), '"')), "");
}

#[test]
fn tails() {
    assert_eq!(string(&tail_after(&chars_of("x/y/z"), '/')), "z");
    assert_eq!(string(&tail_after(&chars_of("x/"), '/')), "");
    assert_eq!(string(&tail_after(&chars_of("x"), '/')), "x");
}

#[test]
fn lowers_ascii_only() {
    assert_eq!(string(&lower_ascii(&chars_of("AbZ[Ü"))), "abz[Ü");
}

#[test]
fn reads_numbers_like_std() {
    for s in ["", "+", "0", "007", "+5", "-5", "4294967295", "4294967296", "99999999999", "1 ", "1a", "++1"] {
        assert_eq!(parse_u32(&chars_of(s)), s.parse::<u32>().ok(), "{s:?}");
    }
}

#[test]
fn writes_numbers() {
    for n in [0u64, 7, 10, 99, 100, 1339, u64::MAX] {
        let mut s = String::from("n=");
        push_decimal(&mut s, n);
        assert_eq!(s, format!("n={n}"));
    }
    for n in [0u64, 5, 10, 59, 99] {
        let mut s = String::new();
        push_two_digits(&mut s, n);
        assert_eq!(s, format!("{n:02}"));
    }
}
