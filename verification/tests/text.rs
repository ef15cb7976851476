use stream_backend::text::{
    char_is_whitespace, contains, equals, from_chars, index_of, join, matches_at, push_chars,
    replace, run_end, split_lines, split_whitespace, starts_with, to_chars, trim, trim_lines,
    trim_start, trimmed_lines,
};

fn chars(s: &str) -> Vec<char> {
    s.chars().collect()
}

fn strings(v: Vec<Vec<char>>) -> Vec<String> {
    v.into_iter().map(|l| l.into_iter().collect()).collect()
}

const SAMPLES: [&str; 24] = [
    "",
    " ",
    "a",
    " a ",
    "\ta b\t",
    "a\nb",
    "a\n",
    "\n",
    "\n\n",
    "a\r\nb\r\n",
    "a\rb",
    "a\r",
    "\r\n",
    "  lead",
    "trail  ",
    "a  b   c",
    "\u{a0}x\u{a0}",
    "\u{2003}wide\u{3000}",
    "x\u{85}y",
    "x\u{200b}y",
    "one two\nthree  four\r\n five ",
    "k = v = w",
    "[Interface]\nPrivateKey = abc=\n",
    "\u{1680}\u{2028}\u{2029}\u{202f}\u{205f}",
];

#[test]
fn whitespace_agrees_with_char_is_whitespace_on_every_char() {
    let mut u: u32 = 0;
    while u <= 0x10FFFF {
        if let Some(c) = char::from_u32(u) {
            assert_eq!(char_is_whitespace(c), c.is_whitespace(), "U+{:04X}", u);
        }
        u += 1;
    }
}

#[test]
fn whitespace_named_code_points() {
    for c in ['\t', '\n', '\u{b}', '\u{c}', '\r', ' ', '\u{85}', '\u{a0}', '\u{1680}', '\u{2000}',
        '\u{200a}', '\u{2028}', '\u{2029}', '\u{202f}', '\u{205f}', '\u{3000}']
    {
        assert!(char_is_whitespace(c));
    }
    for c in ['a', '0', '=', '\u{8}', '\u{e}', '\u{1f}', '\u{200b}', '\u{180e}', '\u{feff}'] {
        assert!(!char_is_whitespace(c));
    }
}

#[test]
fn to_chars_and_back() {
    for s in SAMPLES {
        let v = to_chars(s);
        assert_eq!(v, chars(s));
        assert_eq!(from_chars(&v), s);
    }
}

#[test]
fn push_chars_appends() {
    let mut out = String::from("ab");
    push_chars(&mut out, &chars("cd\u{e9}"));
    assert_eq!(out, "abcd\u{e9}");
    push_chars(&mut out, &[]);
    assert_eq!(out, "abcd\u{e9}");
}

#[test]
fn index_of_finds_first_at_or_after() {
    let s = chars("a=b=c");
    assert_eq!(index_of(&s, 0, '='), 1);
    assert_eq!(index_of(&s, 1, '='), 1);
    assert_eq!(index_of(&s, 2, '='), 3);
    assert_eq!(index_of(&s, 4, '='), 5);
    assert_eq!(index_of(&s, 5, '='), 5);
    assert_eq!(index_of(&[], 0, '='), 0);
}

#[test]
fn run_end_ends_runs() {
    let s = chars("  ab \tc");
    assert_eq!(run_end(&s, 0, true), 2);
    assert_eq!(run_end(&s, 0, false), 0);
    assert_eq!(run_end(&s, 2, false), 4);
    assert_eq!(run_end(&s, 4, true), 6);
    assert_eq!(run_end(&s, 6, false), 7);
    assert_eq!(run_end(&s, 7, false), 7);
}

#[test]
fn trim_agrees_with_str_trim() {
    for s in SAMPLES {
        let v = chars(s);
        let t: String = trim(&v).iter().collect();
        assert_eq!(t, s.trim(), "{:?}", s);
    }
}

#[test]
fn trim_exact_values() {
    assert_eq!(trim(&chars("  a b  ")), &chars("a b")[..]);
    assert_eq!(trim(&chars(" \t\r\n")), &[] as &[char]);
    assert_eq!(trim(&chars("x")), &chars("x")[..]);
}

#[test]
fn trimmed_lines_agree_with_lines_and_trim() {
    for s in SAMPLES {
        let expected: Vec<String> = s.lines().map(|l| l.trim().to_string()).collect();
        assert_eq!(strings(trimmed_lines(&chars(s))), expected, "{:?}", s);
    }
}

#[test]
fn trimmed_lines_exact_values() {
    assert_eq!(strings(trimmed_lines(&chars(""))), Vec::<String>::new());
    assert_eq!(strings(trimmed_lines(&chars("a\n"))), vec!["a"]);
    assert_eq!(strings(trimmed_lines(&chars("a\n\n"))), vec!["a", ""]);
    assert_eq!(strings(trimmed_lines(&chars(" a \r\n b"))), vec!["a", "b"]);
    assert_eq!(strings(trimmed_lines(&chars("\n"))), vec![""]);
}

#[test]
fn split_whitespace_agrees_with_std() {
    for s in SAMPLES {
        let expected: Vec<String> = s.split_whitespace().map(|t| t.to_string()).collect();
        assert_eq!(strings(split_whitespace(&chars(s))), expected, "{:?}", s);
    }
}

#[test]
fn split_whitespace_exact_values() {
    assert_eq!(strings(split_whitespace(&chars("remote  host\t443"))), vec!["remote", "host", "443"]);
    assert_eq!(strings(split_whitespace(&chars("   "))), Vec::<String>::new());
    assert_eq!(strings(split_whitespace(&chars("one"))), vec!["one"]);
}

#[test]
fn contains_agrees_with_std() {
    let patterns = ["", "a", "b", " ", "\n", "a b", "[Interface]", "=", "two\nthree", "\u{a0}x"];
    for s in SAMPLES {
        for p in patterns {
            assert_eq!(contains(&chars(s), p), s.contains(p), "{:?} in {:?}", p, s);
        }
    }
}

#[test]
fn contains_at_both_ends() {
    assert!(contains(&chars("abc"), "ab"));
    assert!(contains(&chars("abc"), "bc"));
    assert!(contains(&chars("abc"), "abc"));
    assert!(!contains(&chars("abc"), "abcd"));
    assert!(!contains(&chars("abc"), "ac"));
    assert!(contains(&chars(""), ""));
}

#[test]
fn starts_with_agrees_with_std() {
    let patterns = ["", "a", " ", "a ", "one", "[Interface]", "k =", "\u{a0}"];
    for s in SAMPLES {
        for p in patterns {
            assert_eq!(starts_with(&chars(s), p), s.starts_with(p), "{:?} in {:?}", p, s);
            assert_eq!(equals(&chars(s), p), s == p);
        }
    }
}

#[test]
fn matches_at_tests_one_place() {
    let s = chars("abcabc");
    let p = chars("bc");
    assert!(!matches_at(&s, &p, 0));
    assert!(matches_at(&s, &p, 1));
    assert!(matches_at(&s, &p, 4));
    assert!(!matches_at(&s, &p, 5));
    assert!(!matches_at(&s, &p, 6));
    assert!(!matches_at(&s, &p, 7));
    assert!(matches_at(&s, &[], 6));
    assert!(!matches_at(&s, &[], 7));
}

#[test]
fn replace_agrees_with_std() {
    for s in SAMPLES {
        let r: String = replace(&chars(s), ' ', "__").into_iter().collect();
        assert_eq!(r, s.replace(' ', "__"));
        let r: String = replace(&chars(s), '=', "").into_iter().collect();
        assert_eq!(r, s.replace('=', ""));
    }
}

#[test]
fn replace_doubles_quotes() {
    let r: String = replace(&chars("it's 'x'"), '\'', "''").into_iter().collect();
    assert_eq!(r, "it''s ''x''");
}

#[test]
fn join_agrees_with_std() {
    assert_eq!(join(&vec![], ", "), "");
    assert_eq!(join(&vec!["a"], ", "), "a");
    assert_eq!(join(&vec!["a", "b"], ", "), "a, b");
    assert_eq!(join(&vec!["a", "", "c"], "-"), "a--c");
    assert_eq!(join(&vec!["a", "b", "c"], ""), "abc");
}

#[test]
fn split_lines_agrees_with_str_lines() {
    for s in SAMPLES {
        let expected: Vec<String> = s.lines().map(|l| l.to_string()).collect();
        assert_eq!(strings(split_lines(&chars(s))), expected, "{:?}", s);
    }
}

#[test]
fn split_lines_exact_values() {
    assert_eq!(strings(split_lines(&chars(" a \r\n b\r"))), vec![" a ", " b\r"]);
    assert_eq!(strings(split_lines(&chars("\r\n\n"))), vec!["", ""]);
    assert_eq!(strings(split_lines(&chars("x"))), vec!["x"]);
}

#[test]
fn trim_start_agrees_with_str_trim_start() {
    for s in SAMPLES {
        let v = chars(s);
        let t: String = trim_start(&v).iter().collect();
        assert_eq!(t, s.trim_start(), "{:?}", s);
    }
    assert_eq!(trim_start(&chars("  a b  ")), &chars("a b  ")[..]);
}

#[test]
fn trim_lines_trims_each() {
    let lines = vec![chars(" a "), chars(""), chars("\tb"), chars("  ")];
    assert_eq!(strings(trim_lines(&lines)), vec!["a", "", "b", ""]);
    assert_eq!(strings(trim_lines(&Vec::new())), Vec::<String>::new());
}
