use sdtab::number::{parse_u32, push_decimal, push_padded};
use sdtab::split::{lines, split, split_whitespace};
use sdtab::text::{
    chars_of, find, is_space, lowercase, string_of, strip_prefix, strip_suffix, trim,
    trim_end_matches, trim_start_matches,
};

fn chars(s: &str) -> Vec<char> {
    s.chars().collect()
}

fn text(s: &[char]) -> String {
    s.iter().collect()
}

const SAMPLES: [&str; 24] = [
    "",
    " ",
    "a",
    " a ",
    "\t a b \n",
    "a\nb",
    "a\r\nb\r\n",
    "a\r",
    "\r\n",
    "\n\n",
    "a\n\rb\n",
    "x\r\r\ny",
    "one two  three",
    "\u{a0}nbsp\u{3000}wide\u{2003}em ",
    "\u{85}next\u{1680}ogham\u{2028}ls\u{2029}ps\u{202f}n\u{205f}m",
    "\u{200b}zero\u{feff}bom\u{180e}mvs",
    "MiXeD Case 123",
    "ÀÉÎ Σίσυφος ΑΣ İ \u{212a}",
    "..--name",
    "--..name",
    "a}}} ",
    "1,2,,3,",
    "/a//b/",
    "key=value=more",
];

#[test]
fn whitespace_is_what_the_standard_library_calls_whitespace() {
    for n in 0..=0x10ffffu32 {
        if let Some(c) = char::from_u32(n) {
            assert_eq!(is_space(c), c.is_whitespace(), "U+{:04X}", n);
        }
    }
}

#[test]
fn conversions_keep_every_character() {
    for s in SAMPLES {
        assert_eq!(chars_of(s), chars(s));
        assert_eq!(string_of(&chars(s)), s);
    }
}

#[test]
fn trim_as_the_standard_library_trims() {
    for s in SAMPLES {
        assert_eq!(text(trim(&chars(s))), s.trim());
        for c in ['.', '-', '}', ' ', 'a'] {
            assert_eq!(text(trim_start_matches(&chars(s), c)), s.trim_start_matches(c));
            assert_eq!(text(trim_end_matches(&chars(s), c)), s.trim_end_matches(c));
        }
    }
}

#[test]
fn split_as_the_standard_library_splits() {
    for s in SAMPLES {
        for sep in [',', '/', '=', ' ', ':'] {
            let got: Vec<String> = split(&chars(s), sep).into_iter().map(text).collect();
            let want: Vec<String> = s.split(sep).map(String::from).collect();
            assert_eq!(got, want);
        }
        let got: Vec<String> = split_whitespace(&chars(s)).into_iter().map(text).collect();
        let want: Vec<String> = s.split_whitespace().map(String::from).collect();
        assert_eq!(got, want);
    }
}

#[test]
fn lines_as_the_standard_library_cuts_them() {
    for s in SAMPLES {
        let got: Vec<String> = lines(&chars(s)).into_iter().map(text).collect();
        let want: Vec<String> = s.lines().map(String::from).collect();
        assert_eq!(got, want, "{:?}", s);
    }
}

#[test]
fn lowercase_as_the_standard_library_lowers() {
    for s in SAMPLES {
        assert_eq!(text(&lowercase(&chars(s))), s.to_lowercase());
    }
    for n in 0..128u32 {
        let s = char::from_u32(n).unwrap().to_string();
        assert_eq!(text(&lowercase(&chars(&s))), s.to_lowercase());
    }
    assert_eq!(text(&lowercase(&chars("@MONDAY/9"))), "@monday/9");
    assert_eq!(text(&lowercase(&chars("\u{212a}"))), "k");
}

#[test]
fn prefixes_suffixes_and_occurrences() {
    for s in SAMPLES {
        for p in ["", "a", " ", "..", "--", "a\n", "key=", "=more", "\r\n", "three"] {
            assert_eq!(strip_prefix(&chars(s), p).map(text), s.strip_prefix(p).map(String::from));
            assert_eq!(strip_suffix(&chars(s), p).map(text), s.strip_suffix(p).map(String::from));
            if !p.is_empty() {
                let want = s.find(p).map(|at| s[..at].chars().count());
                assert_eq!(find(&chars(s), &chars(p)), want);
            }
        }
    }
}

#[test]
fn numbers_as_the_standard_library_reads_them() {
    let tokens = [
        "", "0", "7", "007", "+5", "+", "-5", "+-5", "++5", "5+", " 5", "5 ", "4294967295",
        "4294967296", "04294967295", "99999999999999999999", "1_000", "0x10", "١٢", "１", "1.0", "a",
        "12a", "a12", "+0", "00",
    ];
    for t in tokens {
        assert_eq!(parse_u32(&chars(t)), t.parse::<u32>().ok(), "{:?}", t);
    }
    for n in (0..100_000u32).chain([u32::MAX - 1, u32::MAX, 1_000_000_007]) {
        assert_eq!(parse_u32(&chars(&n.to_string())), Some(n));
    }
}

#[test]
fn numbers_as_the_standard_library_writes_them() {
    for n in [0u64, 1, 9, 10, 11, 99, 100, 101, 4294967295, 4294967296, u64::MAX] {
        let mut out = chars("n=");
        push_decimal(&mut out, n);
        assert_eq!(text(&out), format!("n={}", n));
    }
    for n in [0u32, 1, 9, 10, 11, 59, 99, 100, 12345, u32::MAX] {
        let mut out = Vec::new();
        push_padded(&mut out, n);
        assert_eq!(text(&out), format!("{:02}", n));
        assert_eq!(text(&out), format!("{:0>2}", n));
    }
}
