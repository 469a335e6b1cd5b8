use arithmetic::text::{
    chars_of, contains, find, is_whitespace, leading_run, matches_at, rfind, same_text,
    skip_leading, skip_trailing, split, string_of, take_leading, trailing_run, trim, trim_start,
    CharClass,
};

fn cs(s: &str) -> Vec<char> {
    s.chars().collect()
}

fn text(chars: &[char]) -> String {
    chars.iter().collect()
}

fn char_index(s: &str, byte: usize) -> usize {
    s[..byte].chars().count()
}

const SAMPLES: [&str; 14] = [
    "",
    "a",
    "abc",
    "aaa",
    "abcabc",
    "  padded\t\n",
    "\u{a0}\u{3000}wide\u{2003}",
    "{\"op\": \"sin\", \"a\": 1.5}",
    "op\"op\"op\"",
    "x::y::",
    "naïve café",
    "٣٤٥ and ¾",
    "   ",
    "::::",
];

const PATTERNS: [&str; 10] = ["", "a", "aa", "abc", "bc", ":", "::", "op\"", "é", "\""];

#[test]
fn whitespace_agrees_with_the_unicode_property_on_every_character() {
    let mut n: u32 = 0;
    while n <= 0x10FFFF {
        if let Some(c) = char::from_u32(n) {
            assert_eq!(is_whitespace(c), c.is_whitespace(), "code point {:#x}", n);
        }
        n += 1;
    }
}

#[test]
fn whitespace_named_code_points() {
    for c in [' ', '\t', '\n', '\r', '\u{b}', '\u{c}', '\u{85}', '\u{a0}', '\u{1680}', '\u{2000}',
        '\u{200a}', '\u{2028}', '\u{2029}', '\u{202f}', '\u{205f}', '\u{3000}']
    {
        assert!(is_whitespace(c));
    }
    for c in ['a', '0', '-', '\u{8}', '\u{e}', '\u{200b}', '\u{180e}', '\u{feff}'] {
        assert!(!is_whitespace(c));
    }
}

#[test]
fn class_membership() {
    assert!(CharClass::Space.contains(' '));
    assert!(!CharClass::Space.contains(':'));
    assert!(CharClass::Colon.contains(':'));
    assert!(!CharClass::Colon.contains(';'));
    for c in ['0', '9', '٣', '¾', ' ', '-'] {
        assert!(CharClass::IntegerText.contains(c));
    }
    for c in ['.', '+', 'e', 'a', '}', ',', '\t'] {
        assert!(!CharClass::IntegerText.contains(c));
    }
    for c in ['0', '9', '٣', '.', '-', '+', 'e'] {
        assert!(CharClass::RealText.contains(c));
    }
    for c in [' ', 'E', 'x', '}', ','] {
        assert!(!CharClass::RealText.contains(c));
    }
}

#[test]
fn numeric_characters_follow_the_standard_library() {
    let mut n: u32 = 0;
    while n <= 0x10FFFF {
        if let Some(c) = char::from_u32(n) {
            if c != ' ' && c != '-' {
                assert_eq!(CharClass::IntegerText.contains(c), c.is_numeric());
            }
        }
        n += 1;
    }
}

#[test]
fn chars_and_strings_convert_both_ways() {
    for s in SAMPLES {
        assert_eq!(chars_of(s), cs(s));
        assert_eq!(string_of(&cs(s)), s);
    }
    assert_eq!(chars_of("añ"), vec!['a', 'ñ']);
    assert_eq!(string_of(&['o', 'k']), "ok");
    assert_eq!(string_of(&[]), "");
}

#[test]
fn same_text_compares_contents() {
    assert!(same_text(&cs("add"), &cs("add")));
    assert!(same_text(&[], &[]));
    assert!(!same_text(&cs("add"), &cs("adx")));
    assert!(!same_text(&cs("add"), &cs("ad")));
    assert!(!same_text(&cs("ad"), &cs("add")));
}

#[test]
fn matches_at_positions() {
    let s = cs("abcabc");
    assert!(matches_at(&s, &cs("abc"), 0));
    assert!(matches_at(&s, &cs("abc"), 3));
    assert!(!matches_at(&s, &cs("abc"), 1));
    assert!(!matches_at(&s, &cs("abc"), 4));
    assert!(matches_at(&s, &[], 6));
    assert!(!matches_at(&s, &[], 7));
    assert!(!matches_at(&s, &cs("abcabcd"), 0));
    assert!(!matches_at(&s, &cs("c"), usize::MAX));
}

#[test]
fn find_gives_the_leftmost_occurrence() {
    assert_eq!(find(&cs("abcabc"), &cs("bc")), Some(1));
    assert_eq!(find(&cs("abcabc"), &cs("cb")), None);
    assert_eq!(find(&cs("aaa"), &cs("aa")), Some(0));
    assert_eq!(find(&cs(""), &cs("")), Some(0));
    assert_eq!(find(&cs("abc"), &cs("")), Some(0));
    assert_eq!(find(&cs(""), &cs("a")), None);
    assert_eq!(find(&cs("ab"), &cs("abc")), None);
    assert_eq!(find(&cs("naïve café"), &cs("é")), Some(9));
}

#[test]
fn rfind_gives_the_rightmost_occurrence() {
    assert_eq!(rfind(&cs("abcabc"), &cs("bc")), Some(4));
    assert_eq!(rfind(&cs("abcabc"), &cs("cb")), None);
    assert_eq!(rfind(&cs("aaa"), &cs("aa")), Some(1));
    assert_eq!(rfind(&cs(""), &cs("")), Some(0));
    assert_eq!(rfind(&cs("abc"), &cs("")), Some(3));
    assert_eq!(rfind(&cs(""), &cs("a")), None);
    assert_eq!(rfind(&cs("ab"), &cs("abc")), None);
}

#[test]
fn search_agrees_with_the_standard_library() {
    for s in SAMPLES {
        for p in PATTERNS {
            let first = s.find(p).map(|b| char_index(s, b));
            let last = s.rfind(p).map(|b| char_index(s, b));
            assert_eq!(find(&cs(s), &cs(p)), first, "find {:?} in {:?}", p, s);
            assert_eq!(rfind(&cs(s), &cs(p)), last, "rfind {:?} in {:?}", p, s);
            assert_eq!(contains(&cs(s), &cs(p)), s.contains(p));
        }
    }
}

#[test]
fn runs_are_counted_at_both_ends() {
    assert_eq!(leading_run(&cs("  x "), CharClass::Space), 2);
    assert_eq!(trailing_run(&cs("  x "), CharClass::Space), 1);
    assert_eq!(leading_run(&cs("   "), CharClass::Space), 3);
    assert_eq!(trailing_run(&cs("   "), CharClass::Space), 3);
    assert_eq!(leading_run(&cs(""), CharClass::Space), 0);
    assert_eq!(trailing_run(&cs(""), CharClass::Space), 0);
    assert_eq!(leading_run(&cs("::a:"), CharClass::Colon), 2);
    assert_eq!(trailing_run(&cs("::a:"), CharClass::Colon), 1);
    assert_eq!(leading_run(&cs(" -12 3, 4"), CharClass::IntegerText), 6);
    assert_eq!(leading_run(&cs("-1.5e+3}"), CharClass::RealText), 7);
    assert_eq!(leading_run(&cs("x12"), CharClass::IntegerText), 0);
}

#[test]
fn prefixes_and_suffixes_are_cut() {
    assert_eq!(text(skip_leading(&cs("::a:"), CharClass::Colon)), "a:");
    assert_eq!(text(skip_trailing(&cs("::a:"), CharClass::Colon)), "::a");
    assert_eq!(text(take_leading(&cs("12, 13"), CharClass::IntegerText)), "12");
    assert_eq!(text(take_leading(&cs("abc"), CharClass::IntegerText)), "");
    assert_eq!(text(skip_leading(&cs(":::"), CharClass::Colon)), "");
    assert_eq!(text(skip_trailing(&cs(":::"), CharClass::Colon)), "");
}

#[test]
fn trimming_agrees_with_the_standard_library() {
    for s in SAMPLES {
        assert_eq!(text(trim(&cs(s))), s.trim());
        assert_eq!(text(trim_start(&cs(s))), s.trim_start());
    }
    assert_eq!(text(trim(&cs(" \t a b \n"))), "a b");
    assert_eq!(text(trim_start(&cs(" \t a b \n"))), "a b \n");
}

#[test]
fn split_cuts_at_every_occurrence() {
    let parts: Vec<String> = split(&cs("1op\"2op\"3"), &cs("op\"")).iter().map(|p| text(p)).collect();
    assert_eq!(parts, vec!["1", "2", "3"]);
    let parts: Vec<String> = split(&cs("op\"op\""), &cs("op\"")).iter().map(|p| text(p)).collect();
    assert_eq!(parts, vec!["", "", ""]);
    let parts: Vec<String> = split(&cs("aaaa"), &cs("aa")).iter().map(|p| text(p)).collect();
    assert_eq!(parts, vec!["", "", ""]);
    let parts: Vec<String> = split(&cs("aaa"), &cs("aa")).iter().map(|p| text(p)).collect();
    assert_eq!(parts, vec!["", "a"]);
    let parts: Vec<String> = split(&cs("abc"), &cs("x")).iter().map(|p| text(p)).collect();
    assert_eq!(parts, vec!["abc"]);
    let parts: Vec<String> = split(&cs(""), &cs("x")).iter().map(|p| text(p)).collect();
    assert_eq!(parts, vec![""]);
}

#[test]
fn split_with_an_empty_pattern_cuts_nothing() {
    let parts: Vec<String> = split(&cs("abc"), &[]).iter().map(|p| text(p)).collect();
    assert_eq!(parts, vec!["abc"]);
}

#[test]
fn split_agrees_with_the_standard_library() {
    for s in SAMPLES {
        for p in PATTERNS {
            if !p.is_empty() {
                let expected: Vec<String> = s.split(p).map(|part| part.to_string()).collect();
                let parts: Vec<String> = split(&cs(s), &cs(p)).iter().map(|part| text(part)).collect();
                assert_eq!(parts, expected, "split {:?} at {:?}", s, p);
            }
        }
    }
}
