use arcutils::text::{
    chars_of, find_char, is_whitespace, joined, same_text, split_slice, split_text, string_of,
    trim_slice,
};

fn chars(s: &str) -> Vec<char> {
    s.chars().collect()
}

const SAMPLES: [&str; 14] = [
    "",
    " ",
    "a",
    " a",
    "a ",
    "  a b  ",
    "\t\n\r a \u{b}\u{c}",
    "\u{85}\u{a0}x\u{1680}\u{2000}",
    "\u{200a}y\u{2028}\u{2029}\u{202f}\u{205f}\u{3000}",
    "\u{200b}z\u{200b}",
    "   \t  ",
    "\u{feff}bom",
    "é è",
    " = ",
];

#[test]
fn white_space_is_the_unicode_property() {
    let mut seen = 0;
    for code in 0..=0x10FFFFu32 {
        if let Some(c) = char::from_u32(code) {
            assert_eq!(is_whitespace(c), c.is_whitespace(), "U+{code:04X}");
            if is_whitespace(c) {
                seen += 1;
            }
        }
    }
    assert_eq!(seen, 25);
}

#[test]
fn trim_takes_white_space_from_both_ends() {
    for s in SAMPLES {
        let v = chars(s);
        let trimmed: String = trim_slice(&v).iter().collect();
        assert_eq!(trimmed, s.trim(), "{s:?}");
    }
    assert_eq!(trim_slice(&chars("  a b  ")), &['a', ' ', 'b']);
    assert_eq!(trim_slice(&chars(" \t ")), &[] as &[char]);
}

#[test]
fn find_char_gives_the_first_position_or_the_length() {
    assert_eq!(find_char(&chars("a=b=c"), '='), 1);
    assert_eq!(find_char(&chars("=ab"), '='), 0);
    assert_eq!(find_char(&chars("ab="), '='), 2);
    assert_eq!(find_char(&chars("abc"), '='), 3);
    assert_eq!(find_char(&chars(""), '='), 0);
    assert_eq!(find_char(&chars("é=è"), '='), 1);
}

#[test]
fn split_cuts_at_every_separator() {
    for (s, sep) in [
        ("", ' '),
        ("a", ' '),
        ("a b", ' '),
        (" a  b ", ' '),
        ("   ", ' '),
        ("a\nb\n", '\n'),
        ("\n", '\n'),
        ("a\n\nb", '\n'),
        ("no separator", '\n'),
        ("é è ê", ' '),
    ] {
        let expected: Vec<String> = s.split(sep).map(|p| p.to_string()).collect();
        assert_eq!(split_text(s, sep), expected, "{s:?}");
        let v = chars(s);
        let pieces: Vec<String> = split_slice(&v, sep).iter().map(|p| p.iter().collect()).collect();
        assert_eq!(pieces, expected, "{s:?}");
    }
    assert_eq!(split_text("a  b", ' '), vec!["a", "", "b"]);
    assert_eq!(split_text("", ' '), vec![""]);
}

#[test]
fn strings_and_characters_convert_both_ways() {
    for s in SAMPLES {
        assert_eq!(chars_of(s), chars(s));
        assert_eq!(string_of(&chars(s)), s);
    }
    assert_eq!(chars_of("aé\u{1F600}"), vec!['a', 'é', '\u{1F600}']);
    assert_eq!(string_of(&['a', 'b', 'c']), "abc");
    assert_eq!(string_of(&[]), "");
}

#[test]
fn same_text_compares_characters() {
    assert!(same_text("", ""));
    assert!(same_text("abc", "abc"));
    assert!(!same_text("abc", "abd"));
    assert!(!same_text("abc", "ab"));
    assert!(!same_text("abc", "ABC"));
}

#[test]
fn joined_puts_the_second_text_after_the_first() {
    assert_eq!(joined("riscv64-unknown-elf", "as"), "riscv64-unknown-elfas");
    assert_eq!(joined("", "x"), "x");
    assert_eq!(joined("x", ""), "x");
    assert_eq!(joined("", ""), "");
}
