use isa_assembler::numeral::parse_unsigned;
use isa_assembler::text::{chars_of, is_whitespace_char, split_source, split_words, trim};

const SAMPLES: [&str; 14] = [
    "",
    " ",
    "ADD r1 r2 r3",
    "  ADD\tr1   r2\u{a0}r3  ",
    "\t\n x \r\n",
    "a",
    " a",
    "a ",
    "!LABEL loop:",
    "# comment",
    "\u{3000}wide\u{2003}space\u{85}",
    "one\u{200b}word",
    "é ü\u{1680}ß",
    "a\u{b}b\u{c}c",
];

#[test]
fn white_space_is_what_std_says() {
    for n in 0..=0x10ffffu32 {
        if let Some(c) = char::from_u32(n) {
            assert_eq!(is_whitespace_char(c), c.is_whitespace(), "U+{:04X}", n);
        }
    }
}

#[test]
fn chars_of_gives_every_character() {
    for s in SAMPLES {
        assert_eq!(chars_of(s), s.chars().collect::<Vec<char>>());
    }
}

#[test]
fn trim_is_what_std_says() {
    for s in SAMPLES {
        assert_eq!(trim(s), s.trim());
    }
    assert_eq!(trim("  ADD r1  "), "ADD r1");
    assert_eq!(trim(" \t "), "");
}

#[test]
fn split_words_is_what_std_says() {
    for s in SAMPLES {
        let expected: Vec<String> = s.split_whitespace().map(String::from).collect();
        assert_eq!(split_words(s), expected);
    }
    assert_eq!(split_words("  ADD\tr1   r2 "), vec!["ADD", "r1", "r2"]);
    assert!(split_words("   ").is_empty());
}

#[test]
fn split_source_is_lines_trimmed() {
    let texts = [
        "",
        "\n",
        "a",
        "a\n",
        "a\nb",
        "a\r\nb\r\n",
        "  a  \n\n  b\t\n",
        "\n\n\n",
        "a\rb\n",
        "ADD r1 r2 r3\n!LABEL x:\n# c\n\nGOTO x",
        "last\r",
    ];
    for t in texts {
        let expected: Vec<String> = t.lines().map(str::trim).map(String::from).collect();
        assert_eq!(split_source(t), expected, "{:?}", t);
    }
    assert_eq!(split_source(" a \n\nb"), vec!["a", "", "b"]);
}

#[test]
fn parse_unsigned_is_what_std_says() {
    let tokens = [
        "", "0", "7", "007", "31", "32", "255", "256", "65535", "65536", "4294967295",
        "4294967296", "99999999999999999999", "+", "+5", "++5", "-5", "-0", "5+", " 5", "5 ",
        "0x10", "1_000", "r1", "12a", "٣", "１", "+0", "+255", "+256",
    ];
    for t in tokens {
        assert_eq!(parse_unsigned(t, u8::MAX as u32), t.parse::<u8>().ok().map(u32::from));
        assert_eq!(parse_unsigned(t, u16::MAX as u32), t.parse::<u16>().ok().map(u32::from));
        assert_eq!(parse_unsigned(t, u32::MAX), t.parse::<u32>().ok());
    }
    assert_eq!(parse_unsigned("11", 255), Some(11));
    assert_eq!(parse_unsigned("32", 31), None);
    assert_eq!(parse_unsigned("31", 31), Some(31));
}
