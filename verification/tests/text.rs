use echo_cli::text::{
    after_word, ascii_lower, byte_len, char_byte_len, chars_of, contains, decimal, ends_with,
    first_word, is_one_of, is_white_space, join, lines_of, pad_end, pad_start, parse_usize,
    repeat_char, same_text, shortened, split_lines, starts_with, string_of, strip_leading,
    strip_prefix, text2, text3, text4, text5, trim, trim_end, trim_start,
};

const SAMPLES: [&str; 16] = [
    "",
    " ",
    "a",
    " a",
    "a ",
    "  a b  ",
    "\tmoon\u{3000}halo\u{3000}",
    "月光 halo",
    "\u{2003}x\u{2003}",
    "a\nb",
    "a\r\nb\r\n",
    "\n",
    "\n\n",
    "x\r",
    "x\r\r\n",
    "first\n\nlast",
];

#[test]
fn white_space_is_what_std_says_of_every_character() {
    for c in '\0'..=char::MAX {
        assert_eq!(is_white_space(c), c.is_whitespace(), "{:?}", c);
    }
}

#[test]
fn trimming_agrees_with_std() {
    for sample in SAMPLES {
        assert_eq!(trim(sample), sample.trim());
        assert_eq!(trim_start(sample), sample.trim_start());
        assert_eq!(trim_end(sample), sample.trim_end());
    }
}

#[test]
fn trimming_again_changes_nothing() {
    for sample in SAMPLES {
        assert_eq!(trim(trim(sample)), trim(sample));
    }
}

#[test]
fn lines_agree_with_std() {
    for sample in SAMPLES {
        let expected: Vec<String> = sample.lines().map(str::to_string).collect();
        assert_eq!(split_lines(sample), expected, "{:?}", sample);
    }
}

#[test]
fn numbers_are_read_as_std_reads_them() {
    for sample in [
        "", "0", "7", "007", "+7", "-7", "+", "1a", " 1", "18446744073709551615",
        "18446744073709551616", "99999999999999999999999", "+18446744073709551615", "１",
    ] {
        assert_eq!(parse_usize(sample), sample.parse::<usize>().ok(), "{:?}", sample);
    }
}

#[test]
fn decimals_are_written_as_std_writes_them() {
    for n in [0, 1, 9, 10, 99, 100, 12_345, u64::MAX as u128, u128::MAX] {
        assert_eq!(decimal(n), n.to_string());
    }
}

#[test]
fn characters_and_texts_convert_both_ways() {
    for sample in SAMPLES {
        let chars = chars_of(sample);
        assert_eq!(chars, sample.chars().collect::<Vec<char>>());
        assert_eq!(string_of(&chars), sample);
        assert_eq!(byte_len(sample), sample.len());
    }
    for c in ['a', 'é', '月', '🎵', '\u{7f}', '\u{80}', '\u{7ff}', '\u{800}', '\u{ffff}', '\u{10000}'] {
        assert_eq!(char_byte_len(c), c.len_utf8());
    }
}

#[test]
fn searching_in_texts_agrees_with_std() {
    for sample in SAMPLES {
        for needle in ["", "a", "halo", "月", "b", "\n", "a b"] {
            assert_eq!(starts_with(sample, needle), sample.starts_with(needle));
            assert_eq!(ends_with(sample, needle), sample.ends_with(needle));
            assert_eq!(contains(sample, needle), sample.contains(needle));
            assert_eq!(strip_prefix(sample, needle), sample.strip_prefix(needle));
            assert_eq!(same_text(sample, needle), sample == needle);
        }
    }
    assert!(is_one_of("b", &["a", "b"]));
    assert!(!is_one_of("c", &["a", "b"]));
}

#[test]
fn words_are_parted_at_white_space() {
    assert_eq!(first_word("play moon halo"), "play");
    assert_eq!(first_word("play"), "play");
    assert_eq!(after_word("play moon halo"), " moon halo");
    assert_eq!(after_word("play"), "");
    assert_eq!(strip_leading("/:play", &['/', ':']), "play");
    assert_eq!(strip_leading("play/", &['/', ':']), "play/");
}

#[test]
fn texts_are_put_together() {
    assert_eq!(text2("a", "b"), "ab");
    assert_eq!(text3("a", "b", "c"), "abc");
    assert_eq!(text4("a", "b", "c", "d"), "abcd");
    assert_eq!(text5("a", "b", "c", "d", "e"), "abcde");
    assert_eq!(repeat_char('-', 3), "---");
    assert_eq!(lines_of(&["a", "b"]), vec!["a".to_string(), "b".to_string()]);
    assert_eq!(join(&["a", "b", "c"], " / "), "a / b / c");
    assert_eq!(join(&[], ", "), "");
    assert_eq!(ascii_lower("MoOn É"), "MoOn É".to_ascii_lowercase());
}

#[test]
fn padding_agrees_with_the_format_width() {
    for sample in ["", "a", "月光", "long text here"] {
        assert_eq!(pad_end(sample, 6), format!("{:<6}", sample));
        assert_eq!(pad_start(sample, 6, ' '), format!("{:>6}", sample));
    }
    assert_eq!(pad_start("7", 2, '0'), "07");
}

#[test]
fn shortened_texts_fit() {
    assert_eq!(shortened("abcdef", 4), "a...");
    assert_eq!(shortened("abc", 4), "abc");
    for width in 0..10 {
        for sample in SAMPLES {
            let shorter = shortened(sample, width);
            assert!(
                shorter.chars().count() <= width,
                "{:?} in {}",
                sample,
                width
            );
        }
    }
}
