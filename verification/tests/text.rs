use stoicdreams_timestamp::text::{
    append_chars, chars_of, contains_token, decimal_chars, is_whitespace, push_decimal,
    replace_token, string_of, trim_chars, zero_padded_chars,
};

fn samples() -> Vec<&'static str> {
    vec![
        "",
        "%",
        "%%",
        "%Y",
        "Y%",
        "%Y%Y",
        "%%Y",
        "%Y%",
        "% Y",
        "%y",
        "a%Yb%Yc",
        "%Y-%m-%d %H:%M:%S.%f",
        "  %D %H:%M:%S.%f  ",
        "\t\n x \r\n",
        " \u{a0}\u{1680}\u{2000}\u{200a}\u{2028}\u{2029}\u{202f}\u{205f}\u{3000}\u{85}",
        "\u{200b} \u{feff}",
        "\u{65e5}\u{4ed8} %Y\u{5e74}%m\u{6708}",
        "\u{1f600}%Y\u{1f600}",
    ]
}

#[test]
fn whitespace_is_what_std_calls_whitespace() {
    for c in '\u{0}'..=char::MAX {
        assert_eq!(is_whitespace(c), c.is_whitespace());
    }
}

#[test]
fn strings_and_characters_go_back_and_forth() {
    for sample in samples() {
        let chars = chars_of(sample);
        let expected: Vec<char> = sample.chars().collect();
        assert_eq!(chars, expected);
        assert_eq!(string_of(&chars), sample);
    }
    assert_eq!(string_of(&vec!['a', '\u{e9}', '\u{1f600}']), "a\u{e9}\u{1f600}");
}

#[test]
fn tokens_are_found_as_std_finds_them() {
    for sample in samples() {
        for letter in ['Y', 'm', 'D', 'd', 'H', 'M', 'S', 'f', '%', ' '] {
            let pattern = format!("%{}", letter);
            assert_eq!(
                contains_token(&chars_of(sample), letter),
                sample.contains(&pattern)
            );
        }
    }
    assert!(contains_token(&chars_of("%Y"), 'Y'));
    assert!(!contains_token(&chars_of("%Y"), 'y'));
    assert!(!contains_token(&chars_of("%"), 'Y'));
    assert!(!contains_token(&chars_of(""), 'Y'));
}

#[test]
fn tokens_are_replaced_as_std_replaces_them() {
    for sample in samples() {
        for letter in ['Y', 'm', 'D', 'H', '%', ' '] {
            for with in ["", "7", "2023", "%Y", "%"] {
                let pattern = format!("%{}", letter);
                let out = replace_token(&chars_of(sample), letter, &chars_of(with));
                assert_eq!(string_of(&out), sample.replace(&pattern, with));
            }
        }
    }
    let out = replace_token(&chars_of("a%Yb%Yc"), 'Y', &chars_of("12"));
    assert_eq!(string_of(&out), "a12b12c");
    let out = replace_token(&chars_of("%%%"), '%', &chars_of("x"));
    assert_eq!(string_of(&out), "x%");
}

#[test]
fn trimming_is_what_std_trims() {
    for sample in samples() {
        assert_eq!(string_of(&trim_chars(&chars_of(sample))), sample.trim());
    }
    assert_eq!(string_of(&trim_chars(&chars_of("  a  b  "))), "a  b");
    assert_eq!(string_of(&trim_chars(&chars_of(" \t\n"))), "");
    assert_eq!(string_of(&trim_chars(&chars_of("x"))), "x");
}

#[test]
fn decimals_are_written_as_std_writes_them() {
    for value in [
        0u128,
        1,
        9,
        10,
        11,
        99,
        100,
        101,
        999,
        1_000,
        2023,
        65_535,
        1_000_000_007,
        u64::MAX as u128,
        u128::MAX,
    ] {
        assert_eq!(string_of(&decimal_chars(value)), value.to_string());
        for width in [0usize, 1, 2, 3, 9, 40] {
            assert_eq!(
                string_of(&zero_padded_chars(value, width)),
                format!("{:0>width$}", value, width = width)
            );
        }
    }
    assert_eq!(string_of(&decimal_chars(0)), "0");
    assert_eq!(string_of(&zero_padded_chars(7, 2)), "07");
    assert_eq!(string_of(&zero_padded_chars(76, 3)), "076");
    assert_eq!(string_of(&zero_padded_chars(123, 2)), "123");
    assert_eq!(string_of(&zero_padded_chars(5, 9)), "000000005");
}

#[test]
fn characters_are_added_at_the_end() {
    let mut out = chars_of("ab");
    append_chars(&mut out, &chars_of("cd"));
    assert_eq!(string_of(&out), "abcd");
    append_chars(&mut out, &chars_of(""));
    assert_eq!(string_of(&out), "abcd");
    push_decimal(&mut out, 1_203);
    assert_eq!(string_of(&out), "abcd1203");
    push_decimal(&mut out, 0);
    assert_eq!(string_of(&out), "abcd12030");
}
