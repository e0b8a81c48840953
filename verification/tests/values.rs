//! Bytes, numbers and text, held against the standard library where it has the same notion.

use moonblokz_configuration::bytes::{narrow_u16, narrow_u32, narrow_u8, read_le, write_le};
use moonblokz_configuration::hex::{hex_dump, read_key, KeyError};
use moonblokz_configuration::numbers::{parse_number, parse_radix, push_decimal, push_hex_byte};
use moonblokz_configuration::statements::strip_comment;
use moonblokz_configuration::text::{
    characters, fields, is_whitespace, lines, name_end, position, push_all, same,
    same_ignoring_case, string_of, trim,
};

const SAMPLES: [&str; 22] = [
    "",
    " ",
    "a",
    "\n",
    "\r\n",
    "\r",
    "a\nb",
    "a\r\nb\r\n",
    "a\n\nb\n\n",
    "a\r\r\nb",
    "last line\r",
    "  both sides \t ",
    "\u{3000}wide\u{2028}",
    "\u{200B}zero width",
    "one, two,,three  four",
    ",",
    "GETPARAM @a, 0 ; comment",
    "é = ß # ü",
    "\u{85}\u{A0}x\u{1680}",
    "0x10",
    "+7",
    "mixed\u{0B}tabs\u{0C}here",
];

fn text_of(chars: &[char]) -> String {
    chars.iter().collect()
}

#[test]
fn whitespace_is_unicode_whitespace() {
    for point in 0..=0x10FFFFu32 {
        if let Some(c) = char::from_u32(point) {
            assert_eq!(is_whitespace(c), c.is_whitespace(), "at {point:#x}");
        }
    }
}

#[test]
fn characters_and_strings_are_inverse() {
    for sample in SAMPLES {
        let chars = characters(sample);
        assert_eq!(chars, sample.chars().collect::<Vec<char>>());
        assert_eq!(string_of(&chars), sample);
        let mut out = "before ".to_string();
        push_all(&mut out, &chars);
        assert_eq!(out, format!("before {sample}"));
        for other in SAMPLES {
            assert_eq!(same(&chars, &characters(other)), sample == other);
            assert_eq!(
                same_ignoring_case(&chars, &characters(other)),
                sample.eq_ignore_ascii_case(other)
            );
        }
    }
    assert!(same_ignoring_case(
        &characters("getParam"),
        &characters("GETPARAM")
    ));
    assert!(!same_ignoring_case(&characters("É"), &characters("é")));
}

#[test]
fn trimming_and_lines_are_those_of_the_standard_library() {
    for sample in SAMPLES {
        let chars = characters(sample);
        assert_eq!(text_of(trim(&chars)), sample.trim());
        let split: Vec<String> = lines(&chars).into_iter().map(text_of).collect();
        let expected: Vec<String> = sample.lines().map(|line| line.to_string()).collect();
        assert_eq!(split, expected, "lines of {sample:?}");
    }
}

#[test]
fn fields_names_and_positions() {
    for sample in SAMPLES {
        let chars = characters(sample);
        let split: Vec<String> = fields(&chars, false).into_iter().map(text_of).collect();
        let expected: Vec<String> = sample.split_whitespace().map(|f| f.to_string()).collect();
        assert_eq!(split, expected);
        let split: Vec<String> = fields(&chars, true).into_iter().map(text_of).collect();
        let expected: Vec<String> = sample
            .split(',')
            .flat_map(|part| part.split_whitespace())
            .map(|f| f.to_string())
            .collect();
        assert_eq!(split, expected);
        assert_eq!(
            position(&chars, 'b'),
            chars.iter().position(|c| *c == 'b').unwrap_or(chars.len())
        );
        assert_eq!(
            text_of(strip_comment(&chars)),
            sample.split('#').next().unwrap_or("")
        );
    }
    assert_eq!(name_end(&characters("vote_scale2, 0")), 11);
    assert_eq!(name_end(&characters("é")), 0);
    assert_eq!(name_end(&characters("ALL_of_1t")), 9);
}

#[test]
fn numbers_are_those_of_the_standard_library() {
    let samples = [
        "",
        "0",
        "7",
        "+7",
        "-7",
        "+",
        "++1",
        "00012",
        "18446744073709551615",
        "18446744073709551616",
        "99999999999999999999999999",
        "12a",
        "1 2",
        "٣",
        "1_000",
        "0x",
        "0xff",
        "0XFF",
        "0x+f",
        "0xg",
        "0xFFFFFFFFFFFFFFFF",
        "0x10000000000000000",
        " 42\t",
        " 0x2A ",
        "x10",
    ];
    for sample in samples {
        let text = sample.trim();
        let expected = match text.strip_prefix("0x").or_else(|| text.strip_prefix("0X")) {
            Some(hex) => u64::from_str_radix(hex, 16).ok(),
            None => text.parse::<u64>().ok(),
        };
        assert_eq!(parse_number(&characters(sample)), expected, "{sample:?}");
        for radix in [2u64, 8, 10, 16] {
            assert_eq!(
                parse_radix(&characters(sample), radix),
                u64::from_str_radix(sample, radix as u32).ok(),
                "{sample:?} in radix {radix}"
            );
        }
    }
}

#[test]
fn decimal_and_hexadecimal_are_written_as_the_standard_library_does() {
    for value in [0u64, 9, 10, 99, 100, 20_000, u32::MAX as u64, u64::MAX] {
        let mut out = "=".to_string();
        push_decimal(&mut out, value);
        assert_eq!(out, format!("={value}"));
        assert_eq!(parse_number(&characters(&out[1..])), Some(value));
    }
    for byte in 0..=255u8 {
        let mut out = String::new();
        push_hex_byte(&mut out, byte);
        assert_eq!(out, format!("{byte:02X}"));
    }
}

#[test]
fn little_endian_values_are_written_and_read_back() {
    for value in [0u64, 1, 255, 256, 0x0102_0304_0506_0708, u64::MAX] {
        assert_eq!(write_le(value, 8), value.to_le_bytes().to_vec());
        assert_eq!(read_le(&value.to_le_bytes()), value);
        for width in 0..8usize {
            let bytes = write_le(value, width);
            assert_eq!(bytes, value.to_le_bytes()[..width].to_vec());
            assert_eq!(read_le(&bytes), value % (1u64 << (8 * width)));
            assert_eq!(write_le(read_le(&bytes), width), bytes);
        }
    }
    assert_eq!(read_le(&[]), 0);
    assert_eq!(read_le(&[1, 2, 3, 4, 5, 6, 7, 8, 9]), 0x0807_0605_0403_0201);
}

#[test]
fn narrowing_saturates() {
    assert_eq!(narrow_u8(255), 255);
    assert_eq!(narrow_u8(256), 255);
    assert_eq!(narrow_u16(65_535), 65_535);
    assert_eq!(narrow_u16(65_536), 65_535);
    assert_eq!(narrow_u32(4_294_967_295), u32::MAX);
    assert_eq!(narrow_u32(u64::MAX), u32::MAX);
    assert_eq!(narrow_u32(7), 7);
}

#[test]
fn a_key_is_read_from_hexadecimal() {
    assert_eq!(read_key("00 fF\n7a", 3), Ok(vec![0, 255, 0x7A]));
    assert_eq!(read_key("+f", 1), Ok(vec![15]));
    assert_eq!(read_key(" \n", 0), Ok(vec![]));
    assert_eq!(read_key("00ff", 3), Err(KeyError::WrongLength(6, 4)));
    assert_eq!(read_key("é", 2), Err(KeyError::WrongLength(4, 2)));
    assert_eq!(read_key("0g", 1), Err(KeyError::NotHex("0g".to_string())));
    assert_eq!(read_key("-1", 1), Err(KeyError::NotHex("-1".to_string())));
    assert_eq!(read_key("é", 1), Err(KeyError::NotHex("é".to_string())));
    assert_eq!(read_key("0é0", 2), Err(KeyError::SplitCharacter));
    assert_eq!(read_key("€0", 2), Err(KeyError::SplitCharacter));
    assert_eq!(
        KeyError::WrongLength(64, 3).rendered(),
        "expected 64 hex digits, found 3"
    );
    assert_eq!(
        KeyError::NotHex("xy".to_string()).rendered(),
        "`xy` is not hex"
    );
    assert_eq!(
        KeyError::SplitCharacter.rendered(),
        "a character does not end where a pair of bytes ends"
    );
}

#[test]
fn a_dump_is_read_back_as_a_key() {
    assert_eq!(hex_dump(&[]), "");
    assert_eq!(hex_dump(&[7]), "07");
    let bytes = [0u8, 1, 0xAB, 255];
    assert_eq!(hex_dump(&bytes), "00 01 AB FF");
    assert_eq!(read_key(&hex_dump(&bytes), 4), Ok(bytes.to_vec()));
}
