use yandex_music_likes_to_evernote::double::{order_key, round_to_u64, to_nearest_double};
use yandex_music_likes_to_evernote::escape::{escape_quotes, replace_plus};
use yandex_music_likes_to_evernote::json::{
    deserialize_i64_or_string, number_or_string_to_string, optional_u128_from_number_or_string,
    FieldError, JsonNumber, JsonValue,
};
use yandex_music_likes_to_evernote::text::{
    ascii_lowercase, decimal_string, has_prefix, hex_string, is_ascii_alphanumeric, is_blank,
    is_control, is_white_space, join, parse_i64, parse_unsigned, split_commas, split_words, trim,
};
use yandex_music_likes_to_evernote::timestamp::{Timestamp, FIRST_SECOND, LAST_SECOND};

fn all_chars() -> Vec<char> {
    (0..=0x10ffff_u32).filter_map(char::from_u32).collect()
}

#[test]
fn character_classes_are_those_of_unicode() {
    for c in all_chars() {
        assert_eq!(is_white_space(c), c.is_whitespace(), "{c:?}");
        assert_eq!(is_control(c), c.is_control(), "{c:?}");
        assert_eq!(is_ascii_alphanumeric(c), c.is_ascii_alphanumeric(), "{c:?}");
    }
}

const SAMPLES: [&str; 12] = [
    "", " ", "a", " a ", "\u{3000}a b\t\u{a0}", ",", "a,b", ",a,,b,", "ABC xyz É", "+1",
    "\u{85}\u{2028}x\u{200b}", "  many   words here ",
];

#[test]
fn trimming_and_splitting_agree_with_std() {
    for s in SAMPLES {
        assert_eq!(trim(s), s.trim());
        assert_eq!(is_blank(s), s.trim().is_empty());
        assert_eq!(split_commas(s), s.split(',').collect::<Vec<_>>());
        assert_eq!(split_words(s), s.split_whitespace().collect::<Vec<_>>());
        assert_eq!(ascii_lowercase(s), s.to_ascii_lowercase());
        for prefix in SAMPLES {
            assert_eq!(has_prefix(s, prefix), s.starts_with(prefix));
        }
    }
    let parts = vec!["a".to_string(), String::new(), "b".to_string()];
    assert_eq!(join(&parts, ", "), "a, , b");
    assert_eq!(join(&Vec::new(), ", "), "");
}

#[test]
fn numbers_are_written_and_read_as_std_does() {
    for n in [0, 1, 9, 10, 11, 99, 100, 12345, u64::MAX as u128, u128::MAX] {
        assert_eq!(decimal_string(n), n.to_string());
        assert_eq!(parse_unsigned(&n.to_string(), u128::MAX), Some(n));
    }
    for s in [
        "", "+", "-", "0", "-0", "+0", "007", "+7", "-7", "++7", "1a", "٣", " 1", "1 ",
        "9223372036854775807", "9223372036854775808", "-9223372036854775808",
        "-9223372036854775809", "18446744073709551615", "18446744073709551616",
    ] {
        assert_eq!(parse_i64(s), s.parse::<i64>().ok(), "{s}");
        assert_eq!(
            parse_unsigned(s, u64::MAX as u128),
            s.parse::<u64>().ok().map(|n| n as u128),
            "{s}"
        );
        assert_eq!(parse_unsigned(s, u128::MAX), s.parse::<u128>().ok(), "{s}");
    }
    assert_eq!(hex_string(&[0x00, 0x0f, 0xa0, 0xff]), "000fa0ff");
}

#[test]
fn doubles_are_ordered_and_rounded_as_std_does() {
    let values = [
        0.0, -0.0, 0.3, 0.5, 0.49999999999999994, 1.0, 1.5, 2.5, 123.4, 0.8, 0.79, 1e15, 1e19,
        1e20, 4503599627370495.5, 9007199254740993.0, 1.8446744073709552e19, f64::MAX,
        f64::MIN_POSITIVE, 5e-324, f64::INFINITY, f64::NEG_INFINITY, f64::NAN, -f64::NAN, -3.5,
    ];
    for x in values {
        for y in values {
            assert_eq!(
                order_key(x.to_bits()).cmp(&order_key(y.to_bits())),
                x.total_cmp(&y),
                "{x} {y}"
            );
        }
        if x.is_finite() && x > 0.0 {
            assert_eq!(round_to_u64(x.to_bits()), x.round() as u64, "{x}");
        }
    }
    let mut x = 0.001;
    while x < 1e25 {
        assert_eq!(round_to_u64(f64::to_bits(x)), f64::round(x) as u64, "{x}");
        x *= 1.37;
    }
    for shift in 50..64u32 {
        for offset in 0..70u64 {
            let n = (1u64 << shift).wrapping_add(offset * 37);
            assert_eq!(to_nearest_double(n), n as f64 as u128, "{n}");
            assert_eq!(to_nearest_double(n - 1), (n - 1) as f64 as u128, "{n}");
        }
    }
    assert_eq!(to_nearest_double(u64::MAX), u64::MAX as f64 as u128);
}

#[test]
fn escapes_quotes_and_plus_signs() {
    assert_eq!(escape_quotes("a\"b\\c"), "a\\\"b\\\\c");
    assert_eq!(replace_plus("a+b++"), "a%20b%20%20");
}

fn number(n: i64) -> JsonValue {
    JsonValue::Number(JsonNumber {
        as_i64: Some(n),
        as_u64: u64::try_from(n).ok(),
        notation: n.to_string(),
    })
}

fn fraction() -> JsonValue {
    JsonValue::Number(JsonNumber { as_i64: None, as_u64: None, notation: "1.5".to_string() })
}

fn text(s: &str) -> JsonValue {
    JsonValue::Text(s.to_string())
}

#[test]
fn reads_integers_in_either_form() {
    assert_eq!(deserialize_i64_or_string(&number(-3)), -3);
    assert_eq!(deserialize_i64_or_string(&text("42")), 42);
    assert_eq!(deserialize_i64_or_string(&text("4.2")), 0);
    assert_eq!(deserialize_i64_or_string(&fraction()), 0);
    assert_eq!(deserialize_i64_or_string(&JsonValue::Null), 0);
    assert_eq!(deserialize_i64_or_string(&JsonValue::Other("[]".to_string())), 0);
}

#[test]
fn reads_ids_in_either_form() {
    assert_eq!(number_or_string_to_string(text("x")), Ok("x".to_string()));
    assert_eq!(number_or_string_to_string(number(12)), Ok("12".to_string()));
    assert_eq!(number_or_string_to_string(fraction()), Ok("1.5".to_string()));
    assert_eq!(
        number_or_string_to_string(JsonValue::Null).expect_err("null").message(),
        "expected string or number, got null"
    );
    assert_eq!(
        number_or_string_to_string(JsonValue::Other("true".to_string())),
        Err(FieldError::NotTextOrNumber { value: "true".to_string() })
    );
}

#[test]
fn reads_optional_numbers_in_either_form() {
    let read = optional_u128_from_number_or_string;
    assert_eq!(read(None), Ok(None));
    assert_eq!(read(Some(JsonValue::Null)), Ok(None));
    assert_eq!(read(Some(number(7))), Ok(Some(7)));
    assert_eq!(read(Some(text(" "))), Ok(None));
    assert_eq!(read(Some(text("+45000"))), Ok(Some(45_000)));
    assert_eq!(read(Some(number(-7))).expect_err("negative").message(), "expected unsigned integer");
    assert_eq!(read(Some(fraction())), Err(FieldError::NotUnsigned));
    assert_eq!(
        read(Some(JsonValue::Other("[1]".to_string()))).expect_err("list").message(),
        "expected string, number, or null, got [1]"
    );
    for s in ["12a", "-1", "+", " 1", "340282366920938463463374607431768211456",
        "340282366920938463463374607431768211455", "999999999999999999999999999999999999999x",
        "99999999999999999999999999999999999999999x", "0000000000000000000000000000000000000000001"]
    {
        match s.parse::<u128>() {
            Ok(n) => assert_eq!(read(Some(text(s))), Ok(Some(n))),
            Err(error) => assert_eq!(
                read(Some(text(s))).expect_err("invalid").message(),
                error.to_string(),
                "{s}"
            ),
        }
    }
}

#[test]
fn timestamps_are_those_of_the_calendar() {
    let time = Timestamp::new(1_704_164_645, 0).expect("valid");
    assert_eq!(time.to_rfc3339(), "2024-01-02T03:04:05+00:00");
    assert_eq!((time.seconds(), time.nanos()), (1_704_164_645, 0));
    let later = Timestamp::new(1_704_164_645, 5).expect("valid");
    assert!(time.not_after(&later) && !later.not_after(&time) && time.not_after(&time));
    assert_eq!(later.to_rfc3339(), "2024-01-02T03:04:05.000000005+00:00");

    assert_eq!(chrono::DateTime::<chrono::Utc>::MIN_UTC.timestamp(), FIRST_SECOND);
    assert_eq!(chrono::DateTime::<chrono::Utc>::MAX_UTC.timestamp(), LAST_SECOND);
    for seconds in [FIRST_SECOND, LAST_SECOND, 0, -1, 59, i64::MIN, i64::MAX, FIRST_SECOND - 1,
        LAST_SECOND + 1]
    {
        for nanos in [0, 999_999_999, 1_000_000_000, 1_999_999_999, 2_000_000_000, u32::MAX] {
            let valid = (FIRST_SECOND..=LAST_SECOND).contains(&seconds)
                && nanos < 2_000_000_000
                && (nanos < 1_000_000_000 || seconds.rem_euclid(60) == 59);
            assert_eq!(Timestamp::new(seconds, nanos).is_some(), valid, "{seconds} {nanos}");
        }
    }
}
