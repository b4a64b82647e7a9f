use estado_transparente::numeral::{
    classify_numeral, decimal_string, parse_field_i32, parse_i32, parse_i64, parse_unsigned,
    signed_decimal_string, NumeralClass,
};
use estado_transparente::order::str_lt;
use estado_transparente::text::{
    chars_of, decode_text, str_contains, str_ends_with, str_eq, str_starts_with, str_trim,
    string_of,
};

#[test]
fn chars_round_trip() {
    let text = "Dotación ñ €";
    assert_eq!(string_of(&chars_of(text)), text);
    assert_eq!(chars_of("añ").len(), 2);
}

#[test]
fn substring_search_agrees_with_std() {
    let hays = ["", "a", "presupuesto", "dipres-presupuesto-2024", "ñandú", "aaa", "abab"];
    let needles = ["", "a", "aa", "ab", "bab", "presupuesto", "2024", "ñ", "dú", "x"];
    for hay in hays {
        for needle in needles {
            assert_eq!(str_contains(hay, needle), hay.contains(needle), "{hay:?} {needle:?}");
            assert_eq!(str_starts_with(hay, needle), hay.starts_with(needle));
            assert_eq!(str_ends_with(hay, needle), hay.ends_with(needle));
            assert_eq!(str_eq(hay, needle), hay == needle);
        }
    }
}

#[test]
fn trim_agrees_with_std() {
    for text in ["", " ", "  a  ", "\t\nx y\r\n", "\u{a0}nbsp\u{2003}", "sin", " \u{feff}bom "] {
        assert_eq!(str_trim(text), text.trim(), "{text:?}");
    }
}

#[test]
fn decimal_rendering() {
    assert_eq!(decimal_string(0), "0");
    assert_eq!(decimal_string(7), "7");
    assert_eq!(decimal_string(10), "10");
    assert_eq!(decimal_string(1250000000000), "1250000000000");
    assert_eq!(decimal_string(u128::MAX), u128::MAX.to_string());
    assert_eq!(signed_decimal_string(-42), "-42");
    assert_eq!(signed_decimal_string(i64::MIN), i64::MIN.to_string());
    assert_eq!(signed_decimal_string(i64::MAX), i64::MAX.to_string());
}

#[test]
fn integer_parsing_agrees_with_std() {
    let texts = [
        "", "+", "-", "0", "-0", "+0", "007", "2024", "-2024", "+2024", "--1", "1-", " 1", "1 ",
        "1_000", "9223372036854775807", "9223372036854775808", "-9223372036854775808",
        "-9223372036854775809", "99999999999999999999999999999", "12a", "a", "1.5", "٣",
    ];
    for text in texts {
        assert_eq!(parse_i64(text), text.parse::<i64>().ok(), "{text:?}");
        assert_eq!(parse_i32(text), text.parse::<i32>().ok(), "{text:?}");
    }
}

#[test]
fn field_integers_read_hexadecimal_after_0x() {
    let read = |text: &str| parse_field_i32(text);
    assert_eq!(read("2024"), Some(2024));
    assert_eq!(read("0x7E8"), Some(2024));
    assert_eq!(read("0x7e8"), Some(2024));
    assert_eq!(read("0x-1"), Some(-1));
    assert_eq!(read("0x"), None);
    assert_eq!(read("0X7E8"), None);
    assert_eq!(read("7E8"), None);
    assert_eq!(read("0x80000000"), None);
    assert_eq!(read("0x7fffffff"), Some(i32::MAX));
    assert_eq!(read("2147483648"), None);
}

#[test]
fn field_integers_agree_with_the_delimited_reader() {
    for text in ["2024", "0x7E8", "0x-1", "0x", "-5", "+5", "abc", "", "0x+f", "00x1", "1e3"] {
        let record = csv::StringRecord::from(vec![text]);
        let expected: Option<i32> = record.deserialize::<(i32,)>(None).ok().map(|t| t.0);
        assert_eq!(parse_field_i32(text), expected, "{text:?}");
    }
}

#[test]
fn unsigned_parsing_agrees_with_std() {
    for text in ["", "+", "-1", "0", "+15", "1000", "18446744073709551615", "18446744073709551616", "1 ", "x"] {
        assert_eq!(parse_unsigned(text), text.parse::<u64>().ok(), "{text:?}");
    }
}

#[test]
fn numeral_grammar_agrees_with_std() {
    let texts = [
        "", "+", "-", ".", "0", "0.0", "-0", "+0.", ".0", "1", "1.", ".5", "1.5", "-1.5e3", "1e",
        "1e+", "1e+5", "1E-5", "e5", "1e5.0", "inf", "-inf", "+Infinity", "INF", "infinit", "nan",
        "NaN", "-nan", "nanx", "1_000", " 1", "1 ", "0x10", "1234.56", "1,5", "00012", "1e-400",
        "٣", "1..2", "--1", "+-1", "000", "0e0", "-.0e-0",
    ];
    for text in texts {
        let parsed: Option<f64> = text.parse().ok();
        let class = classify_numeral(text);
        assert_eq!(class != NumeralClass::Invalid, parsed.is_some(), "{text:?}");
    }
}

#[test]
fn numeral_zero_is_told_by_its_digits() {
    for text in ["0", "0.0", "-0", "+0.", ".0", "000", "0e0", "-.0e-0", "0e99"] {
        assert_eq!(classify_numeral(text), NumeralClass::Zero, "{text:?}");
    }
    for text in ["1", "0.1", "-5", "1e-3", "inf", "NaN", "10", "0.000001"] {
        assert_eq!(classify_numeral(text), NumeralClass::NonZero, "{text:?}");
    }
    for text in ["", "abc", "1e", "."] {
        assert_eq!(classify_numeral(text), NumeralClass::Invalid, "{text:?}");
    }
}

#[test]
fn text_order_agrees_with_std() {
    let texts = ["", "0", "00", "01", "1", "10", "2", "a", "ab", "b", "partida_01", "partida_1", "ñ", "z", "é"];
    for a in texts {
        for b in texts {
            assert_eq!(str_lt(a, b), a < b, "{a:?} {b:?}");
        }
    }
}

#[test]
fn bytes_decode_as_utf8_or_not_at_all() {
    assert_eq!(decode_text("año €".as_bytes()), Some("año €"));
    assert_eq!(decode_text(b""), Some(""));
    assert_eq!(decode_text(&[0xff, 0xfe]), None);
    assert_eq!(decode_text(&[0xc3]), None);
    assert_eq!(decode_text(&[0xed, 0xa0, 0x80]), None);
}

#[test]
fn lines_are_counted_by_line_feeds() {
    use_line("a\nb\n\nc", Some(0), 1);
    use_line("a\nb\n\nc", Some(2), 2);
    use_line("a\nb\n\nc", Some(3), 4);
    use_line("a\nb\n\nc", Some(4), 4);
    use_line("a\nb\n\nc", Some(5), 4);
    use_line("a\nb\n\nc", Some(99), 4);
    use_line("a\r\n\r\nb", Some(1), 3);
    use_line("ñ\nb", Some(3), 2);
    use_line("", Some(0), 1);
    use_line("\n\n", Some(0), 3);
    use_line("a\nb", None, 0);
}

fn use_line(text: &str, offset: Option<u64>, expected: u128) {
    assert_eq!(
        estado_transparente::delimited::line_of_record(text, offset),
        expected,
        "{text:?} {offset:?}"
    );
}
