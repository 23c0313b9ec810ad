use mood_store::decimal::{format_mood, parse_mood, ParseError};

#[test]
fn formats_small_moods() {
    assert_eq!(format_mood(1), "1");
    assert_eq!(format_mood(3), "3");
    assert_eq!(format_mood(5), "5");
}

#[test]
fn formats_zero_as_one_digit() {
    assert_eq!(format_mood(0), "0");
}

#[test]
fn formats_several_digits_most_significant_first() {
    assert_eq!(format_mood(10), "10");
    assert_eq!(format_mood(42), "42");
    assert_eq!(format_mood(1005), "1005");
    assert_eq!(format_mood(120_340), "120340");
}

#[test]
fn formats_negative_moods_with_a_minus_sign() {
    assert_eq!(format_mood(-1), "-1");
    assert_eq!(format_mood(-70), "-70");
}

#[test]
fn formats_the_ends_of_the_range() {
    assert_eq!(format_mood(i32::MAX), "2147483647");
    assert_eq!(format_mood(i32::MIN), "-2147483648");
}

#[test]
fn formats_as_the_standard_library_does() {
    let mut mood: i32 = i32::MIN;
    loop {
        assert_eq!(format_mood(mood), mood.to_string());
        match mood.checked_add(7_654_321) {
            Some(next) => mood = next,
            None => break,
        }
    }
    for mood in -1100..1100 {
        assert_eq!(format_mood(mood), mood.to_string());
    }
}

#[test]
fn parses_plain_numerals() {
    assert_eq!(parse_mood("3"), Ok(3));
    assert_eq!(parse_mood("0"), Ok(0));
    assert_eq!(parse_mood("42"), Ok(42));
    assert_eq!(parse_mood("-17"), Ok(-17));
}

#[test]
fn parses_a_leading_plus_sign() {
    assert_eq!(parse_mood("+3"), Ok(3));
    assert_eq!(parse_mood("+0"), Ok(0));
}

#[test]
fn parses_leading_zeros() {
    assert_eq!(parse_mood("007"), Ok(7));
    assert_eq!(parse_mood("-0"), Ok(0));
    assert_eq!(parse_mood("-000012"), Ok(-12));
    assert_eq!(parse_mood("00000000000000000002147483647"), Ok(i32::MAX));
}

#[test]
fn parses_the_ends_of_the_range() {
    assert_eq!(parse_mood("2147483647"), Ok(i32::MAX));
    assert_eq!(parse_mood("-2147483648"), Ok(i32::MIN));
}

#[test]
fn empty_text_is_empty() {
    assert_eq!(parse_mood(""), Err(ParseError::Empty));
}

#[test]
fn a_sign_alone_is_an_invalid_digit() {
    assert_eq!(parse_mood("-"), Err(ParseError::InvalidDigit));
    assert_eq!(parse_mood("+"), Err(ParseError::InvalidDigit));
}

#[test]
fn text_that_is_no_number_is_an_invalid_digit() {
    assert_eq!(parse_mood("happy"), Err(ParseError::InvalidDigit));
    assert_eq!(parse_mood("3.5"), Err(ParseError::InvalidDigit));
    assert_eq!(parse_mood("1_000"), Err(ParseError::InvalidDigit));
    assert_eq!(parse_mood("--3"), Err(ParseError::InvalidDigit));
    assert_eq!(parse_mood("+-3"), Err(ParseError::InvalidDigit));
    assert_eq!(parse_mood("3-"), Err(ParseError::InvalidDigit));
    assert_eq!(parse_mood("0x10"), Err(ParseError::InvalidDigit));
}

#[test]
fn white_space_is_an_invalid_digit() {
    assert_eq!(parse_mood(" 3"), Err(ParseError::InvalidDigit));
    assert_eq!(parse_mood("3 "), Err(ParseError::InvalidDigit));
    assert_eq!(parse_mood("3\n"), Err(ParseError::InvalidDigit));
    assert_eq!(parse_mood("\t"), Err(ParseError::InvalidDigit));
}

#[test]
fn digits_of_other_scripts_are_invalid_digits() {
    assert_eq!(parse_mood("\u{0663}"), Err(ParseError::InvalidDigit));
    assert_eq!(parse_mood("1\u{00e9}"), Err(ParseError::InvalidDigit));
    assert_eq!(parse_mood("\u{ff13}"), Err(ParseError::InvalidDigit));
}

#[test]
fn one_past_the_largest_is_a_positive_overflow() {
    assert_eq!(parse_mood("2147483648"), Err(ParseError::PosOverflow));
    assert_eq!(parse_mood("+2147483648"), Err(ParseError::PosOverflow));
    assert_eq!(parse_mood("99999999999999999999999999"), Err(ParseError::PosOverflow));
}

#[test]
fn one_past_the_smallest_is_a_negative_overflow() {
    assert_eq!(parse_mood("-2147483649"), Err(ParseError::NegOverflow));
    assert_eq!(parse_mood("-99999999999999999999999999"), Err(ParseError::NegOverflow));
}

#[test]
fn what_goes_wrong_first_decides_the_error() {
    assert_eq!(parse_mood("99999999999x"), Err(ParseError::PosOverflow));
    assert_eq!(parse_mood("-99999999999x"), Err(ParseError::NegOverflow));
    assert_eq!(parse_mood("2147483647x"), Err(ParseError::InvalidDigit));
    assert_eq!(parse_mood("-2147483648x"), Err(ParseError::InvalidDigit));
    assert_eq!(parse_mood("21474836470x"), Err(ParseError::PosOverflow));
    assert_eq!(parse_mood("x99999999999"), Err(ParseError::InvalidDigit));
}

#[test]
fn each_error_has_its_sentence() {
    assert_eq!(ParseError::Empty.message(), "cannot parse integer from empty string");
    assert_eq!(ParseError::InvalidDigit.message(), "invalid digit found in string");
    assert_eq!(ParseError::PosOverflow.message(), "number too large to fit in target type");
    assert_eq!(ParseError::NegOverflow.message(), "number too small to fit in target type");
}

#[test]
fn parses_as_the_standard_library_does() {
    let texts = [
        "", "0", "3", "+3", "-3", "-0", "+0", "007", "-", "+", "++1", "--1", "+-1", "-+1", " 1",
        "1 ", "1\n", "\n", "a", "1a", "a1", "1.0", "1e3", "1_0", "0x1", "2147483647",
        "2147483648", "-2147483648", "-2147483649", "+2147483647", "+2147483648", "4294967296",
        "-4294967296", "000000000000000000003", "-000000000000000000003", "99999999999x",
        "-99999999999x", "2147483647x", "21474836470x", "214748364x", "-214748364x8",
        "\u{0663}", "3\u{00e9}", "99999999999\u{00e9}", "\u{ff13}", "3\u{0}", "\u{0}", "\u{0661}\u{0662}\u{0663}",
        "12345678", "-12345678", "1234567", "123456789012", "-2147483648x", "2147483648x",
    ];
    for text in texts {
        let expected = text.parse::<i32>().map_err(|error| error.to_string());
        let actual = parse_mood(text).map_err(|error| error.message());
        assert_eq!(actual, expected, "on {:?}", text);
    }
}

#[test]
fn a_formatted_mood_parses_back() {
    let mut mood: i32 = i32::MIN;
    loop {
        assert_eq!(parse_mood(&format_mood(mood)), Ok(mood));
        match mood.checked_add(9_876_543) {
            Some(next) => mood = next,
            None => break,
        }
    }
    for mood in [i32::MIN, -10, -9, -1, 0, 1, 3, 9, 10, 99, 100, i32::MAX] {
        assert_eq!(parse_mood(&format_mood(mood)), Ok(mood));
    }
}

#[test]
fn a_long_run_of_zeros_is_read_in_one_pass() {
    let mut text = "0".repeat(200_000);
    text.push('5');
    assert_eq!(parse_mood(&text), Ok(5));
}
