use gotatun_throughput::numeral::{decimal_text, digit_number, parse_number, push_numeral, NumberError};

#[test]
fn numbers_are_written_without_leading_zeros() {
    assert_eq!(decimal_text(0), "0");
    assert_eq!(decimal_text(9), "9");
    assert_eq!(decimal_text(10), "10");
    assert_eq!(decimal_text(51821), "51821");
    assert_eq!(decimal_text(u64::MAX), "18446744073709551615");
}

#[test]
fn numerals_go_behind_the_text() {
    let mut text = "x".to_owned();
    push_numeral(&mut text, 0xbeef, 16);
    assert_eq!(text, "xbeef");
    push_numeral(&mut text, 5, 2);
    assert_eq!(text, "xbeef101");
}

#[test]
fn numbers_are_read() {
    assert_eq!(parse_number("0", 10), Ok(0));
    assert_eq!(parse_number("+7", 10), Ok(7));
    assert_eq!(parse_number("0007", 10), Ok(7));
    assert_eq!(parse_number("65535", 65535), Ok(65535));
    assert_eq!(parse_number("18446744073709551615", u64::MAX), Ok(u64::MAX));
}

#[test]
fn texts_that_are_no_numbers_are_refused() {
    assert_eq!(parse_number("", 10), Err(NumberError::Empty));
    assert_eq!(parse_number("+", 10), Err(NumberError::InvalidDigit));
    assert_eq!(parse_number("-", 10), Err(NumberError::InvalidDigit));
    assert_eq!(parse_number("-1", 10), Err(NumberError::InvalidDigit));
    assert_eq!(parse_number("++1", 10), Err(NumberError::InvalidDigit));
    assert_eq!(parse_number(" 1", 10), Err(NumberError::InvalidDigit));
    assert_eq!(parse_number("1 ", 10), Err(NumberError::InvalidDigit));
    assert_eq!(parse_number("1a", 10), Err(NumberError::InvalidDigit));
    assert_eq!(parse_number("٣", 10), Err(NumberError::InvalidDigit));
    assert_eq!(parse_number("65536", 65535), Err(NumberError::PosOverflow));
    assert_eq!(parse_number("18446744073709551616", u64::MAX), Err(NumberError::PosOverflow));
    // The first fault from the left decides.
    assert_eq!(parse_number("99x", 10), Err(NumberError::PosOverflow));
    assert_eq!(parse_number("9x9", 10), Err(NumberError::InvalidDigit));
}

#[test]
fn numbers_are_read_as_the_standard_library_reads_them() {
    let texts = [
        "", "+", "-", "0", "00", "+0", "-0", "1", "255", "256", "65535", "65536", "+65535", "99999",
        "123456789", "655350", "6553 5", "0x10", "1_000", "x", "9x", "99999x", "x99999", "65535 ",
        "\n1", "1\n", "１", "4294967295", "4294967296",
    ];
    for text in texts {
        let ours = parse_number(text, u16::MAX as u64).map(|n| n as u16);
        let theirs = text.parse::<u16>();
        assert_eq!(ours.ok(), theirs.clone().ok(), "{text:?}");
        if let (Err(a), Err(b)) = (ours, theirs) {
            assert_eq!(a.message(), b.to_string(), "{text:?}");
        }
        assert_eq!(parse_number(text, u32::MAX as u64).ok(), text.parse::<u32>().ok().map(u64::from));
        assert_eq!(parse_number(text, u64::MAX).ok(), text.parse::<u64>().ok());
    }
}

#[test]
fn decimal_texts_are_read_back() {
    let mut n: u64 = 1;
    for _ in 0..64 {
        assert_eq!(decimal_text(n), n.to_string());
        assert_eq!(parse_number(&decimal_text(n), u64::MAX), Ok(n));
        n = n.wrapping_mul(3).wrapping_add(1);
    }
}

#[test]
fn digits_have_values() {
    assert_eq!(digit_number('7', 10), Some(7));
    assert_eq!(digit_number('a', 16), Some(10));
    assert_eq!(digit_number('F', 16), Some(15));
    assert_eq!(digit_number('a', 10), None);
    assert_eq!(digit_number('g', 16), None);
}
