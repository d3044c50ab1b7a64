use asmvm::stoi::{Radix, Stoi};

fn to_int(text: &str) -> Option<i64> {
    Stoi::to_int(&String::from(text))
}

#[test]
fn reads_decimal_literals() {
    assert_eq!(to_int("0"), Some(0));
    assert_eq!(to_int("5"), Some(5));
    assert_eq!(to_int("1234567890"), Some(1234567890));
    assert_eq!(to_int("-42"), Some(-42));
    assert_eq!(to_int("007"), Some(7));
}

#[test]
fn reads_prefixed_literals() {
    assert_eq!(to_int("0b10"), Some(2));
    assert_eq!(to_int("0b1111"), Some(15));
    assert_eq!(to_int("0o17"), Some(15));
    assert_eq!(to_int("0x10"), Some(16));
    assert_eq!(to_int("0xFF"), Some(255));
    assert_eq!(to_int("0xDEADBEEF"), Some(0xDEADBEEF));
}

#[test]
fn reads_signed_prefixed_literals() {
    assert_eq!(to_int("-0x1F"), Some(-31));
    assert_eq!(to_int("-0b101"), Some(-5));
    assert_eq!(to_int("-0o10"), Some(-8));
}

#[test]
fn refuses_digits_outside_the_base() {
    assert_eq!(to_int("0b12"), None);
    assert_eq!(to_int("0o8"), None);
    assert_eq!(to_int("12A"), None);
    assert_eq!(to_int("0xG"), None);
    assert_eq!(to_int("1.5"), None);
    assert_eq!(to_int("abc"), None);
    assert_eq!(to_int("1 2"), None);
}

#[test]
fn refuses_lower_case_hexadecimal_digits() {
    assert_eq!(to_int("0xff"), None);
    assert_eq!(to_int("0xaB"), None);
}

#[test]
fn refuses_upper_case_prefixes_and_misplaced_signs() {
    assert_eq!(to_int("0X10"), None);
    assert_eq!(to_int("0B1"), None);
    assert_eq!(to_int("--5"), None);
    assert_eq!(to_int("+5"), None);
    assert_eq!(to_int("5-"), None);
    assert_eq!(to_int("0x-5"), None);
}

#[test]
fn literal_without_digits_is_zero() {
    assert_eq!(to_int(""), Some(0));
    assert_eq!(to_int("-"), Some(0));
    assert_eq!(to_int("0x"), Some(0));
    assert_eq!(to_int("-0b"), Some(0));
}

#[test]
fn reads_the_ends_of_the_range() {
    assert_eq!(to_int("9223372036854775807"), Some(i64::MAX));
    assert_eq!(to_int("-9223372036854775808"), Some(i64::MIN));
    assert_eq!(to_int("0x7FFFFFFFFFFFFFFF"), Some(i64::MAX));
    assert_eq!(to_int("-0x8000000000000000"), Some(i64::MIN));
}

#[test]
fn wraps_beyond_64_bits() {
    assert_eq!(to_int("9223372036854775808"), Some(i64::MIN));
    assert_eq!(to_int("18446744073709551616"), Some(0));
    assert_eq!(to_int("18446744073709551621"), Some(5));
    assert_eq!(to_int("0xFFFFFFFFFFFFFFFF"), Some(-1));
    assert_eq!(to_int("-18446744073709551615"), Some(1));
    assert_eq!(to_int("00000000000000000000000000000000000001"), Some(1));
}

#[test]
fn writes_literals_in_every_base() {
    assert_eq!(Stoi::to_text(0, Radix::Decimal), "0");
    assert_eq!(Stoi::to_text(1234, Radix::Decimal), "1234");
    assert_eq!(Stoi::to_text(-1234, Radix::Decimal), "-1234");
    assert_eq!(Stoi::to_text(5, Radix::Binary), "0b101");
    assert_eq!(Stoi::to_text(-5, Radix::Binary), "-0b101");
    assert_eq!(Stoi::to_text(8, Radix::Octal), "0o10");
    assert_eq!(Stoi::to_text(255, Radix::Hexadecimal), "0xFF");
    assert_eq!(Stoi::to_text(-171, Radix::Hexadecimal), "-0xAB");
    assert_eq!(Stoi::to_text(0, Radix::Hexadecimal), "0x0");
    assert_eq!(Stoi::to_text(i64::MAX, Radix::Decimal), "9223372036854775807");
    assert_eq!(Stoi::to_text(i64::MIN, Radix::Decimal), "-9223372036854775808");
    assert_eq!(Stoi::to_text(i64::MIN, Radix::Hexadecimal), "-0x8000000000000000");
}

#[test]
fn writing_then_reading_gives_the_value_back() {
    let values = [
        0i64,
        1,
        -1,
        7,
        8,
        9,
        10,
        15,
        16,
        255,
        256,
        -255,
        1_000_000_007,
        -987_654_321_012,
        i64::MAX,
        i64::MAX - 1,
        i64::MIN,
        i64::MIN + 1,
    ];
    for radix in [Radix::Binary, Radix::Octal, Radix::Decimal, Radix::Hexadecimal] {
        for v in values {
            let text = Stoi::to_text(v, radix);
            assert_eq!(Stoi::to_int(&text), Some(v), "{} in {:?}", text, radix);
        }
    }
}

#[test]
fn agrees_with_the_formats_of_the_standard_library() {
    for v in [0i64, 1, 2, 9, 10, 11, 99, 100, 4095, 65535, 1 << 40, i64::MAX] {
        assert_eq!(Stoi::to_text(v, Radix::Decimal), format!("{}", v));
        assert_eq!(Stoi::to_text(v, Radix::Binary), format!("{:#b}", v));
        assert_eq!(Stoi::to_text(v, Radix::Octal), format!("{:#o}", v));
        assert_eq!(Stoi::to_text(v, Radix::Hexadecimal), format!("{:#X}", v));
        assert_eq!(Stoi::to_int(&format!("{:#X}", v)), Some(v));
        assert_eq!(Stoi::to_int(&format!("{:#o}", v)), Some(v));
        assert_eq!(Stoi::to_int(&format!("{:#b}", v)), Some(v));
        assert_eq!(Stoi::to_int(&format!("{}", -v)), Some(-v));
    }
}
