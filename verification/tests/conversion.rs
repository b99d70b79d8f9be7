use base_convert::alphabet::{digit_of, find, DIGITS, MAX_BASE};
use base_convert::convert::{convert, int_to_str, reverse, str_to_int};
use base_convert::error::ConvertError;

fn text(s: &str) -> String {
    s.to_string()
}

#[test]
fn decimal_to_hex() {
    assert_eq!(convert(&text("255"), 10, 16), Ok(text("FF")));
}

#[test]
fn hex_to_decimal() {
    assert_eq!(convert(&text("FF"), 16, 10), Ok(text("255")));
}

#[test]
fn binary_to_decimal() {
    assert_eq!(convert(&text("1010"), 2, 10), Ok(text("10")));
}

#[test]
fn last_digit_of_the_alphabet() {
    assert_eq!(int_to_str(61, 62), Ok(text("z")));
    assert_eq!(DIGITS.chars().nth(61), Some('z'));
}

#[test]
fn first_two_digit_numeral_in_base_62() {
    assert_eq!(int_to_str(62, 62), Ok(text("10")));
}

#[test]
fn empty_string_reads_as_zero_in_every_base() {
    for base in 2..=62u64 {
        assert_eq!(str_to_int(&text(""), base), Ok(0));
    }
}

#[test]
fn digit_above_base_is_refused() {
    assert_eq!(convert(&text("G"), 16, 10), Err(ConvertError::InvalidDigit));
    assert_eq!(convert(&text("A"), 10, 16), Err(ConvertError::InvalidDigit));
    assert_eq!(str_to_int(&text("12"), 2), Err(ConvertError::InvalidDigit));
    assert_eq!(str_to_int(&text("8"), 8), Err(ConvertError::InvalidDigit));
}

#[test]
fn character_outside_alphabet_is_refused() {
    assert_eq!(str_to_int(&text("-1"), 10), Err(ConvertError::InvalidDigit));
    assert_eq!(str_to_int(&text("1 2"), 10), Err(ConvertError::InvalidDigit));
    assert_eq!(str_to_int(&text("1\u{e9}"), 62), Err(ConvertError::InvalidDigit));
    assert_eq!(convert(&text("+"), 62, 2), Err(ConvertError::InvalidDigit));
}

#[test]
fn zero_is_zero_between_all_bases() {
    for from in 2..=62u64 {
        for to in 2..=62u64 {
            assert_eq!(convert(&text("0"), from, to), Ok(text("0")));
        }
    }
}

#[test]
fn zero_is_written_as_one_digit() {
    for base in 2..=62u64 {
        assert_eq!(int_to_str(0, base), Ok(text("0")));
    }
}

#[test]
fn write_then_read_gives_the_number() {
    let samples: [u64; 9] = [0, 1, 9, 10, 61, 62, 255, 4_294_967_296, u64::MAX];
    for &v in samples.iter() {
        for base in 2..=62u64 {
            let written = int_to_str(v, base).unwrap();
            assert_eq!(str_to_int(&written, base), Ok(v));
        }
    }
}

#[test]
fn there_and_back_gives_the_same_string() {
    let samples: [u64; 6] = [0, 7, 3843, 1_000_000_007, u64::MAX - 1, u64::MAX];
    for &v in samples.iter() {
        for b1 in [2u64, 3, 10, 16, 36, 61, 62] {
            for b2 in [2u64, 7, 10, 35, 62] {
                let start = int_to_str(v, b1).unwrap();
                let there = convert(&start, b1, b2).unwrap();
                assert_eq!(convert(&there, b2, b1), Ok(start));
            }
        }
    }
}

#[test]
fn leading_zeros_are_dropped_on_the_way_back() {
    let there = convert(&text("000FF"), 16, 2).unwrap();
    assert_eq!(there, "11111111");
    assert_eq!(convert(&there, 2, 16), Ok(text("FF")));
    assert_eq!(convert(&text("0000"), 10, 10), Ok(text("0")));
}

#[test]
fn same_base_changes_nothing() {
    for (s, base) in [("0", 2u64), ("1", 2), ("101101", 2), ("777", 8), ("18446744073709551615", 10),
        ("DEADBEEF", 16), ("Zz9", 62), ("z", 62), ("LygHa16AHYF", 62)]
    {
        assert_eq!(convert(&text(s), base, base), Ok(text(s)));
    }
}

#[test]
fn largest_value_in_several_bases() {
    assert_eq!(int_to_str(u64::MAX, 10), Ok(text("18446744073709551615")));
    assert_eq!(int_to_str(u64::MAX, 16), Ok(text("FFFFFFFFFFFFFFFF")));
    assert_eq!(int_to_str(u64::MAX, 2), Ok("1".repeat(64)));
    assert_eq!(int_to_str(u64::MAX, 62), Ok(text("LygHa16AHYF")));
    assert_eq!(str_to_int(&text("18446744073709551615"), 10), Ok(u64::MAX));
    assert_eq!(str_to_int(&text("FFFFFFFFFFFFFFFF"), 16), Ok(u64::MAX));
    assert_eq!(str_to_int(&"1".repeat(64), 2), Ok(u64::MAX));
}

#[test]
fn value_beyond_64_bits_overflows() {
    assert_eq!(str_to_int(&text("18446744073709551616"), 10), Err(ConvertError::Overflow));
    assert_eq!(str_to_int(&text("10000000000000000"), 16), Err(ConvertError::Overflow));
    assert_eq!(str_to_int(&"1".repeat(65), 2), Err(ConvertError::Overflow));
    assert_eq!(str_to_int(&text("LygHa16AHYG"), 62), Err(ConvertError::Overflow));
    assert_eq!(convert(&text("99999999999999999999"), 10, 16), Err(ConvertError::Overflow));
    assert_eq!(str_to_int(&text("184467440737095516150"), 10), Err(ConvertError::Overflow));
}

#[test]
fn many_leading_zeros_do_not_overflow() {
    let mut s = "0".repeat(100);
    s.push_str("42");
    assert_eq!(str_to_int(&s, 10), Ok(42));
    assert_eq!(convert(&s, 10, 2), Ok(text("101010")));
}

#[test]
fn bad_digit_is_reported_before_overflow() {
    assert_eq!(
        str_to_int(&text("99999999999999999999999999G"), 10),
        Err(ConvertError::InvalidDigit)
    );
    assert_eq!(
        str_to_int(&text("G99999999999999999999999999"), 10),
        Err(ConvertError::InvalidDigit)
    );
}

#[test]
fn base_out_of_range_is_refused() {
    for base in [0u64, 1, 63, 64, 255, u64::MAX] {
        assert_eq!(str_to_int(&text("0"), base), Err(ConvertError::InvalidBase));
        assert_eq!(int_to_str(5, base), Err(ConvertError::InvalidBase));
        assert_eq!(int_to_str(0, base), Err(ConvertError::InvalidBase));
        assert_eq!(convert(&text("1"), base, 10), Err(ConvertError::InvalidBase));
        assert_eq!(convert(&text("1"), 10, base), Err(ConvertError::InvalidBase));
    }
}

#[test]
fn bad_base_is_reported_before_bad_digit() {
    assert_eq!(convert(&text("G"), 16, 1), Err(ConvertError::InvalidBase));
    assert_eq!(convert(&text("G"), 63, 10), Err(ConvertError::InvalidBase));
    assert_eq!(str_to_int(&text("?"), 0), Err(ConvertError::InvalidBase));
}

#[test]
fn place_values_add_up() {
    assert_eq!(str_to_int(&text("1z"), 62), Ok(62 + 61));
    assert_eq!(str_to_int(&text("Az"), 62), Ok(10 * 62 + 61));
    assert_eq!(str_to_int(&text("aZ"), 62), Ok(36 * 62 + 35));
    assert_eq!(str_to_int(&text("123"), 4), Ok(16 + 8 + 3));
    assert_eq!(str_to_int(&text("ZZ"), 36), Ok(35 * 36 + 35));
    assert_eq!(int_to_str(35 * 36 + 35, 36), Ok(text("ZZ")));
    assert_eq!(int_to_str(3843, 62), Ok(text("zz")));
    assert_eq!(int_to_str(6, 2), Ok(text("110")));
}

#[test]
fn letters_are_case_sensitive() {
    assert_eq!(str_to_int(&text("a"), 37), Ok(36));
    assert_eq!(str_to_int(&text("A"), 37), Ok(10));
    assert_eq!(str_to_int(&text("a"), 36), Err(ConvertError::InvalidDigit));
    assert_eq!(str_to_int(&text("ff"), 16), Err(ConvertError::InvalidDigit));
}

#[test]
fn alphabet_has_62_digits_in_order() {
    assert_eq!(MAX_BASE, 62);
    assert_eq!(DIGITS.chars().count(), 62);
    for (i, c) in DIGITS.chars().enumerate() {
        assert_eq!(find(c, DIGITS), Ok(i as u64));
        assert_eq!(digit_of(c), Ok(i as u64));
        assert_eq!(int_to_str(i as u64, 62), Ok(c.to_string()));
    }
    assert_eq!(digit_of('0'), Ok(0));
    assert_eq!(digit_of('9'), Ok(9));
    assert_eq!(digit_of('A'), Ok(10));
    assert_eq!(digit_of('Z'), Ok(35));
    assert_eq!(digit_of('a'), Ok(36));
    assert_eq!(digit_of('z'), Ok(61));
}

#[test]
fn characters_next_to_the_alphabet_are_no_digits() {
    for c in ['/', ':', '@', '[', '`', '{', ' ', '\u{0}', '\u{e9}', '\u{ff10}'] {
        assert_eq!(digit_of(c), Err(ConvertError::InvalidDigit));
        assert_eq!(find(c, DIGITS), Err(ConvertError::InvalidDigit));
    }
}

#[test]
fn find_gives_the_first_position() {
    assert_eq!(find('a', "banana"), Ok(1));
    assert_eq!(find('n', "banana"), Ok(2));
    assert_eq!(find('b', "banana"), Ok(0));
    assert_eq!(find('x', "banana"), Err(ConvertError::InvalidDigit));
    assert_eq!(find('x', ""), Err(ConvertError::InvalidDigit));
}

#[test]
fn find_counts_characters_not_bytes() {
    assert_eq!(find('z', "\u{e9}\u{4e2d}z"), Ok(2));
    assert_eq!(find('\u{4e2d}', "\u{e9}\u{4e2d}z"), Ok(1));
}

#[test]
fn reverse_turns_the_string_around() {
    assert_eq!(reverse(&text("abc")), "cba");
    assert_eq!(reverse(&text("")), "");
    assert_eq!(reverse(&text("x")), "x");
    assert_eq!(reverse(&text("0123456789")), "9876543210");
    assert_eq!(reverse(&text("a\u{e9}\u{4e2d}z")), "z\u{4e2d}\u{e9}a");
}

#[test]
fn reverse_twice_is_the_identity() {
    for s in ["", "a", "ab", "hello world", "1010"] {
        assert_eq!(reverse(&reverse(&text(s))), s);
    }
}
