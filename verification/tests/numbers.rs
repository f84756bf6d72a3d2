use unicode_types::number::{
    digit_value, push_decimal, push_signed_decimal, read_digits, read_i16, read_u32,
};

fn chars(s: &str) -> Vec<char> {
    s.chars().collect()
}

#[test]
fn digits_in_a_radix() {
    assert_eq!(digit_value('0', 10), Some(0));
    assert_eq!(digit_value('9', 10), Some(9));
    assert_eq!(digit_value('a', 10), None);
    assert_eq!(digit_value('a', 16), Some(10));
    assert_eq!(digit_value('F', 16), Some(15));
    assert_eq!(digit_value('g', 16), None);
    assert_eq!(digit_value('z', 36), Some(35));
    assert_eq!(digit_value('/', 16), None);
    assert_eq!(digit_value(':', 16), None);
    assert_eq!(digit_value('\u{663}', 10), None);
    for c in ['0', '5', '9', 'a', 'f', 'g', 'A', 'F', 'G', 'z', 'Z', ' ', '+', '-', '\u{FF11}'] {
        for radix in [2u32, 10, 16, 36] {
            assert_eq!(digit_value(c, radix), c.to_digit(radix));
        }
    }
}

#[test]
fn unsigned_numbers() {
    assert_eq!(read_u32(&chars("1F600"), 16), Some(0x1F600));
    assert_eq!(read_u32(&chars("1f600"), 16), Some(0x1F600));
    assert_eq!(read_u32(&chars("+ff"), 16), Some(255));
    assert_eq!(read_u32(&chars("000000000000000000a"), 16), Some(10));
    assert_eq!(read_u32(&chars("ffffffff"), 16), Some(u32::MAX));
    assert_eq!(read_u32(&chars("100000000"), 16), None);
    assert_eq!(read_u32(&chars("4294967295"), 10), Some(u32::MAX));
    assert_eq!(read_u32(&chars("4294967296"), 10), None);
    assert_eq!(read_u32(&chars("99999999999999999999999999"), 10), None);
    assert_eq!(read_u32(&chars(""), 16), None);
    assert_eq!(read_u32(&chars("+"), 16), None);
    assert_eq!(read_u32(&chars("-1"), 16), None);
    assert_eq!(read_u32(&chars("1 "), 16), None);
    assert_eq!(read_u32(&chars("0x10"), 16), None);
    for s in ["0", "10", "+7", "-7", "", "+", "++1", "12a", "ffffffff", "100000000", "G"] {
        assert_eq!(read_u32(&chars(s), 16), u32::from_str_radix(s, 16).ok());
        assert_eq!(read_u32(&chars(s), 10), u32::from_str_radix(s, 10).ok());
    }
}

#[test]
fn digits_up_to_a_bound() {
    assert_eq!(read_digits(&chars("100"), 10, 100), Some(100));
    assert_eq!(read_digits(&chars("101"), 10, 100), None);
    assert_eq!(read_digits(&chars("1000"), 10, 100), None);
    assert_eq!(read_digits(&chars("+1"), 10, 100), None);
    assert_eq!(read_digits(&chars(""), 10, 100), None);
    assert_eq!(read_digits(&chars("0"), 10, 0), Some(0));
}

#[test]
fn signed_numbers() {
    assert_eq!(read_i16(&chars("0")), Some(0));
    assert_eq!(read_i16(&chars("-0")), Some(0));
    assert_eq!(read_i16(&chars("+12")), Some(12));
    assert_eq!(read_i16(&chars("-12")), Some(-12));
    assert_eq!(read_i16(&chars("32767")), Some(32767));
    assert_eq!(read_i16(&chars("32768")), None);
    assert_eq!(read_i16(&chars("-32768")), Some(-32768));
    assert_eq!(read_i16(&chars("-32769")), None);
    assert_eq!(read_i16(&chars("")), None);
    assert_eq!(read_i16(&chars("-")), None);
    assert_eq!(read_i16(&chars("+")), None);
    assert_eq!(read_i16(&chars("+-1")), None);
    assert_eq!(read_i16(&chars("1a")), None);
    for s in ["7", "007", "-007", "+0", "--1", "65535", "-65535", " 1", "1 ", "a"] {
        assert_eq!(read_i16(&chars(s)), s.parse::<i16>().ok());
    }
}

#[test]
fn numbers_in_decimal() {
    for n in [0u64, 1, 9, 10, 11, 99, 100, 101, 12345, 1000000, u64::MAX] {
        let mut s = String::from(">");
        push_decimal(&mut s, n);
        assert_eq!(s, format!(">{}", n));
    }
    for n in [0i16, 1, -1, 9, -9, 10, -10, 140, -3, i16::MAX, i16::MIN] {
        let mut s = String::from(">");
        push_signed_decimal(&mut s, n);
        assert_eq!(s, format!(">{}", n));
    }
}
