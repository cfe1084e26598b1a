use rust_pin_service::pincode::model::hex::{hex_digit_char, hex_digit_value, push_hex};
use rust_pin_service::pincode::utils::generate_random_pin;
use rust_pin_service::text::{
    char_is_whitespace, digit_char, push_decimal, push_decimal_digits, text_of_chars,
    trimmed_len,
};

#[test]
fn whitespace_is_what_the_standard_library_calls_whitespace() {
    let mut count = 0;
    for v in 0..=0x10FFFFu32 {
        if let Some(c) = char::from_u32(v) {
            assert_eq!(char_is_whitespace(c), c.is_whitespace(), "U+{:04X}", v);
            if char_is_whitespace(c) {
                count += 1;
            }
        }
    }
    assert_eq!(count, 25);
}

#[test]
fn trimmed_length_drops_trailing_whitespace_only() {
    let of = |s: &str| trimmed_len(&s.chars().collect());
    assert_eq!(of(""), 0);
    assert_eq!(of("abc"), 3);
    assert_eq!(of("abc \t\r"), 3);
    assert_eq!(of("  a b  "), 5);
    assert_eq!(of(" \u{3000}\u{a0}"), 0);
    assert_eq!(of("x\u{200b}"), 2);
    for s in ["", " a ", "a\u{2028}", "\tb\u{85}\u{1680} "] {
        assert_eq!(of(s), s.trim_end().chars().count());
    }
}

#[test]
fn text_of_chars_takes_a_prefix() {
    let chars: Vec<char> = "héllo".chars().collect();
    assert_eq!(text_of_chars(&chars, 0), "");
    assert_eq!(text_of_chars(&chars, 2), "hé");
    assert_eq!(text_of_chars(&chars, 5), "héllo");
    assert_eq!(text_of_chars(&chars, 6), "héllo");
    assert_eq!(text_of_chars(&chars, usize::MAX), "héllo");
}

#[test]
fn decimal_writing() {
    let write = |n: i64| {
        let mut s = String::from("n=");
        push_decimal(&mut s, n);
        s
    };
    assert_eq!(write(0), "n=0");
    assert_eq!(write(7), "n=7");
    assert_eq!(write(10), "n=10");
    assert_eq!(write(27017), "n=27017");
    assert_eq!(write(-1), "n=-1");
    assert_eq!(write(-2147483648), "n=-2147483648");
    assert_eq!(write(i64::MAX), format!("n={}", i64::MAX));
    assert_eq!(write(i64::MIN), format!("n={}", i64::MIN));
    let mut s = String::new();
    push_decimal_digits(&mut s, u64::MAX);
    assert_eq!(s, "18446744073709551615");
}

#[test]
fn digit_characters() {
    assert_eq!(digit_char(0), '0');
    assert_eq!(digit_char(5), '5');
    assert_eq!(digit_char(9), '9');
    assert_eq!(digit_char(10), '0');
    assert_eq!(digit_char(255), '5');
}

#[test]
fn random_pin_has_the_length_asked_for_and_only_digits() {
    for length in [0usize, 1, 16, 100] {
        let pin = generate_random_pin(length);
        assert_eq!(pin.len(), length);
        assert!(pin.chars().all(|c| c.is_ascii_digit()));
    }
    let pins: Vec<String> = (0..20).map(|_| generate_random_pin(16)).collect();
    assert!(pins.iter().any(|p| *p != pins[0]));
    let long = generate_random_pin(2000);
    for d in '0'..='9' {
        assert!(long.contains(d));
    }
}

#[test]
fn hexadecimal_digits() {
    let digits: String = (0..16).map(hex_digit_char).collect();
    assert_eq!(digits, "0123456789abcdef");
    assert_eq!(hex_digit_char(16), '0');
    assert_eq!(hex_digit_char(0xab), 'b');
    for (i, c) in "0123456789abcdef".chars().enumerate() {
        assert_eq!(hex_digit_value(c), Some(i as u8));
        assert_eq!(hex_digit_value(c.to_ascii_uppercase()), Some(i as u8));
    }
    for c in ['g', 'G', '/', ':', '@', '`', ' ', 'é', '０'] {
        assert_eq!(hex_digit_value(c), None);
    }
}

#[test]
fn hexadecimal_writing() {
    let write = |n: u64, width: u8| {
        let mut s = String::from("0x");
        push_hex(&mut s, n, width);
        s
    };
    assert_eq!(write(0, 0), "0x");
    assert_eq!(write(0xabc, 0), "0x");
    assert_eq!(write(0, 4), "0x0000");
    assert_eq!(write(0x1f, 2), "0x1f");
    assert_eq!(write(0x1f, 8), "0x0000001f");
    assert_eq!(write(0x12345, 4), "0x2345");
    assert_eq!(write(u64::MAX, 16), "0xffffffffffffffff");
    assert_eq!(write(0x0123456789abcdef, 16), "0x0123456789abcdef");
    assert_eq!(write(1, 20), "0x00000000000000000001");
}
