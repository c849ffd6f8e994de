use quiz_engine::text::{
    decimal_string, hex_string, same_text, signed_decimal_string, zero_padded_string,
};

#[test]
fn decimal_matches_the_standard_rendering() {
    let samples: [u64; 9] = [0, 1, 9, 10, 11, 99, 100, 4294967295, u64::MAX];
    for n in samples {
        assert_eq!(decimal_string(n), n.to_string());
    }
}

#[test]
fn decimal_of_small_numbers_is_exact() {
    assert_eq!(decimal_string(0), "0");
    assert_eq!(decimal_string(7), "7");
    assert_eq!(decimal_string(42), "42");
    assert_eq!(decimal_string(5040), "5040");
}

#[test]
fn signed_decimal_puts_a_minus_in_front() {
    assert_eq!(signed_decimal_string(-12), "-12");
    assert_eq!(signed_decimal_string(0), "0");
    assert_eq!(signed_decimal_string(198), "198");
    assert_eq!(signed_decimal_string(i64::MIN), i64::MIN.to_string());
    assert_eq!(signed_decimal_string(i64::MAX), i64::MAX.to_string());
}

#[test]
fn hexadecimal_is_lower_case_without_padding() {
    assert_eq!(hex_string(0), "0");
    assert_eq!(hex_string(10), "a");
    assert_eq!(hex_string(255), "ff");
    assert_eq!(hex_string(0xdeadbeef), "deadbeef");
    let samples: [u64; 5] = [1, 15, 16, 4096, u64::MAX];
    for n in samples {
        assert_eq!(hex_string(n), format!("{:x}", n));
    }
}

#[test]
fn padding_fills_up_with_zeros_on_the_left() {
    assert_eq!(zero_padded_string("7", 3), "007");
    assert_eq!(zero_padded_string("70", 3), "070");
    assert_eq!(zero_padded_string("100", 3), "100");
    assert_eq!(zero_padded_string("1000", 3), "1000");
    assert_eq!(zero_padded_string("", 2), "00");
    assert_eq!(zero_padded_string("2a", 8), "0000002a");
    assert_eq!(zero_padded_string("abc", 0), "abc");
}

#[test]
fn same_text_compares_contents() {
    assert!(same_text("math", "math"));
    assert!(!same_text("math", "Math"));
    assert!(!same_text("math", "maths"));
    assert!(same_text("", ""));
}
