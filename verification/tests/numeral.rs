use isa_assembler::numeral::{push_decimal, push_hex_byte};

#[test]
fn decimal_numerals_have_no_leading_zeros() {
    for (n, text) in [
        (0u64, "0"),
        (7, "7"),
        (10, "10"),
        (105, "105"),
        (4294967295, "4294967295"),
        (u64::MAX, "18446744073709551615"),
    ] {
        let mut out = String::from("n=");
        push_decimal(&mut out, n);
        assert_eq!(out, format!("n={}", text));
    }
    for n in 0..2000u64 {
        let mut out = String::new();
        push_decimal(&mut out, n);
        assert_eq!(out, n.to_string());
    }
}

#[test]
fn every_byte_is_written_as_two_hex_digits() {
    for b in 0..=255u8 {
        let mut out = String::from("<");
        push_hex_byte(&mut out, b);
        assert_eq!(out, format!("<{:#04X}", b));
    }
    let mut out = String::new();
    push_hex_byte(&mut out, 0x0b);
    push_hex_byte(&mut out, 0xf0);
    assert_eq!(out, "0x0B0xF0");
}
