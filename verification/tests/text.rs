use blezer::text::{hex_upper, join_with_spaces, push_decimal, push_hex4};

#[test]
fn hex_upper_two_digits_per_byte() {
    assert_eq!(hex_upper(&[]), "");
    assert_eq!(hex_upper(&[0x00, 0x0F, 0xA0, 0xFF]), "000FA0FF");
}

#[test]
fn decimal_rendering() {
    for (n, text) in [(0u8, "0"), (7, "7"), (10, "10"), (99, "99"), (100, "100"), (255, "255")] {
        let mut s = String::from("x");
        push_decimal(&mut s, n);
        assert_eq!(s, format!("x{text}"));
    }
}

#[test]
fn hex4_rendering() {
    let mut s = String::new();
    push_hex4(&mut s, 0x004C);
    assert_eq!(s, "004C");
    let mut s = String::new();
    push_hex4(&mut s, 0xFFFF);
    assert_eq!(s, "FFFF");
}

#[test]
fn join_spaces() {
    assert_eq!(join_with_spaces(&vec![]), "");
    assert_eq!(join_with_spaces(&vec!["a".to_string()]), "a");
    assert_eq!(join_with_spaces(&vec!["a".to_string(), "b".to_string(), "c".to_string()]), "a b c");
}
