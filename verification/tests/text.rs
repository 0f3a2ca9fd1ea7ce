use led_control::text::{hex_join_bytes, push_decimal, push_hex_pair};

#[test]
fn hex_join_of_nothing_and_one_byte() {
    assert_eq!(hex_join_bytes(&[]), "");
    assert_eq!(hex_join_bytes(&[0x0a]), "0a");
    assert_eq!(hex_join_bytes(&[0xff, 0x00]), "ff:00");
}

#[test]
fn hex_pairs_are_lower_case_and_padded() {
    let mut s = String::from(">");
    push_hex_pair(&mut s, 0xab);
    push_hex_pair(&mut s, 7);
    assert_eq!(s, ">ab07");
}

#[test]
fn decimal_matches_to_string() {
    for n in [0u16, 5, 9, 10, 99, 100, 5577, 65535] {
        let mut s = String::new();
        push_decimal(&mut s, n);
        assert_eq!(s, n.to_string());
    }
}
