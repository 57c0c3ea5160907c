use startsmall::numeral::{push_decimal, to_hex_lower};

#[test]
fn numerals_are_those_of_the_standard_library() {
    for n in [0u128, 7, 9, 10, 99, 100, 1234567890, u64::MAX as u128, u128::MAX] {
        let mut s = String::from("n=");
        push_decimal(&mut s, n);
        assert_eq!(s, format!("n={n}"));
        assert_eq!(s[2..].parse::<u128>().unwrap(), n);
    }
}

#[test]
fn bytes_are_written_in_lower_case_hexadecimal() {
    assert_eq!(to_hex_lower(&vec![]), "");
    assert_eq!(to_hex_lower(&vec![0x00, 0x0f, 0xa0, 0xff, 0x9b]), "000fa0ff9b");
    let all: Vec<u8> = (0..=255).collect();
    let expected: String = all.iter().map(|b| format!("{:02x}", b)).collect();
    assert_eq!(to_hex_lower(&all), expected);
    assert_eq!(to_hex_lower(&all).len(), 512);
}

#[test]
fn different_bytes_have_different_hexadecimal_forms() {
    assert_ne!(to_hex_lower(&vec![0x01, 0x23]), to_hex_lower(&vec![0x12, 0x03]));
}
