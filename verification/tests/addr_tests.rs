use hoststate::addr::parse_address;

#[test]
fn address_parses_hex_octets() {
    let a = parse_address("AA:bb:0C:1d:2E:3f").unwrap();
    assert_eq!(a.octets, vec![0xAA, 0xBB, 0x0C, 0x1D, 0x2E, 0x3F]);
}

#[test]
fn address_accepts_single_digit_groups() {
    let a = parse_address("0:1:2:a:B:F").unwrap();
    assert_eq!(a.octets, vec![0, 1, 2, 10, 11, 15]);
}

#[test]
fn address_rejects_wrong_group_count() {
    assert_eq!(parse_address("AA:BB:CC:DD:EE").unwrap_err(), "Invalid Bluetooth Address");
    assert!(parse_address("AA:BB:CC:DD:EE:FF:00").is_err());
    assert!(parse_address("").is_err());
}

#[test]
fn address_rejects_bad_groups() {
    assert!(parse_address("AA:BB:CC:DD:EE:GG").is_err());
    assert!(parse_address("AAA:BB:CC:DD:EE:FF").is_err());
    assert!(parse_address("AA:BB:CC:DD:EE:").is_err());
    assert!(parse_address("AA:BB::DD:EE:FF").is_err());
}
