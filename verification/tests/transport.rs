use xbee_rust_modem_library::transport::{
    parse_u16_hex, parse_u64_hex, xbee_destination_from_args, xbee_destination_from_env,
    DestinationError,
};

#[test]
fn cli_equals_form_overrides_env() {
    let args: Vec<String> = vec![
        "test_sender".into(),
        "--XBEE_DEST64=0013a20041aeb54e".into(),
    ];
    let (d64, _) = xbee_destination_from_args(&args, Some("0000000000001234"), None).unwrap();
    assert_eq!(d64, 0x0013a20041aeb54e);
}

#[test]
fn cli_space_form() {
    let args: Vec<String> = vec![
        "test_receiver".into(),
        "--xbee-dest64".into(),
        "0013A20041AEB54E".into(),
    ];
    let (d64, d16) = xbee_destination_from_args(&args, None, None).unwrap();
    assert_eq!(d64, 0x0013a20041aeb54e);
    assert_eq!(d16, 0xFFFE);
}

#[test]
fn hex_with_colons() {
    assert_eq!(
        parse_u64_hex("00:13:A2:00:41:AE:B5:4E"),
        Some(0x0013a20041aeb54e)
    );
}

#[test]
fn hex_parsing_accepts_prefix_and_separators() {
    assert_eq!(parse_u64_hex("0x0013a200-41ae b54e"), Some(0x0013a20041aeb54e));
    assert_eq!(parse_u16_hex("0XFFFE"), Some(0xFFFE));
    assert_eq!(parse_u16_hex(" 12:34 "), Some(0x1234));
}

#[test]
fn hex_parsing_needs_exact_digit_count() {
    assert_eq!(parse_u64_hex("0013A20041AEB54"), None);
    assert_eq!(parse_u64_hex("0013A20041AEB54E0"), None);
    assert_eq!(parse_u16_hex("FFF"), None);
    assert_eq!(parse_u16_hex(""), None);
}

#[test]
fn env_fallback_then_broadcast() {
    assert_eq!(xbee_destination_from_env(None, None), (0xFFFF, 0xFFFE));
    assert_eq!(
        xbee_destination_from_env(Some("0013A20041AEB54E"), Some("1234")),
        (0x0013a20041aeb54e, 0x1234)
    );
    // Values that are not addresses fall back to broadcast.
    assert_eq!(xbee_destination_from_env(Some("nope"), Some("12345")), (0xFFFF, 0xFFFE));
}

#[test]
fn env_is_used_where_no_flag_is_given() {
    let args: Vec<String> = vec!["prog".into(), "--xbee-dest16=0001".into()];
    assert_eq!(
        xbee_destination_from_args(&args, Some("0013A20041AEB54E"), Some("FFFE")),
        Ok((0x0013a20041aeb54e, 0x0001))
    );
}

#[test]
fn invalid_flag_value_is_an_error() {
    let args: Vec<String> = vec!["prog".into(), "--xbee-dest64=xyz".into()];
    assert_eq!(
        xbee_destination_from_args(&args, None, None),
        Err(DestinationError::InvalidDest64(vec!['x', 'y', 'z']))
    );
    let args: Vec<String> = vec!["prog".into(), "--xbee-dest16".into(), "12".into()];
    assert_eq!(
        xbee_destination_from_args(&args, None, None),
        Err(DestinationError::InvalidDest16(vec!['1', '2']))
    );
}
