use websurfx::port::{
    is_port_in_range, parse_decimal, validate_port, Configuration, Decimal, PortError,
    DEFAULT_PORT, PORT_MAX, PORT_MIN,
};

fn accepted(text: &str) -> Result<u16, PortError> {
    validate_port(text).map(|config| config.port())
}

#[test]
fn default_port_text_is_accepted() {
    assert_eq!(is_port_in_range("8080"), Ok(8080));
    assert_eq!(accepted("8080"), Ok(8080));
    assert_eq!(DEFAULT_PORT, 8080);
}

#[test]
fn port_below_range_is_rejected() {
    assert_eq!(accepted("80"), Err(PortError::OutOfRange));
    assert_eq!(
        is_port_in_range("80"),
        Err(String::from("port not found in range 1024-65535"))
    );
}

#[test]
fn port_above_range_is_rejected() {
    assert_eq!(accepted("99999"), Err(PortError::OutOfRange));
    assert_eq!(
        is_port_in_range("99999"),
        Err(String::from("port not found in range 1024-65535"))
    );
}

#[test]
fn text_that_is_no_number_is_rejected() {
    assert_eq!(
        accepted("abc"),
        Err(PortError::InvalidFormat(String::from("abc")))
    );
    assert_eq!(
        is_port_in_range("abc"),
        Err(String::from("`abc` is not a valid port number"))
    );
}

#[test]
fn range_bounds_are_inclusive() {
    assert_eq!(PORT_MIN, 1024);
    assert_eq!(PORT_MAX, 65535);
    assert_eq!(accepted("1024"), Ok(1024));
    assert_eq!(accepted("65535"), Ok(65535));
    assert_eq!(accepted("1023"), Err(PortError::OutOfRange));
    assert_eq!(accepted("65536"), Err(PortError::OutOfRange));
    assert_eq!(accepted("0"), Err(PortError::OutOfRange));
}

#[test]
fn every_port_in_range_is_accepted_from_its_decimal_text() {
    let mut port: u32 = 0;
    while port <= 70000 {
        let text = format!("{}", port);
        let expected = if (1024..=65535).contains(&port) {
            Ok(port as u16)
        } else {
            Err(PortError::OutOfRange)
        };
        assert_eq!(accepted(&text), expected);
        port += 1;
    }
}

#[test]
fn plus_sign_and_leading_zeros_are_read() {
    assert_eq!(accepted("+8080"), Ok(8080));
    assert_eq!(accepted("0008080"), Ok(8080));
    assert_eq!(accepted("+0008080"), Ok(8080));
    assert_eq!(parse_decimal("+0"), Decimal::Value(0));
    assert_eq!(parse_decimal("007"), Decimal::Value(7));
}

#[test]
fn malformed_numbers_are_invalid_format() {
    for text in [
        "", "+", "++1", "-1", "-8080", " 8080", "8080 ", "80 80", "8080\n", "0x1F90", "8_080",
        "8080.0", "1e4", "８０８０", "80８0", "é", "+-1",
    ] {
        assert_eq!(
            accepted(text),
            Err(PortError::InvalidFormat(String::from(text)))
        );
        assert_eq!(parse_decimal(text), Decimal::NotANumber);
    }
}

#[test]
fn numbers_too_large_for_the_machine_are_out_of_range() {
    let largest = format!("{}", usize::MAX);
    assert_eq!(parse_decimal(&largest), Decimal::Value(usize::MAX));
    assert_eq!(accepted(&largest), Err(PortError::OutOfRange));
    let beyond = format!("{}0", usize::MAX);
    assert_eq!(parse_decimal(&beyond), Decimal::TooLarge);
    assert_eq!(accepted(&beyond), Err(PortError::OutOfRange));
    let next = format!("{}", usize::MAX as u128 + 1);
    assert_eq!(parse_decimal(&next), Decimal::TooLarge);
    assert_eq!(accepted(&next), Err(PortError::OutOfRange));
    assert_eq!(
        is_port_in_range(&next),
        Err(String::from("port not found in range 1024-65535"))
    );
}

#[test]
fn long_numerals_are_out_of_range_whatever_their_length() {
    for text in [
        "4294967295",
        "4294967296",
        "18446744073709551615",
        "18446744073709551616",
        "99999999999999999999",
        "+99999999999999999999",
        "340282366920938463463374607431768211456",
        "100000000000000000000000000000000000000000000000000000000000000000000000000",
    ] {
        assert_eq!(accepted(text), Err(PortError::OutOfRange));
        assert_eq!(
            is_port_in_range(text),
            Err(String::from("port not found in range 1024-65535"))
        );
    }
    let thousand_nines = "9".repeat(1000);
    assert_eq!(parse_decimal(&thousand_nines), Decimal::TooLarge);
    assert_eq!(accepted(&thousand_nines), Err(PortError::OutOfRange));
}

#[test]
fn a_long_text_with_one_wrong_character_is_no_number() {
    for text in [
        "99999999999999999999x",
        "9999999999999999999999999999 ",
        "99999999999999999999999999.9",
        "999999999999999999999999999９",
        "99999999999999999999+",
        "x99999999999999999999",
    ] {
        assert_eq!(parse_decimal(text), Decimal::NotANumber);
        assert_eq!(
            accepted(text),
            Err(PortError::InvalidFormat(String::from(text)))
        );
    }
}

#[test]
fn leading_zeros_do_not_make_a_number_large() {
    let padded = format!("{}8080", "0".repeat(200));
    assert_eq!(parse_decimal(&padded), Decimal::Value(8080));
    assert_eq!(accepted(&padded), Ok(8080));
    let padded = format!("+{}80", "0".repeat(200));
    assert_eq!(accepted(&padded), Err(PortError::OutOfRange));
}

#[test]
fn parse_decimal_agrees_with_the_standard_parser_on_what_fits() {
    for text in [
        "0", "1", "9", "10", "1024", "65535", "65536", "4294967295", "4294967296", "+12", "12+",
        "", "+", "a1", "1a", "00", "000000000000000000000000000001",
    ] {
        let expected = match text.parse::<usize>() {
            Ok(value) => Decimal::Value(value),
            Err(_) => Decimal::NotANumber,
        };
        assert_eq!(parse_decimal(text), expected);
    }
}

#[test]
fn messages_name_the_text_or_the_range() {
    assert_eq!(
        PortError::InvalidFormat(String::from("12x")).message(),
        "`12x` is not a valid port number"
    );
    assert_eq!(
        PortError::InvalidFormat(String::new()).message(),
        "`` is not a valid port number"
    );
    assert_eq!(
        PortError::OutOfRange.message(),
        "port not found in range 1024-65535"
    );
}

#[test]
fn configuration_holds_only_valid_ports() {
    assert!(Configuration::new(1023).is_none());
    assert!(Configuration::new(0).is_none());
    assert_eq!(Configuration::new(1024).map(|c| c.port()), Some(1024));
    assert_eq!(Configuration::new(8080).map(|c| c.port()), Some(8080));
    assert_eq!(Configuration::new(65535).map(|c| c.port()), Some(65535));
}
