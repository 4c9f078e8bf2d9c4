use mouse_rate_checker::handshake::{
    parse_decimal, parse_handle_args, unique_ident, HandshakeError,
};

fn args(ident: &str, handle: &str) -> Vec<String> {
    vec![
        String::from("child.exe"),
        String::from(ident),
        String::from(handle),
    ]
}

#[test]
fn valid_arguments_yield_the_handle_value() {
    let r = parse_handle_args(&args(unique_ident(), "1234"));
    assert_eq!(r, Ok(1234));
}

#[test]
fn missing_arguments_are_fatal() {
    assert_eq!(
        parse_handle_args(&vec![]),
        Err(HandshakeError::MissingArgs)
    );
    assert_eq!(
        parse_handle_args(&vec![String::from("child.exe")]),
        Err(HandshakeError::MissingArgs)
    );
    assert_eq!(
        parse_handle_args(&vec![
            String::from("child.exe"),
            String::from(unique_ident())
        ]),
        Err(HandshakeError::MissingArgs)
    );
}

#[test]
fn wrong_identity_token_is_fatal() {
    assert_eq!(
        parse_handle_args(&args("not_the_token", "1234")),
        Err(HandshakeError::WrongIdent)
    );
    assert_eq!(
        parse_handle_args(&args("", "1234")),
        Err(HandshakeError::WrongIdent)
    );
}

#[test]
fn bad_handle_number_is_fatal() {
    for bad in ["", "12a4", "-1", " 12", "0x10", "99999999999999999999999999"] {
        assert_eq!(
            parse_handle_args(&args(unique_ident(), bad)),
            Err(HandshakeError::BadHandle),
            "handle argument {:?} should be refused",
            bad
        );
    }
}

#[test]
fn decimal_parse_exact_values() {
    assert_eq!(parse_decimal("0"), Some(0));
    assert_eq!(parse_decimal("007"), Some(7));
    assert_eq!(parse_decimal("1234"), Some(1234));
    assert_eq!(
        parse_decimal("18446744073709551615"),
        Some(usize::MAX)
    );
    assert_eq!(parse_decimal("18446744073709551616"), None);
    assert_eq!(parse_decimal(""), None);
}
