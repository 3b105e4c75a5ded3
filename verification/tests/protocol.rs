use kanbus::daemon_protocol::{parse_version, validate_protocol_compatibility, PROTOCOL_VERSION};

#[test]
fn same_version_is_compatible() {
    assert!(validate_protocol_compatibility("1.0", "1.0").is_ok());
    assert!(validate_protocol_compatibility(PROTOCOL_VERSION, PROTOCOL_VERSION).is_ok());
}

#[test]
fn different_major_is_mismatch() {
    let error = validate_protocol_compatibility("2.0", "1.0").unwrap_err();
    assert_eq!(error.to_string(), "protocol version mismatch");
}

#[test]
fn newer_client_minor_is_unsupported() {
    let error = validate_protocol_compatibility("1.2", "1.0").unwrap_err();
    assert_eq!(error.to_string(), "protocol version unsupported");
}

#[test]
fn older_client_minor_is_compatible() {
    assert!(validate_protocol_compatibility("1.0", "1.2").is_ok());
}

#[test]
fn text_is_no_version() {
    let error = parse_version("abc").unwrap_err();
    assert_eq!(error.to_string(), "invalid protocol version");
}

#[test]
fn version_needs_exactly_two_numbers() {
    assert!(parse_version("1").is_err());
    assert!(parse_version("1.").is_err());
    assert!(parse_version(".1").is_err());
    assert!(parse_version("1.2.3").is_err());
    assert!(parse_version("1.-2").is_err());
    assert!(parse_version("").is_err());
    let version = parse_version("12.340").unwrap();
    assert_eq!(version.major, 12);
    assert_eq!(version.minor, 340);
}

#[test]
fn version_numbers_must_fit() {
    assert!(parse_version("18446744073709551615.0").is_ok());
    assert!(parse_version("18446744073709551616.0").is_err());
}
