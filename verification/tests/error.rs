use someip_sd_wire::error::{ConfigError, Error};

#[test]
fn test_error_display() {
    assert_eq!(Error::BufferTooShort.to_string(), "buffer too short for expected structure");
    assert_eq!(Error::InvalidEntryType(0xFF).to_string(), "invalid entry type: 0xff");
    assert_eq!(Error::InvalidOptionType(0xAB).to_string(), "invalid option type: 0xab");
    assert_eq!(Error::InvalidProtocol(0x99).to_string(), "invalid transport protocol: 0x99");
    assert_eq!(Error::LengthOverflow.to_string(), "length field overflow");
}

#[test]
fn test_config_error_display() {
    assert_eq!(ConfigError::InvalidKey.to_string(), "invalid key format");
    assert_eq!(ConfigError::KeyStartsWithEquals.to_string(), "key starts with '='");
    assert_eq!(ConfigError::UnexpectedEnd.to_string(), "unexpected end of data");
    assert_eq!(ConfigError::LengthOverflow.to_string(), "length field overflow");
    assert_eq!(ConfigError::BufferTooSmall.to_string(), "buffer too small");
    assert_eq!(ConfigError::InvalidUtf8.to_string(), "invalid UTF-8");
}

#[test]
fn test_config_error_conversion() {
    let config_err = ConfigError::InvalidKey;
    let err: Error = config_err.into();
    assert_eq!(err, Error::ConfigurationError(ConfigError::InvalidKey));
}

#[test]
fn test_error_equality() {
    assert_eq!(Error::BufferTooShort, Error::BufferTooShort);
    assert_ne!(Error::BufferTooShort, Error::LengthOverflow);
    assert_eq!(Error::InvalidEntryType(0x05), Error::InvalidEntryType(0x05));
    assert_ne!(Error::InvalidEntryType(0x05), Error::InvalidEntryType(0x06));
}

#[test]
fn test_error_clone_copy() {
    let err = Error::BufferTooShort;
    let err2 = err;
    let err3 = err.clone();
    assert_eq!(err, err2);
    assert_eq!(err, err3);
}

#[test]
fn rejected_bytes_show_as_two_hex_digits() {
    assert_eq!(Error::InvalidEntryType(0x00).to_string(), "invalid entry type: 0x00");
    assert_eq!(Error::InvalidEntryType(0x0a).to_string(), "invalid entry type: 0x0a");
    assert_eq!(Error::InvalidOptionType(0x7f).to_string(), "invalid option type: 0x7f");
    assert_eq!(Error::InvalidProtocol(0xc3).to_string(), "invalid transport protocol: 0xc3");
    for value in 0..=255u8 {
        assert_eq!(
            Error::InvalidProtocol(value).to_string(),
            format!("invalid transport protocol: 0x{:02x}", value)
        );
    }
}

#[test]
fn configuration_errors_are_wrapped_one_to_one() {
    let all = [
        ConfigError::InvalidKey,
        ConfigError::KeyStartsWithEquals,
        ConfigError::UnexpectedEnd,
        ConfigError::LengthOverflow,
        ConfigError::BufferTooSmall,
        ConfigError::InvalidUtf8,
    ];
    for inner in all {
        assert_eq!(Error::from(inner), Error::ConfigurationError(inner));
        assert_eq!(
            Error::from(inner).to_string(),
            format!("configuration error: {}", inner.to_string())
        );
    }
    assert_eq!(
        Error::ConfigurationError(ConfigError::InvalidUtf8).to_string(),
        "configuration error: invalid UTF-8"
    );
}
