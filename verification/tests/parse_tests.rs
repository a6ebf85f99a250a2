use eui::{string_to_eui, Eui48, Eui64, StringToEuiError};

#[test]
fn test_eui48_deserialize_lowercase() {
    assert_eq!(
        Eui48::parse_str("4d7e54972eef"),
        Ok(Eui48::from(85204980412143))
    );
}

#[test]
fn test_eui48_deserialize_uppercase() {
    assert_eq!(
        Eui48::parse_str("4D7E54972EEF"),
        Ok(Eui48::from(85204980412143))
    );
}

#[test]
fn test_eui64_deserialize_lowercase() {
    assert_eq!(
        Eui64::parse_str("4d7e540000972eef"),
        Ok(Eui64::from(5583992946972634863))
    );
}

#[test]
fn test_eui64_deserialize_uppercase() {
    assert_eq!(
        Eui64::parse_str("4D7E540000972EEF"),
        Ok(Eui64::from(5583992946972634863))
    );
}

#[test]
fn test_eui48_deserialize_invalid_length() {
    assert_eq!(
        Eui48::parse_str("4d7e54972e"),
        Err(StringToEuiError::InvalidLength { length: 10 })
    );

    assert_eq!(
        Eui48::parse_str("4d7e54972eefef4d"),
        Err(StringToEuiError::InvalidLength { length: 16 })
    );

    // Seventeen characters are the separated form's length, so this input
    // is read as a separated one whose first separator is missing.
    assert_eq!(
        Eui48::parse_str("4d7e54972eefef4da"),
        Err(StringToEuiError::InvalidSeparatorPlace)
    );
}

#[test]
fn test_eui64_deserialize_invalid_length() {
    assert_eq!(
        Eui64::parse_str("4d7e54972eaa"),
        Err(StringToEuiError::InvalidLength { length: 12 })
    );

    assert_eq!(
        Eui64::parse_str("4d7e54972eefef4ddd"),
        Err(StringToEuiError::InvalidLength { length: 18 })
    );
}

#[test]
fn test_eui48_deserialize_invalid_character() {
    assert_eq!(
        Eui48::parse_str("ad7e54972esa"),
        Err(StringToEuiError::InvalidChar { c: 's' })
    );
}

#[test]
fn test_eui64_deserialize_invalid_character() {
    assert_eq!(
        Eui64::parse_str("ad7e54972ea721sa"),
        Err(StringToEuiError::InvalidChar { c: 's' })
    );
}

#[test]
fn test_eui48_deserialize_with_separator_lowercase() {
    assert_eq!(
        Eui48::parse_str("4d:7e:54:97:2e:ef"),
        Ok(Eui48::from(85204980412143))
    );

    assert_eq!(
        Eui48::parse_str("4d-7e-54-97-2e-ef"),
        Ok(Eui48::from(85204980412143))
    );
}

#[test]
fn test_eui48_deserialize_with_separator_uppercase() {
    assert_eq!(
        Eui48::parse_str("4D:7E:54:97:2E:EF"),
        Ok(Eui48::from(85204980412143))
    );

    assert_eq!(
        Eui48::parse_str("4D-7E-54-97-2E-EF"),
        Ok(Eui48::from(85204980412143))
    );
}

#[test]
fn test_eui64_deserialize_with_separator_lowercase() {
    assert_eq!(
        Eui64::parse_str("4d:7e:54:00:00:97:2e:ef"),
        Ok(Eui64::from(5583992946972634863))
    );

    assert_eq!(
        Eui64::parse_str("4d-7e-54-00-00-97-2e-ef"),
        Ok(Eui64::from(5583992946972634863))
    );
}

#[test]
fn test_eui64_deserialize_with_separator_uppercase() {
    assert_eq!(
        Eui64::parse_str("4D:7E:54:00:00:97:2E:EF"),
        Ok(Eui64::from(5583992946972634863))
    );

    assert_eq!(
        Eui64::parse_str("4D-7E-54-00-00-97-2E-EF"),
        Ok(Eui64::from(5583992946972634863))
    );
}

#[test]
fn test_eui48_deserialize_invalid_separator_position() {
    assert_eq!(
        Eui48::parse_str(":4d7e:54:97:2e:ef"),
        Err(StringToEuiError::InvalidSeparatorPlace)
    );

    assert_eq!(
        Eui48::parse_str("4d:7e:54:97:2eef:"),
        Err(StringToEuiError::InvalidSeparatorPlace)
    );

    assert_eq!(
        Eui48::parse_str("4d::7e54:97:2e:ef"),
        Err(StringToEuiError::InvalidSeparatorPlace)
    );
}

#[test]
fn test_eui64_deserialize_invalid_separator_position() {
    assert_eq!(
        Eui64::parse_str(":4d7e:54:00:00:97:2e:ef"),
        Err(StringToEuiError::InvalidSeparatorPlace)
    );

    assert_eq!(
        Eui64::parse_str("4d:7e:54:00:00:97:2eef:"),
        Err(StringToEuiError::InvalidSeparatorPlace)
    );

    assert_eq!(
        Eui64::parse_str("4d::7e54:00:00:97:2e:ef"),
        Err(StringToEuiError::InvalidSeparatorPlace)
    );
}

#[test]
fn test_eui48_deserialize_different_separators() {
    assert_eq!(
        Eui48::parse_str("4d:7e:54-97:2e:ef"),
        Err(StringToEuiError::OnlyOneSeparatorTypeExpected)
    );
}

#[test]
fn test_eui64_deserialize_different_separators() {
    assert_eq!(
        Eui64::parse_str("4d:7e-54:00:00:97:2e-ef"),
        Err(StringToEuiError::OnlyOneSeparatorTypeExpected)
    );
}

#[test]
fn test_string_to_eui_writes_buffer() {
    let mut out = vec![0u8; 6];
    assert_eq!(string_to_eui("4d7e54972eef", &mut out), Ok(()));
    assert_eq!(out, vec![0x4d, 0x7e, 0x54, 0x97, 0x2e, 0xef]);

    let mut out8 = vec![0u8; 8];
    assert_eq!(string_to_eui("4d:7e:54:00:00:97:2e:ef", &mut out8), Ok(()));
    assert_eq!(out8, vec![0x4d, 0x7e, 0x54, 0x00, 0x00, 0x97, 0x2e, 0xef]);
}

#[test]
fn test_text_roundtrip() {
    let eui48 = Eui48::from(85204980412143);
    assert_eq!(Eui48::parse_str(eui48.to_string().as_str()), Ok(eui48));

    let eui64 = Eui64::from(5583992946972634863);
    assert_eq!(Eui64::parse_str(eui64.to_string().as_str()), Ok(eui64));
}

#[test]
fn test_both_separator_forms_agree() {
    assert_eq!(
        Eui48::parse_str("4d:7e:54:97:2e:ef"),
        Eui48::parse_str("4d-7e-54-97-2e-ef")
    );
}

#[test]
fn test_mixed_case_parses_like_lowercase() {
    assert_eq!(
        Eui48::parse_str("4D7e54972Eef"),
        Eui48::parse_str("4d7e54972eef")
    );
    assert_eq!(
        Eui64::parse_str("4d:7E:54:00:00:97:2e:EF"),
        Eui64::parse_str("4d:7e:54:00:00:97:2e:ef")
    );
}

#[test]
fn test_empty_input_is_a_length_error() {
    assert_eq!(
        Eui48::parse_str(""),
        Err(StringToEuiError::InvalidLength { length: 0 })
    );
    assert_eq!(
        Eui64::parse_str(""),
        Err(StringToEuiError::InvalidLength { length: 0 })
    );
}

#[test]
fn test_mixed_separators_regardless_of_position() {
    assert_eq!(
        Eui48::parse_str("4d-7e:54:97:2e:ef"),
        Err(StringToEuiError::OnlyOneSeparatorTypeExpected)
    );
    assert_eq!(
        Eui48::parse_str("4d:7e:54:97:2e-ef"),
        Err(StringToEuiError::OnlyOneSeparatorTypeExpected)
    );
}

#[test]
fn test_trailing_separator_only_on_last_pair() {
    // A separator standing where the last pair's second digit belongs.
    assert_eq!(
        Eui48::parse_str("4d:7e:54:97:2e:e:"),
        Err(StringToEuiError::InvalidSeparatorPlace)
    );

    // A character that is neither a digit nor a separator in that place.
    assert_eq!(
        Eui48::parse_str("4d:7e:54:97:2e:e!"),
        Err(StringToEuiError::InvalidChar { c: '!' })
    );
}
