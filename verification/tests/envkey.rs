use attendance::envkey::{array_to_hex, parse_failure, try_hex_to_array, try_key_from_environment, HexFault};
use attendance::errors::EnvError;

#[test]
fn test_try_hex_to_array() {
    // Valid hex string
    let result = try_hex_to_array::<2>("0102".to_string());
    assert_eq!(result, Ok([1, 2]));

    // Valid with 0x prefix
    let result = try_hex_to_array::<2>("0x0102".to_string());
    assert_eq!(result, Ok([1, 2]));

    // Invalid length
    let result = try_hex_to_array::<2>("010".to_string());
    assert_eq!(result, Err(EnvError::InvalidHexLength));

    // Invalid hex characters
    let result = try_hex_to_array::<2>("01zz".to_string());
    assert_eq!(
        result,
        Err(EnvError::HexParseError(
            "Invalid character 'z' at position 2".to_string()
        ))
    );
}

#[test]
fn test_try_key_from_environment() {
    let secret_key = format!("{}2a", "0".repeat(62));
    let mut array = [0; 32];
    array[31] = 0x2a;
    assert_eq!(try_key_from_environment(Some(secret_key)), Ok(array));
}

#[test]
fn key_variable_not_set() {
    assert_eq!(try_key_from_environment(None), Err(EnvError::VarNotFound));
}

#[test]
fn key_variable_too_short() {
    assert_eq!(
        try_key_from_environment(Some("0x2a".to_string())),
        Err(EnvError::InvalidHexLength)
    );
}

#[test]
fn array_to_hex_is_lower_case_pairs() {
    assert_eq!(array_to_hex(&[0x01, 0x02, 0x03]), "010203");
    assert_eq!(array_to_hex(&[0x00, 0xab, 0xff, 0x9c]), "00abff9c");
    assert_eq!(array_to_hex(&[]), "");
}

#[test]
fn upper_case_digits_are_read() {
    assert_eq!(try_hex_to_array::<3>("0xABcdEF".to_string()), Ok([0xab, 0xcd, 0xef]));
}

#[test]
fn odd_length_is_a_length_error() {
    assert_eq!(try_hex_to_array::<1>("0x012".to_string()), Err(EnvError::InvalidHexLength));
    assert_eq!(try_hex_to_array::<0>("".to_string()), Ok([]));
    assert_eq!(try_hex_to_array::<0>("0x".to_string()), Ok([]));
}

#[test]
fn first_bad_digit_is_reported_after_the_prefix() {
    assert_eq!(
        try_hex_to_array::<2>("0x0g0h".to_string()),
        Err(EnvError::HexParseError("Invalid character 'g' at position 1".to_string()))
    );
}

#[test]
fn text_that_is_not_ascii_is_measured_in_bytes() {
    // Two characters of two bytes each: four bytes, none of them a digit.
    assert_eq!(
        try_hex_to_array::<2>("\u{e9}\u{e9}".to_string()),
        Err(EnvError::HexParseError("Invalid character '\u{c3}' at position 0".to_string()))
    );
    assert_eq!(try_hex_to_array::<1>("\u{e9}\u{e9}".to_string()), Err(EnvError::InvalidHexLength));
}

#[test]
fn parse_failure_maps_each_fault() {
    assert_eq!(parse_failure(HexFault::OddLength), EnvError::InvalidHexLength);
    assert_eq!(parse_failure(HexFault::InvalidStringLength), EnvError::InvalidHexLength);
    assert_eq!(
        parse_failure(HexFault::InvalidHexCharacter { c: '\n', index: 5 }),
        EnvError::HexParseError("Invalid character '\\n' at position 5".to_string())
    );
}

#[test]
fn hex_round_trip_of_32_bytes() {
    let mut key = [0u8; 32];
    for (i, byte) in key.iter_mut().enumerate() {
        *byte = (i * 37 + 11) as u8;
    }
    let text = array_to_hex(&key);
    assert_eq!(text.len(), 64);
    assert_eq!(try_hex_to_array::<32>(text.clone()), Ok(key));
    assert_eq!(try_hex_to_array::<32>(format!("0x{}", text)), Ok(key));
}

#[test]
fn hex_round_trip_of_every_byte() {
    for value in 0..=255u8 {
        let text = array_to_hex(&[value]);
        assert_eq!(try_hex_to_array::<1>(text), Ok([value]));
    }
}
