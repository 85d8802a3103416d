use amp_android::components::address_utils::normalize_string;
use amp_android::components::matching::{
    find_address, match_address, validate_input, validate_postal_code, MatchResult, ValidationError,
    MAX_STREET_LENGTH, MAX_STREET_NUMBER_LENGTH,
};
use amp_android::structs::DB;
use amp_android::text::{remove_spaces_string, split_whitespace_words, str_eq, trim_str};

fn restriction(street: &str, number: &str, postal: &str, day: u8, time: &str) -> DB {
    DB::from_dag_tid(
        Some(postal.to_string()),
        format!("{} {}", street, number),
        Some(street.to_string()),
        Some(number.to_string()),
        None,
        day,
        time,
        None,
        None,
        None,
        2024,
        1,
    )
    .expect("restriction should be built")
}

#[test]
fn test_normalize_string() {
    assert_eq!(normalize_string("Storgatan"), "storgatan");
    assert_eq!(normalize_string("  STORGATAN  "), "storgatan");
    assert_eq!(normalize_string("Test Street"), "test street");
    assert_eq!(normalize_string(""), "");
    assert_eq!(normalize_string("  "), "");
}

#[test]
fn test_validate_postal_code() {
    assert!(validate_postal_code("22100").is_ok());
    assert!(validate_postal_code("221 00").is_ok());
    assert!(validate_postal_code(" 22100 ").is_ok());
    assert!(validate_postal_code(" 221 00 ").is_ok());
    assert!(validate_postal_code("1234").is_err());
    assert!(validate_postal_code("123456").is_err());
    assert!(validate_postal_code("12345a").is_err());
    assert!(validate_postal_code("abc12").is_err());
    assert!(validate_postal_code("").is_err());
    // a space is allowed only after the third digit
    assert!(validate_postal_code("22 100").is_err());
    assert!(validate_postal_code("2210 0").is_err());
    assert!(validate_postal_code("221  00").is_err());
    assert!(validate_postal_code("221-00").is_err());
}

#[test]
fn test_validate_input() {
    assert!(validate_input("Storgatan", "10", "22100").is_ok());
    assert!(validate_input("Storgatan", "10A", "221 00").is_ok());
    assert!(validate_input(" Storgatan ", " 10 ", " 22100 ").is_ok());
    match validate_input("", "10", "22100") {
        Err(ValidationError::EmptyStreet) => {}
        _ => panic!("Expected EmptyStreet error"),
    }
    match validate_input("Storgatan", "", "22100") {
        Err(ValidationError::EmptyStreetNumber) => {}
        _ => panic!("Expected EmptyStreetNumber error"),
    }
    match validate_input("Storgatan", "10", "") {
        Err(ValidationError::EmptyPostalCode) => {}
        _ => panic!("Expected EmptyPostalCode error"),
    }
    match validate_input("Storgatan", "10", "1234") {
        Err(ValidationError::InvalidPostalCodeFormat(_)) => {}
        _ => panic!("Expected InvalidPostalCodeFormat error"),
    }
}

#[test]
fn test_validate_input_max_length() {
    let long_street = "A".repeat(MAX_STREET_LENGTH + 1);
    match validate_input(&long_street, "10", "22100") {
        Err(ValidationError::StreetTooLong(_)) => {}
        _ => panic!("Expected StreetTooLong error"),
    }
    let long_number = "1".repeat(MAX_STREET_NUMBER_LENGTH + 1);
    match validate_input("Storgatan", &long_number, "22100") {
        Err(ValidationError::StreetNumberTooLong(_)) => {}
        _ => panic!("Expected StreetNumberTooLong error"),
    }
}

#[test]
fn test_validation_error_display() {
    let err = ValidationError::EmptyStreet;
    assert_eq!(err.to_string(), "Street name cannot be empty");
    let err = ValidationError::InvalidPostalCodeFormat("1234".to_string());
    assert!(err.to_string().contains("1234"));
}

#[test]
fn validation_error_messages_are_exact() {
    assert_eq!(
        ValidationError::StreetTooLong(101).to_string(),
        "Street name too long (101 characters, maximum is 100)"
    );
    assert_eq!(
        ValidationError::StreetNumberTooLong(21).to_string(),
        "Street number too long (21 characters, maximum is 20)"
    );
    assert_eq!(
        ValidationError::InvalidPostalCodeFormat("1234".to_string()).to_string(),
        "Invalid Swedish postal code format '1234' (expected 5 digits like '22100' or '221 00')"
    );
    assert_eq!(ValidationError::EmptyPostalCode.to_string(), "Postal code cannot be empty");
    assert_eq!(ValidationError::EmptyStreetNumber.to_string(), "Street number cannot be empty");
}

#[test]
fn validate_input_reports_lengths_in_bytes() {
    let street = "Å".repeat(51);
    match validate_input(&street, "10", "22100") {
        Err(ValidationError::StreetTooLong(n)) => assert_eq!(n, 102),
        other => panic!("unexpected {:?}", other),
    }
    let street = "A".repeat(MAX_STREET_LENGTH);
    assert!(validate_input(&street, "10", "22100").is_ok());
}

#[test]
fn match_address_finds_first_exact_entry() {
    let data = vec![
        restriction("Storgatan", "10", "22100", 15, "0800-1200"),
        restriction("Storgatan", "12", "22100", 16, "0800-1200"),
        restriction("Storgatan", "12", "22100", 17, "0800-1200"),
    ];
    match match_address(&data, "Storgatan", "12", "221 00") {
        MatchResult::Valid(db) => assert_eq!(db.dag, 16),
        MatchResult::Invalid => panic!("expected a match"),
    }
    assert!(matches!(match_address(&data, "Storgatan", "14", "22100"), MatchResult::Invalid));
    assert!(matches!(match_address(&data, "", "12", "22100"), MatchResult::Invalid));
    assert_eq!(find_address(&data, "Storgatan", "12", "22100"), Some(1));
    assert_eq!(find_address(&data, "storgatan", "12", "22100"), None);
}

#[test]
fn text_helpers() {
    assert_eq!(trim_str("\t a b \n"), "a b");
    assert_eq!(remove_spaces_string(" 221 00 "), "22100");
    assert!(str_eq("abc", "abc"));
    assert!(!str_eq("abc", "abd"));
    assert_eq!(split_whitespace_words("  Idunsgatan 67B\t214  46 "), vec!["Idunsgatan", "67B", "214", "46"]);
    assert!(split_whitespace_words("   ").is_empty());
}
