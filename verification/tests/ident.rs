use club_events::failure::{AdmissionError, Failure, StatusCategory};
use club_events::ident::DocId;

#[test]
fn parses_twenty_four_hex_digits() {
    let id = DocId::parse_str("0102030405060708090a0b0c").unwrap();
    assert_eq!(id.bytes, [1, 2, 3, 4, 5, 6, 7, 8, 9, 10, 11, 12]);
}

#[test]
fn parses_either_case_of_letters() {
    let lower = DocId::parse_str("deadbeefdeadbeefdeadbeef").unwrap();
    let upper = DocId::parse_str("DEADBEEFDEADBEEFDEADBEEF").unwrap();
    let mixed = DocId::parse_str("DeadBeefdEADbEEFdeadBEEF").unwrap();
    assert_eq!(lower.bytes, [0xde, 0xad, 0xbe, 0xef, 0xde, 0xad, 0xbe, 0xef, 0xde, 0xad, 0xbe, 0xef]);
    assert_eq!(lower, upper);
    assert_eq!(lower, mixed);
}

#[test]
fn high_digit_comes_first() {
    let id = DocId::parse_str("10000000000000000000000f").unwrap();
    assert_eq!(id.bytes[0], 16);
    assert_eq!(id.bytes[11], 15);
}

#[test]
fn rejects_wrong_lengths() {
    assert_eq!(DocId::parse_str("").unwrap_err(), Failure::InvalidInput);
    assert_eq!(DocId::parse_str("0102030405060708090a0b").unwrap_err(), Failure::InvalidInput);
    assert_eq!(DocId::parse_str("0102030405060708090a0b0").unwrap_err(), Failure::InvalidInput);
    assert_eq!(DocId::parse_str("0102030405060708090a0b0c0d").unwrap_err(), Failure::InvalidInput);
}

#[test]
fn rejects_other_characters() {
    assert_eq!(DocId::parse_str("0102030405060708090a0b0g").unwrap_err(), Failure::InvalidInput);
    assert_eq!(DocId::parse_str("0102030405060708090a0b 0").unwrap_err(), Failure::InvalidInput);
    assert_eq!(DocId::parse_str("é102030405060708090a0b0").unwrap_err(), Failure::InvalidInput);
    assert_eq!(DocId::parse_str("ééééééééééééééééééééééé1").unwrap_err(), Failure::InvalidInput);
}

#[test]
fn identifiers_compare_by_their_bytes() {
    let a = DocId::from_bytes([7; 12]);
    let b = DocId::from_bytes([7; 12]);
    let mut other = [7; 12];
    other[11] = 8;
    let c = DocId::from_bytes(other);
    assert!(a.same(&b));
    assert!(!a.same(&c));
    assert_eq!(a, b);
    assert_ne!(a, c);
}

#[test]
fn failures_fall_into_their_classes() {
    assert_eq!(Failure::InvalidInput.category(), StatusCategory::BadInput);
    assert_eq!(Failure::NotFound.category(), StatusCategory::NotFound);
    assert_eq!(
        Failure::Admission(AdmissionError::RevokedToken).category(),
        StatusCategory::Forbidden
    );
    assert_eq!(
        Failure::Admission(AdmissionError::InvalidToken).category(),
        StatusCategory::Forbidden
    );
    assert_eq!(Failure::PersistenceError.category(), StatusCategory::TransientServerError);
    assert_eq!(Failure::PartialFailure.category(), StatusCategory::Conflict);
    assert!(Failure::PersistenceError.is_retryable());
    assert!(!Failure::PartialFailure.is_retryable());
    assert!(!Failure::NotFound.is_retryable());
}
