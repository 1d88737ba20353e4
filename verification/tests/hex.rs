use club_events::auth::{Admission, AdmitStep};
use club_events::failure::{AdmissionError, Failure};
use club_events::hex::{decode_hex, encode_hex};
use club_events::ident::DocId;
use club_events::store::StoreRequest;
use club_events::token::{issue, Privilege};

#[test]
fn bytes_are_written_as_lower_case_pairs() {
    assert_eq!(encode_hex(&[]), "");
    assert_eq!(encode_hex(&[0x00, 0x0f, 0xa0, 0xff, 0x10]), "000fa0ff10");
    assert_eq!(encode_hex(&[0x12, 0x34, 0x56, 0x78, 0x9a, 0xbc, 0xde, 0xf0]), "123456789abcdef0");
}

#[test]
fn text_is_read_in_either_case() {
    assert_eq!(decode_hex(""), Some(vec![]));
    assert_eq!(decode_hex("000fa0ff10"), Some(vec![0x00, 0x0f, 0xa0, 0xff, 0x10]));
    assert_eq!(decode_hex("000FA0Ff10"), Some(vec![0x00, 0x0f, 0xa0, 0xff, 0x10]));
    assert_eq!(decode_hex("09afAF"), Some(vec![0x09, 0xaf, 0xaf]));
}

#[test]
fn text_that_spells_no_bytes_is_refused() {
    assert_eq!(decode_hex("0"), None);
    assert_eq!(decode_hex("abc"), None);
    assert_eq!(decode_hex("0g"), None);
    assert_eq!(decode_hex("g0"), None);
    assert_eq!(decode_hex("0 "), None);
    assert_eq!(decode_hex("/0"), None);
    assert_eq!(decode_hex(":0"), None);
    assert_eq!(decode_hex("@0"), None);
    assert_eq!(decode_hex("`0"), None);
    assert_eq!(decode_hex("é0"), None);
    assert_eq!(decode_hex("éé"), None);
}

#[test]
fn every_byte_survives_the_round_trip() {
    let all: Vec<u8> = (0..=255).collect();
    let text = encode_hex(&all);
    assert_eq!(text.len(), 512);
    assert_eq!(decode_hex(&text), Some(all));
}

#[test]
fn token_text_is_the_hex_of_its_bytes() {
    let issued = issue(b"key", DocId::from_bytes([3; 12]), Privilege::Ordinary, 5, 5).unwrap();
    let text = issued.text();
    assert_eq!(text.len(), 122);
    assert!(text.starts_with("03030303030303030303030300"));
    assert_eq!(decode_hex(&text), Some(issued.token.clone()));
}

#[test]
fn admission_reads_a_token_from_its_text() {
    let issued = issue(b"key", DocId::from_bytes([3; 12]), Privilege::Ordinary, 5, 5).unwrap();
    let (_, step) = Admission::begin_text(b"key", &issued.text(), Privilege::Ordinary, 7);
    match step {
        AdmitStep::Ask(StoreRequest::FindRevocation { token_id }) => {
            assert_eq!(token_id, issued.session.token_id)
        }
        other => panic!("unexpected step {:?}", other),
    }
    let (_, step) =
        Admission::begin_text(b"key", &issued.text().to_uppercase(), Privilege::Ordinary, 7);
    assert!(matches!(step, AdmitStep::Ask(StoreRequest::FindRevocation { .. })));
}

#[test]
fn admission_refuses_text_that_is_no_token() {
    for text in ["", "zz", "abc", "00", "Bearer 00"] {
        let (admission, step) = Admission::begin_text(b"key", text, Privilege::Ordinary, 7);
        assert!(matches!(
            step,
            AdmitStep::Done(Err(Failure::Admission(AdmissionError::InvalidToken)))
        ));
        assert!(matches!(
            admission,
            Admission::Settled(Err(Failure::Admission(AdmissionError::InvalidToken)))
        ));
    }
}
