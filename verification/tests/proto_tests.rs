use bwbio::errors::CryptoError;
use bwbio::proto::{EncString, EncryptedMessage, ResponseData, ResponseMessage};

#[test]
fn enc_string_keeps_its_fields() {
    let env = EncString::new(&[1, 2, 3], &[4, 5, 6], &[7, 8, 9]);
    assert_eq!(env.data().unwrap(), vec![1, 2, 3]);
    assert_eq!(env.iv().unwrap(), vec![4, 5, 6]);
    assert_eq!(env.mac().unwrap(), vec![7, 8, 9]);
}

#[test]
fn enc_string_textual_form() {
    let env = EncString::new(&[1, 2, 3], &[4, 5, 6], &[7, 8, 9]);
    assert_eq!(env.to_string(), "2.BAUG|AQID|BwgJ");
}

#[test]
fn enc_string_from_b64_parts_round_trips() {
    let env = EncString::from_b64_parts("AQID", "BAUG", "BwgJ").unwrap();
    assert_eq!(env.data().unwrap(), vec![1, 2, 3]);
    assert_eq!(env.iv().unwrap(), vec![4, 5, 6]);
    assert_eq!(env.mac().unwrap(), vec![7, 8, 9]);
    assert_eq!(env.to_string(), "2.BAUG|AQID|BwgJ");
}

#[test]
fn enc_string_from_b64_parts_rejects_bad_text() {
    assert_eq!(EncString::from_b64_parts("*", "BAUG", "BwgJ").unwrap_err(), CryptoError::Base64);
    assert_eq!(EncString::from_b64_parts("AQID", "*", "BwgJ").unwrap_err(), CryptoError::Base64);
    assert_eq!(EncString::from_b64_parts("AQID", "BAUG", "*").unwrap_err(), CryptoError::Base64);
}

#[test]
fn encrypted_message_accessors() {
    let msg = EncryptedMessage::new("getBiometricsStatus".to_string(), 7, None);
    assert_eq!(msg.command(), "getBiometricsStatus");
    assert_eq!(msg.message_id(), 7);
    assert!(msg.user_id().is_none());

    let msg = EncryptedMessage::new(
        "unlockWithBiometricsForUser".to_string(),
        -3,
        Some("alice".to_string()),
    );
    assert_eq!(msg.user_id(), Some("alice"));
    assert_eq!(msg.message_id(), -3);
}

#[test]
fn response_message_fields() {
    let r = ResponseMessage::new("getBiometricsStatus", 5, ResponseData::Number(0), 999);
    assert_eq!(r.command(), "getBiometricsStatus");
    assert_eq!(r.message_id(), 5);
    assert_eq!(r.timestamp(), 999);
    assert_eq!(r.response(), ResponseData::Number(0));
    assert!(r.key().is_none());

    let r = ResponseMessage::with_key(
        "unlockWithBiometricsForUser",
        6,
        ResponseData::Bool(true),
        Some("the-key".to_string()),
        1000,
    );
    assert_eq!(r.key(), Some("the-key"));
    assert_eq!(r.response(), ResponseData::Bool(true));
}
