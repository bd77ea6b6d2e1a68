use bwbio::crypto::Aes256CbcHmacKey;
use bwbio::errors::{CryptoError, DispatchError, ProtocolError, SessionError};
use bwbio::framing::{FrameOutcome, encode_frame, frame_length, next_frame};
use bwbio::proto::{EncryptedMessage, ResponseData};
use bwbio::session::{
    Opened, answer_opened, handle_frame, handle_message, open_frame, presence_needed, run_session,
};
use bwbio::vault::{Availability, GateReading, KeyManager};

fn open_gate() -> GateReading {
    GateReading { availability: Availability::Available, presence_verified: true }
}

#[test]
fn frame_length_is_little_endian() {
    assert_eq!(frame_length(&[10, 0, 0, 0]), 10);
    assert_eq!(frame_length(&[1, 2, 0, 0]), 513);
    assert_eq!(frame_length(&[0, 0, 0, 1]), 16777216);
}

#[test]
fn encode_frame_prefixes_the_length() {
    assert_eq!(encode_frame(&[1, 2, 3]), vec![3, 0, 0, 0, 1, 2, 3]);
    assert_eq!(encode_frame(&[]), vec![0, 0, 0, 0]);
}

#[test]
fn next_frame_takes_a_complete_frame() {
    let stream = [2u8, 0, 0, 0, 9, 8, 3, 0, 0, 0, 1, 2, 3];
    match next_frame(&stream, 0) {
        FrameOutcome::Frame(body, next) => {
            assert_eq!(body, vec![9, 8]);
            assert_eq!(next, 6);
            match next_frame(&stream, next) {
                FrameOutcome::Frame(body, next) => {
                    assert_eq!(body, vec![1, 2, 3]);
                    assert_eq!(next, stream.len());
                },
                FrameOutcome::Eof => panic!("second frame expected"),
            }
        },
        FrameOutcome::Eof => panic!("first frame expected"),
    }
}

#[test]
fn framing_truncated_body_is_eof() {
    // A frame declaring ten bytes but delivering only three before the
    // stream closed.
    let stream = [10u8, 0, 0, 0, 1, 2, 3];
    assert!(matches!(next_frame(&stream, 0), FrameOutcome::Eof));
}

#[test]
fn framing_zero_length_frame_is_eof() {
    // A frame declaring no body is a zero-length read: graceful EOF, and
    // anything after it is not taken.
    let stream = [0u8, 0, 0, 0, 2, 0, 0, 0, 9, 9];
    assert!(matches!(next_frame(&stream, 0), FrameOutcome::Eof));
    let secret = Aes256CbcHmacKey::new();
    let vault = KeyManager::new();
    let replies = run_session(&secret, &vault, open_gate(), 0, &stream).unwrap();
    assert!(replies.is_empty());
}

#[test]
fn presence_needed_follows_the_command_table() {
    let unlock = EncryptedMessage::new(
        "unlockWithBiometricsForUser".to_string(),
        1,
        Some("u".to_string()),
    );
    let auth = EncryptedMessage::new("authenticateWithBiometrics".to_string(), 2, None);
    let status = EncryptedMessage::new("getBiometricsStatus".to_string(), 3, None);
    assert!(presence_needed(&unlock, Availability::Available));
    assert!(!presence_needed(&unlock, Availability::DeviceAbsent));
    assert!(presence_needed(&auth, Availability::Available));
    assert!(presence_needed(&auth, Availability::NotConfigured));
    assert!(!presence_needed(&status, Availability::Available));
}

#[test]
fn open_then_answer_matches_handle_frame_flow() {
    let mut vault = KeyManager::new();
    vault.import_key("alice", "alice-key").unwrap();
    let secret = Aes256CbcHmacKey::new();
    let env = secret
        .encrypt(br#"{"command":"getBiometricsStatusForUser","messageId":9,"userId":"alice"}"#)
        .unwrap();
    let frame = format!(
        r#"{{"appId":"x","message":{{"encryptionType":2,"data":"{}","iv":"{}","mac":"{}"}}}}"#,
        b64(&env.data().unwrap()),
        b64(&env.iv().unwrap()),
        b64(&env.mac().unwrap())
    );
    let opened = open_frame(&secret, frame.as_bytes()).unwrap();
    match &opened {
        Opened::Command { app_id, msg } => {
            assert_eq!(app_id, "x");
            assert_eq!(msg.command(), "getBiometricsStatusForUser");
            assert_eq!(msg.message_id(), 9);
            assert_eq!(msg.user_id(), Some("alice"));
            assert!(!presence_needed(msg, Availability::Available));
        }
        Opened::Handshake { .. } => panic!("command expected"),
    }
    let reply = answer_opened(&secret, &vault, &opened, open_gate(), 4).unwrap();
    assert!(reply.is_some());
}

#[test]
fn framing_truncated_header_is_eof() {
    assert!(matches!(next_frame(&[5u8, 0], 0), FrameOutcome::Eof));
    assert!(matches!(next_frame(&[], 0), FrameOutcome::Eof));
}

#[test]
fn session_over_truncated_stream_ends_without_error() {
    let secret = Aes256CbcHmacKey::new();
    let vault = KeyManager::new();
    let stream = [10u8, 0, 0, 0, 1, 2, 3];
    let replies = run_session(&secret, &vault, open_gate(), 0, &stream).unwrap();
    assert!(replies.is_empty());
}

#[test]
fn dispatch_unlock_success_carries_the_key() {
    let mut vault = KeyManager::new();
    vault.import_key("alice", "alice-key").unwrap();
    let msg = EncryptedMessage::new(
        "unlockWithBiometricsForUser".to_string(),
        11,
        Some("alice".to_string()),
    );
    let resp = handle_message(&vault, &msg, open_gate(), 77).unwrap().unwrap();
    assert_eq!(resp.command(), "unlockWithBiometricsForUser");
    assert_eq!(resp.message_id(), 11);
    assert_eq!(resp.timestamp(), 77);
    assert_eq!(resp.response(), ResponseData::Bool(true));
    assert_eq!(resp.key(), Some("alice-key"));
}

#[test]
fn dispatch_unlock_failure_is_a_negative_result() {
    let mut vault = KeyManager::new();
    vault.import_key("alice", "alice-key").unwrap();

    // Unknown user: swallowed into Bool(false), not an error.
    let msg = EncryptedMessage::new(
        "unlockWithBiometricsForUser".to_string(),
        1,
        Some("bob".to_string()),
    );
    let resp = handle_message(&vault, &msg, open_gate(), 0).unwrap().unwrap();
    assert_eq!(resp.response(), ResponseData::Bool(false));
    assert!(resp.key().is_none());

    // Presence denied: swallowed too.
    let msg = EncryptedMessage::new(
        "unlockWithBiometricsForUser".to_string(),
        2,
        Some("alice".to_string()),
    );
    let gate = GateReading { availability: Availability::Available, presence_verified: false };
    let resp = handle_message(&vault, &msg, gate, 0).unwrap().unwrap();
    assert_eq!(resp.response(), ResponseData::Bool(false));
    assert!(resp.key().is_none());
}

#[test]
fn dispatch_unlock_without_user_is_an_error() {
    let vault = KeyManager::new();
    let msg = EncryptedMessage::new("unlockWithBiometricsForUser".to_string(), 1, None);
    assert_eq!(
        handle_message(&vault, &msg, open_gate(), 0).unwrap_err(),
        DispatchError::MissingUserId
    );
}

#[test]
fn dispatch_authenticate_reports_the_presence_outcome() {
    let vault = KeyManager::new();
    let msg = EncryptedMessage::new("authenticateWithBiometrics".to_string(), 3, None);
    let resp = handle_message(&vault, &msg, open_gate(), 0).unwrap().unwrap();
    assert_eq!(resp.response(), ResponseData::Bool(true));
    let gate = GateReading { availability: Availability::Available, presence_verified: false };
    let resp = handle_message(&vault, &msg, gate, 0).unwrap().unwrap();
    assert_eq!(resp.response(), ResponseData::Bool(false));
}

#[test]
fn dispatch_status_maps_availability() {
    let vault = KeyManager::new();
    let msg = EncryptedMessage::new("getBiometricsStatus".to_string(), 4, None);
    let cases = [
        (Availability::Available, 0),
        (Availability::DeviceAbsent, 2),
        (Availability::DeviceBusy, 2),
        (Availability::NotConfigured, 7),
        (Availability::DisabledByPolicy, 5),
        (Availability::Unknown, 5),
    ];
    for (availability, code) in cases {
        let gate = GateReading { availability, presence_verified: false };
        let resp = handle_message(&vault, &msg, gate, 0).unwrap().unwrap();
        assert_eq!(resp.response(), ResponseData::Number(code));
    }
}

#[test]
fn dispatch_status_for_user() {
    let mut vault = KeyManager::new();
    vault.import_key("alice", "k").unwrap();
    let msg = EncryptedMessage::new(
        "getBiometricsStatusForUser".to_string(),
        5,
        Some("alice".to_string()),
    );
    let resp = handle_message(&vault, &msg, open_gate(), 0).unwrap().unwrap();
    assert_eq!(resp.response(), ResponseData::Number(0));

    let msg = EncryptedMessage::new(
        "getBiometricsStatusForUser".to_string(),
        5,
        Some("bob".to_string()),
    );
    let resp = handle_message(&vault, &msg, open_gate(), 0).unwrap().unwrap();
    assert_eq!(resp.response(), ResponseData::Number(4));

    let msg = EncryptedMessage::new("getBiometricsStatusForUser".to_string(), 5, None);
    assert_eq!(
        handle_message(&vault, &msg, open_gate(), 0).unwrap_err(),
        DispatchError::MissingUserId
    );
}

#[test]
fn dispatch_unknown_command_is_silently_ignored() {
    let vault = KeyManager::new();
    let msg = EncryptedMessage::new("somethingElse".to_string(), 6, None);
    assert!(handle_message(&vault, &msg, open_gate(), 0).unwrap().is_none());
}

#[test]
fn handle_frame_rejects_malformed_envelopes() {
    let secret = Aes256CbcHmacKey::new();
    let vault = KeyManager::new();
    let gate = open_gate();

    let cases: [(&[u8], SessionError); 5] = [
        (b"not json at all", SessionError::Protocol(ProtocolError::Json)),
        (br#"{"message":{}}"#, SessionError::Protocol(ProtocolError::MissingAppId)),
        (br#"{"appId":7,"message":{}}"#, SessionError::Protocol(ProtocolError::MissingAppId)),
        (br#"{"appId":"x"}"#, SessionError::Protocol(ProtocolError::MissingMessage)),
        (br#"{"appId":"x","message":{"data":"AQID"}}"#, SessionError::Protocol(
            ProtocolError::BadEnvelope,
        )),
    ];
    for (frame, expected) in cases {
        assert_eq!(handle_frame(&secret, &vault, gate, 0, frame).unwrap_err(), expected);
    }

    // A well-formed envelope whose MAC the session secret never produced.
    let forged = br#"{"appId":"x","message":{"encryptionType":2,"data":"AQID","iv":"AQID","mac":"AQID"}}"#;
    assert_eq!(
        handle_frame(&secret, &vault, gate, 0, forged).unwrap_err(),
        SessionError::Crypto(CryptoError::Integrity)
    );
}

#[test]
fn handle_frame_rejects_bad_sealed_payloads() {
    let secret = Aes256CbcHmacKey::new();
    let vault = KeyManager::new();
    let gate = open_gate();

    let sealed_frame = |plain: &[u8]| -> Vec<u8> {
        let env = secret.encrypt(plain).unwrap();
        format!(
            r#"{{"appId":"x","message":{{"encryptionType":2,"data":"{}","iv":"{}","mac":"{}"}}}}"#,
            b64(&env.data().unwrap()),
            b64(&env.iv().unwrap()),
            b64(&env.mac().unwrap())
        )
        .into_bytes()
    };

    // A payload that decrypts but is not a well-formed inbound command.
    let frame = sealed_frame(b"plainly not json");
    assert_eq!(
        handle_frame(&secret, &vault, gate, 0, &frame).unwrap_err(),
        SessionError::Protocol(ProtocolError::BadPayload)
    );
    let frame = sealed_frame(br#"{"command":"getBiometricsStatus"}"#);
    assert_eq!(
        handle_frame(&secret, &vault, gate, 0, &frame).unwrap_err(),
        SessionError::Protocol(ProtocolError::BadPayload)
    );

    // A command that requires a userId, sent without one: ends the session.
    let frame = sealed_frame(br#"{"command":"unlockWithBiometricsForUser","messageId":2}"#);
    assert_eq!(
        handle_frame(&secret, &vault, gate, 0, &frame).unwrap_err(),
        SessionError::Dispatch(DispatchError::MissingUserId)
    );

    // An unknown command inside a valid envelope: silently ignored.
    let frame = sealed_frame(br#"{"command":"somethingElse","messageId":3}"#);
    assert!(handle_frame(&secret, &vault, gate, 0, &frame).unwrap().is_none());
}

fn b64(bytes: &[u8]) -> String {
    base64::Engine::encode(&base64::engine::general_purpose::STANDARD, bytes)
}

fn b64d(text: &str) -> Vec<u8> {
    base64::Engine::decode(&base64::engine::general_purpose::STANDARD, text).unwrap()
}

fn client_seal(enc_key: &[u8], mac_key: &[u8], iv: &[u8; 16], plain: &[u8]) -> (Vec<u8>, Vec<u8>) {
    let enc = <cbc::Encryptor<aes::Aes256> as aes::cipher::KeyIvInit>::new_from_slices(
        enc_key, iv,
    )
    .unwrap();
    let data = aes::cipher::BlockEncryptMut::encrypt_padded_vec_mut::<
        aes::cipher::block_padding::Pkcs7,
    >(enc, plain);
    let mut h = <hmac::Hmac<sha2::Sha256> as hmac::Mac>::new_from_slice(mac_key).unwrap();
    hmac::Mac::update(&mut h, iv);
    hmac::Mac::update(&mut h, &data);
    let mac = hmac::Mac::finalize(h).into_bytes().to_vec();
    (data, mac)
}

fn client_open(enc_key: &[u8], mac_key: &[u8], iv: &[u8], data: &[u8], mac: &[u8]) -> Vec<u8> {
    let mut h = <hmac::Hmac<sha2::Sha256> as hmac::Mac>::new_from_slice(mac_key).unwrap();
    hmac::Mac::update(&mut h, iv);
    hmac::Mac::update(&mut h, data);
    let expected = hmac::Mac::finalize(h).into_bytes().to_vec();
    assert_eq!(expected, mac, "server response failed the client's MAC check");
    let dec = <cbc::Decryptor<aes::Aes256> as aes::cipher::KeyIvInit>::new_from_slices(
        enc_key, iv,
    )
    .unwrap();
    aes::cipher::BlockDecryptMut::decrypt_padded_vec_mut::<aes::cipher::block_padding::Pkcs7>(
        dec, data,
    )
    .unwrap()
}

#[test]
fn end_to_end_handshake_then_sealed_status() {
    let mut rng = rand::thread_rng();
    let private_key = rsa::RsaPrivateKey::new(&mut rng, 1024).unwrap();
    let public_key = rsa::RsaPublicKey::from(&private_key);
    let der = rsa::pkcs8::EncodePublicKey::to_public_key_der(&public_key).unwrap();
    let pk_b64 = b64(der.as_bytes());

    let secret = Aes256CbcHmacKey::new();
    let vault = KeyManager::new();
    let gate = open_gate();

    // Handshake: answered in the clear with the wrapped session secret.
    let handshake = format!(
        r#"{{"appId":"test-app","message":{{"command":"setupEncryption","publicKey":"{}"}}}}"#,
        pk_b64
    );
    let reply = handle_frame(&secret, &vault, gate, 1234, handshake.as_bytes())
        .unwrap()
        .unwrap();
    let doc: serde_json::Value = serde_json::from_slice(&reply).unwrap();
    assert_eq!(doc.get("command").unwrap().as_str().unwrap(), "setupEncryption");
    assert_eq!(doc.get("appId").unwrap().as_str().unwrap(), "test-app");
    let shared_b64 = doc.get("sharedSecret").unwrap().as_str().unwrap();
    let material = private_key
        .decrypt(rsa::Oaep::new::<sha1::Sha1>(), &b64d(shared_b64))
        .unwrap();
    assert_eq!(material.len(), 64);
    assert_eq!(material, secret.to_vec());

    // Sealed request under the transported secret.
    let enc_key = &material[..32];
    let mac_key = &material[32..];
    let iv = [7u8; 16];
    let (data, mac) = client_seal(
        enc_key,
        mac_key,
        &iv,
        br#"{"command":"getBiometricsStatus","messageId":1}"#,
    );
    let request = format!(
        r#"{{"appId":"test-app","message":{{"encryptionType":2,"data":"{}","iv":"{}","mac":"{}"}}}}"#,
        b64(&data),
        b64(&iv),
        b64(&mac)
    );
    let reply = handle_frame(&secret, &vault, gate, 1234, request.as_bytes())
        .unwrap()
        .unwrap();

    // The reply is sealed: unwrap it client-side and check the status code.
    let doc: serde_json::Value = serde_json::from_slice(&reply).unwrap();
    assert_eq!(doc.get("appId").unwrap().as_str().unwrap(), "test-app");
    assert_eq!(doc.get("messageId").unwrap().as_i64().unwrap(), 1);
    let sealed = doc
        .get("message")
        .unwrap()
        .get("encryptedString")
        .unwrap()
        .as_str()
        .unwrap();
    let rest = sealed.strip_prefix("2.").unwrap();
    let mut parts = rest.split('|');
    let iv2 = b64d(parts.next().unwrap());
    let data2 = b64d(parts.next().unwrap());
    let mac2 = b64d(parts.next().unwrap());
    assert!(parts.next().is_none());
    let plain = client_open(enc_key, mac_key, &iv2, &data2, &mac2);
    let body: serde_json::Value = serde_json::from_slice(&plain).unwrap();
    assert_eq!(body.get("command").unwrap().as_str().unwrap(), "getBiometricsStatus");
    assert_eq!(body.get("messageId").unwrap().as_i64().unwrap(), 1);
    assert_eq!(body.get("response").unwrap().as_i64().unwrap(), 0);
    assert_eq!(body.get("timestamp").unwrap().as_u64().unwrap(), 1234);
    assert!(body.get("userKeyB64").unwrap().is_null());
}

#[test]
fn run_session_answers_framed_requests() {
    let mut rng = rand::thread_rng();
    let private_key = rsa::RsaPrivateKey::new(&mut rng, 1024).unwrap();
    let public_key = rsa::RsaPublicKey::from(&private_key);
    let der = rsa::pkcs8::EncodePublicKey::to_public_key_der(&public_key).unwrap();
    let handshake = format!(
        r#"{{"appId":"t","message":{{"command":"setupEncryption","publicKey":"{}"}}}}"#,
        b64(der.as_bytes())
    );
    let secret = Aes256CbcHmacKey::new();
    let vault = KeyManager::new();

    let mut stream = encode_frame(handshake.as_bytes());
    // A second frame, truncated: session still ends cleanly after one reply.
    stream.extend_from_slice(&[99, 0, 0, 0, 1, 2]);
    let replies = run_session(&secret, &vault, open_gate(), 5, &stream).unwrap();
    assert_eq!(replies.len(), 1);
    let reply = &replies[0];
    assert_eq!(frame_length(&reply[..4]) as usize, reply.len() - 4);
    let doc: serde_json::Value = serde_json::from_slice(&reply[4..]).unwrap();
    assert_eq!(doc.get("command").unwrap().as_str().unwrap(), "setupEncryption");
}
