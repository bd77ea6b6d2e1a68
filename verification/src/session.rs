//! One channel session: decoding inbound frames, the one-time handshake,
//! command dispatch with its per-command failure policy, and sealing of
//! outbound responses. The contracts speak over the structural model of the
//! JSON documents ([`crate::json::JsonVal`]): what the parser accepts the
//! bytes as fixes what is decoded, dispatched and answered.

use vstd::prelude::*;

use crate::codec::{b64_of, str_eq};
use crate::crypto::{
    Aes256CbcHmacKey, aes256_cbc_of, hmac_sha256_of, mac_accepts, rsa_encrypt,
    rsa_spki_modulus_len, rsa_encrypt_overhead,
};
use crate::errors::{CryptoError, DispatchError, ProtocolError, SessionError};
use crate::framing::{FrameOutcome, encode_frame, frames_of, next_frame};
use crate::json::{
    JsonVal, json_as_i64, json_as_str, json_bool, json_from_slice, json_get, json_i64,
    json_is_null, json_map_insert, json_map_new, json_null, json_object, json_parse, json_string,
    json_text, json_to_vec, json_u64, exact_model,
};
use crate::proto::{EncString, EncryptedMessage, ResponseData, ResponseMessage};
use crate::vault::{
    Availability, GateReading, KeyManager, availability_code, availability_code_spec, export_spec,
    presence_check_required,
};

verus! {

use vstd::bytes::spec_u32_from_le_bytes;
use vstd::string::StringExecFns;

/// The command that exports a user's key, gated by a presence check.
pub open spec fn cmd_unlock() -> Seq<char> {
    "unlockWithBiometricsForUser"@
}

/// The command that runs the presence check for its own sake.
pub open spec fn cmd_authenticate() -> Seq<char> {
    "authenticateWithBiometrics"@
}

/// The command that asks for the presence capability's status code.
pub open spec fn cmd_status() -> Seq<char> {
    "getBiometricsStatus"@
}

/// The command that asks whether a vault entry exists for a user.
pub open spec fn cmd_status_user() -> Seq<char> {
    "getBiometricsStatusForUser"@
}

/// The four command tags name four different commands.
proof fn lemma_commands_distinct()
    ensures
        cmd_unlock() != cmd_authenticate(),
        cmd_unlock() != cmd_status(),
        cmd_unlock() != cmd_status_user(),
        cmd_authenticate() != cmd_status(),
        cmd_authenticate() != cmd_status_user(),
        cmd_status() != cmd_status_user(),
{
    reveal_strlit("unlockWithBiometricsForUser");
    reveal_strlit("authenticateWithBiometrics");
    reveal_strlit("getBiometricsStatus");
    reveal_strlit("getBiometricsStatusForUser");
    assert(cmd_unlock().len() == 27);
    assert(cmd_authenticate().len() == 26);
    assert(cmd_status().len() == 19);
    assert(cmd_status_user().len() == 26);
    assert(cmd_authenticate()[0] == 'a');
    assert(cmd_status_user()[0] == 'g');
}

/// The member keys of the wire documents name distinct members.
proof fn lemma_wire_keys_distinct()
    ensures
        "timestamp"@ != "command"@ && "timestamp"@ != "messageId"@ && "timestamp"@ != "response"@
            && "timestamp"@ != "userKeyB64"@,
        "command"@ != "messageId"@ && "command"@ != "response"@ && "command"@ != "userKeyB64"@,
        "messageId"@ != "response"@ && "messageId"@ != "userKeyB64"@,
        "response"@ != "userKeyB64"@,
        "command"@ != "appId"@ && "command"@ != "sharedSecret"@ && "appId"@ != "sharedSecret"@,
        "command"@ != "app_id"@,
        "appId"@ != "messageId"@ && "appId"@ != "message"@ && "messageId"@ != "message"@,
{
    reveal_strlit("timestamp");
    reveal_strlit("command");
    reveal_strlit("messageId");
    reveal_strlit("response");
    reveal_strlit("userKeyB64");
    reveal_strlit("appId");
    reveal_strlit("sharedSecret");
    reveal_strlit("app_id");
    reveal_strlit("message");
    assert("timestamp"@.len() == 9);
    assert("command"@.len() == 7);
    assert("messageId"@.len() == 9);
    assert("response"@.len() == 8);
    assert("userKeyB64"@.len() == 10);
    assert("appId"@.len() == 5);
    assert("sharedSecret"@.len() == 12);
    assert("app_id"@.len() == 6);
    assert("message"@.len() == 7);
    assert("timestamp"@[0] == 't');
    assert("messageId"@[0] == 'm');
    assert("command"@[0] == 'c');
    assert("message"@[0] == 'm');
}

/// The field values of one outbound response: what dispatch decides, free of
/// the clock and string representations.
pub struct ResponseModel {
    pub command: Seq<char>,
    pub message_id: i64,
    pub response: ResponseData,
    pub key: Option<Seq<char>>,
    pub timestamp: u64,
}

/// The model of a composed response message.
pub open spec fn response_model_of(resp: &ResponseMessage) -> ResponseModel {
    ResponseModel {
        command: resp.command_spec(),
        message_id: resp.message_id_spec(),
        response: resp.response_spec(),
        key: resp.key_spec(),
        timestamp: resp.timestamp_spec(),
    }
}

/// The command table: what dispatch answers, as a function of the vault's
/// contents, the decoded command and the presence-gate probe. An unlock failure of
/// any kind is swallowed into a negative boolean response; a missing `userId`
/// where one is required is an error that ends the session; an unknown
/// command gets no response at all.
pub open spec fn dispatch_spec(
    vault: Map<Seq<char>, Seq<u8>>,
    command: Seq<char>,
    message_id: i64,
    user_id: Option<Seq<char>>,
    gate: GateReading,
    now_millis: u64,
) -> Result<Option<ResponseModel>, DispatchError> {
    if command == cmd_unlock() {
        match user_id {
            None => Err(DispatchError::MissingUserId),
            Some(u) => Ok(
                Some(
                    ResponseModel {
                        command,
                        message_id,
                        timestamp: now_millis,
                        response: if export_spec(vault, u, gate) is Ok {
                            ResponseData::Bool(true)
                        } else {
                            ResponseData::Bool(false)
                        },
                        key: match export_spec(vault, u, gate) {
                            Ok(k) => Some(k),
                            Err(_) => None,
                        },
                    },
                ),
            ),
        }
    } else if command == cmd_authenticate() {
        Ok(
            Some(
                ResponseModel {
                    command,
                    message_id,
                    timestamp: now_millis,
                    response: ResponseData::Bool(gate.presence_verified),
                    key: None,
                },
            ),
        )
    } else if command == cmd_status() {
        Ok(
            Some(
                ResponseModel {
                    command,
                    message_id,
                    timestamp: now_millis,
                    response: ResponseData::Number(availability_code_spec(gate.availability)),
                    key: None,
                },
            ),
        )
    } else if command == cmd_status_user() {
        match user_id {
            None => Err(DispatchError::MissingUserId),
            Some(u) => Ok(
                Some(
                    ResponseModel {
                        command,
                        message_id,
                        timestamp: now_millis,
                        response: ResponseData::Number(
                            if vault.contains_key(u) {
                                0i32
                            } else {
                                4i32
                            },
                        ),
                        key: None,
                    },
                ),
            ),
        }
    } else {
        Ok(None)
    }
}

/// Routes one decrypted command and composes its response: behaves exactly as
/// [`dispatch_spec`] on the vault's contents and the message's fields.
pub fn handle_message(
    vault: &KeyManager,
    msg: &EncryptedMessage,
    gate: GateReading,
    now_millis: u64,
) -> (r: Result<Option<ResponseMessage>, DispatchError>)
    requires
        vault.wf(),
    ensures
        ({
            let d = dispatch_spec(
                vault@,
                msg.command_spec(),
                msg.message_id_spec(),
                msg.user_id_spec(),
                gate,
                now_millis,
            );
            match r {
                Ok(Some(resp)) => d == Ok::<Option<ResponseModel>, DispatchError>(
                    Some(response_model_of(&resp)),
                ),
                Ok(None) => d == Ok::<Option<ResponseModel>, DispatchError>(None),
                Err(e) => d == Err::<Option<ResponseModel>, DispatchError>(e),
            }
        }),
{
    proof {
        lemma_commands_distinct();
    }
    let command = msg.command();
    if str_eq(command, "unlockWithBiometricsForUser") {
        let user_id = match msg.user_id() {
            Some(u) => u,
            None => {
                return Err(DispatchError::MissingUserId);
            },
        };
        let resp = match vault.export_key(user_id, gate) {
            Ok(bw_key) => ResponseMessage::with_key(
                command,
                msg.message_id(),
                ResponseData::Bool(true),
                Some(bw_key),
                now_millis,
            ),
            Err(_) => ResponseMessage::new(
                command,
                msg.message_id(),
                ResponseData::Bool(false),
                now_millis,
            ),
        };
        Ok(Some(resp))
    } else if str_eq(command, "authenticateWithBiometrics") {
        Ok(
            Some(
                ResponseMessage::new(
                    command,
                    msg.message_id(),
                    ResponseData::Bool(gate.presence_verified),
                    now_millis,
                ),
            ),
        )
    } else if str_eq(command, "getBiometricsStatus") {
        Ok(
            Some(
                ResponseMessage::new(
                    command,
                    msg.message_id(),
                    ResponseData::Number(availability_code(gate.availability)),
                    now_millis,
                ),
            ),
        )
    } else if str_eq(command, "getBiometricsStatusForUser") {
        let user_id = match msg.user_id() {
            Some(u) => u,
            None => {
                return Err(DispatchError::MissingUserId);
            },
        };
        let code: i32 = if vault.check_key_exists(user_id) {
            0
        } else {
            4
        };
        Ok(
            Some(
                ResponseMessage::new(
                    command,
                    msg.message_id(),
                    ResponseData::Number(code),
                    now_millis,
                ),
            ),
        )
    } else {
        Ok(None)
    }
}

/// Whether answering this message requires the blocking presence check to be
/// run first: always for the authenticate command, and for the unlock command
/// exactly when the capability reports itself available (any other status
/// delegates to the platform layer's own gating). No other command consults
/// the check.
pub fn presence_needed(msg: &EncryptedMessage, availability: Availability) -> (r: bool)
    ensures
        r == (msg.command_spec() == cmd_authenticate() || (msg.command_spec() == cmd_unlock()
            && availability == Availability::Available)),
{
    str_eq(msg.command(), "authenticateWithBiometrics") || (str_eq(
        msg.command(),
        "unlockWithBiometricsForUser",
    ) && presence_check_required(availability))
}

/// The string member of an object under a key, `None` where the key is
/// absent or holds another kind of value.
pub open spec fn obj_str(o: Map<Seq<char>, JsonVal>, k: Seq<char>) -> Option<Seq<char>> {
    if o.contains_key(k) {
        match o[k] {
            JsonVal::Str(s) => Some(s),
            _ => None,
        }
    } else {
        None
    }
}

/// The envelope's `appId`, a required string member.
pub open spec fn doc_app_id(d: JsonVal) -> Option<Seq<char>> {
    match d {
        JsonVal::Obj(o) => obj_str(o, "appId"@),
        _ => None,
    }
}

/// The envelope's `message` member.
pub open spec fn doc_message(d: JsonVal) -> Option<JsonVal> {
    match d {
        JsonVal::Obj(o) => if o.contains_key("message"@) {
            Some(o["message"@])
        } else {
            None
        },
        _ => None,
    }
}

/// Whether a `message` is the handshake: its `command` is the string
/// `setupEncryption` and it carries a string `publicKey`.
pub open spec fn is_handshake_msg(m: JsonVal) -> bool {
    m matches JsonVal::Obj(o) && obj_str(o, "command"@) == Some("setupEncryption"@) && obj_str(
        o,
        "publicKey"@,
    ) is Some
}

/// The handshake's public key text.
pub open spec fn handshake_pk(m: JsonVal) -> Seq<char>
    recommends
        is_handshake_msg(m),
{
    obj_str(m->Obj_0, "publicKey"@).unwrap()
}

/// The three base64 fields of a sealed envelope's `message`, present exactly
/// when it carries `encryptionType` and string `data`, `iv` and `mac`.
pub open spec fn envelope_strings(m: JsonVal) -> Option<(Seq<char>, Seq<char>, Seq<char>)> {
    match m {
        JsonVal::Obj(o) => if o.contains_key("encryptionType"@) {
            if obj_str(o, "data"@) is Some && obj_str(o, "iv"@) is Some && obj_str(
                o,
                "mac"@,
            ) is Some {
                Some((obj_str(o, "data"@).unwrap(), obj_str(o, "iv"@).unwrap(), obj_str(
                    o,
                    "mac"@,
                ).unwrap()))
            } else {
                None
            }
        } else {
            None
        },
        _ => None,
    }
}

/// The fields of a decrypted inbound command: a string `command`, an i64
/// `messageId`, and a `userId` that is absent, null or a string.
pub open spec fn payload_fields(d: JsonVal) -> Option<(Seq<char>, i64, Option<Seq<char>>)> {
    match d {
        JsonVal::Obj(o) => match obj_str(o, "command"@) {
            Some(c) => {
                let mid = if o.contains_key("messageId"@) {
                    match o["messageId"@] {
                        JsonVal::Int(n) => if i64::MIN <= n <= i64::MAX {
                            Some(n as i64)
                        } else {
                            None
                        },
                        _ => None,
                    }
                } else {
                    None
                };
                match mid {
                    Some(n) => if !o.contains_key("userId"@) {
                        Some((c, n, None))
                    } else {
                        match o["userId"@] {
                            JsonVal::Null => Some((c, n, None)),
                            JsonVal::Str(u) => Some((c, n, Some(u))),
                            _ => None,
                        }
                    },
                    None => None,
                }
            },
            None => None,
        },
        _ => None,
    }
}

/// One decoded inbound frame: the one-time handshake in the clear, or a
/// sealed envelope.
pub enum Inbound {
    Handshake { app_id: String, public_key_b64: String },
    Sealed { app_id: String, env: EncString },
}

/// Decodes one frame body. The JSON envelope must carry a string `appId`; a
/// `message` whose `command` is `setupEncryption` and which carries a string
/// `publicKey` is the handshake; any other `message` must hold the four
/// fields of a sealed envelope, its base64 text decoded. Each error names
/// the first requirement the document misses.
pub fn decode_inbound(bytes: &[u8]) -> (r: Result<Inbound, ProtocolError>)
    ensures
        json_parse(bytes@) is None <==> r == Err::<Inbound, ProtocolError>(ProtocolError::Json),
        json_parse(bytes@) matches Some(d) ==> (match doc_app_id(d) {
            None => r == Err::<Inbound, ProtocolError>(ProtocolError::MissingAppId),
            Some(a) => (match doc_message(d) {
                None => r == Err::<Inbound, ProtocolError>(ProtocolError::MissingMessage),
                Some(m) => if is_handshake_msg(m) {
                    (r matches Ok(i) && i matches Inbound::Handshake { app_id, public_key_b64 }
                        && app_id@ == a && public_key_b64@ == handshake_pk(m))
                } else {
                    match envelope_strings(m) {
                        None => r == Err::<Inbound, ProtocolError>(ProtocolError::BadEnvelope),
                        Some(parts) => {
                            &&& (forall|db: Seq<u8>, ib: Seq<u8>, mb: Seq<u8>|
                                #![trigger b64_of(db), b64_of(ib), b64_of(mb)]
                                parts.0 == b64_of(db) && parts.1 == b64_of(ib) && parts.2
                                    == b64_of(mb) ==> (r matches Ok(i) && i matches Inbound::Sealed {
                                    app_id,
                                    env,
                                } && app_id@ == a && env.data_spec() == db && env.iv_spec() == ib
                                    && env.mac_spec() == mb))
                            &&& (r matches Ok(i) ==> (i matches Inbound::Sealed { app_id, env }
                                && app_id@ == a && parts.0 == b64_of(env.data_spec()) && parts.1
                                == b64_of(env.iv_spec()) && parts.2 == b64_of(env.mac_spec())))
                            &&& (r is Err ==> r == Err::<Inbound, ProtocolError>(
                                ProtocolError::BadEnvelope,
                            ))
                        },
                    }
                },
            }),
        }),
{
    let doc = match json_from_slice(bytes) {
        Ok(v) => v,
        Err(e) => {
            return Err(e);
        },
    };
    let app_id = match json_get(&doc, "appId") {
        Some(v) => match json_as_str(v) {
            Some(s) => s.to_owned(),
            None => {
                return Err(ProtocolError::MissingAppId);
            },
        },
        None => {
            return Err(ProtocolError::MissingAppId);
        },
    };
    let message = match json_get(&doc, "message") {
        Some(m) => m,
        None => {
            return Err(ProtocolError::MissingMessage);
        },
    };
    if let Some(command) = json_get(message, "command") {
        if let Some(command) = json_as_str(command) {
            if str_eq(command, "setupEncryption") {
                if let Some(pk) = json_get(message, "publicKey") {
                    if let Some(pk) = json_as_str(pk) {
                        return Ok(Inbound::Handshake { app_id, public_key_b64: pk.to_owned() });
                    }
                }
            }
        }
    }
    if json_get(message, "encryptionType").is_none() {
        return Err(ProtocolError::BadEnvelope);
    }
    let data = match json_get(message, "data") {
        Some(v) => match json_as_str(v) {
            Some(s) => s,
            None => {
                return Err(ProtocolError::BadEnvelope);
            },
        },
        None => {
            return Err(ProtocolError::BadEnvelope);
        },
    };
    let iv = match json_get(message, "iv") {
        Some(v) => match json_as_str(v) {
            Some(s) => s,
            None => {
                return Err(ProtocolError::BadEnvelope);
            },
        },
        None => {
            return Err(ProtocolError::BadEnvelope);
        },
    };
    let mac = match json_get(message, "mac") {
        Some(v) => match json_as_str(v) {
            Some(s) => s,
            None => {
                return Err(ProtocolError::BadEnvelope);
            },
        },
        None => {
            return Err(ProtocolError::BadEnvelope);
        },
    };
    match EncString::from_b64_parts(data, iv, mac) {
        Ok(env) => Ok(Inbound::Sealed { app_id, env }),
        Err(_) => Err(ProtocolError::BadEnvelope),
    }
}

/// Parses a decrypted payload as an inbound command: exactly the fields
/// [`payload_fields`] reads out of the document the payload parses as.
pub fn parse_inbound_command(plain: &[u8]) -> (r: Result<EncryptedMessage, ProtocolError>)
    ensures
        json_parse(plain@) is None ==> r == Err::<EncryptedMessage, ProtocolError>(
            ProtocolError::BadPayload,
        ),
        json_parse(plain@) matches Some(d) ==> (match payload_fields(d) {
            None => r == Err::<EncryptedMessage, ProtocolError>(ProtocolError::BadPayload),
            Some(fields) => (r matches Ok(msg) && msg.command_spec() == fields.0
                && msg.message_id_spec() == fields.1 && msg.user_id_spec() == fields.2),
        }),
{
    let doc = match json_from_slice(plain) {
        Ok(v) => v,
        Err(_) => {
            return Err(ProtocolError::BadPayload);
        },
    };
    let command = match json_get(&doc, "command") {
        Some(v) => match json_as_str(v) {
            Some(s) => s.to_owned(),
            None => {
                return Err(ProtocolError::BadPayload);
            },
        },
        None => {
            return Err(ProtocolError::BadPayload);
        },
    };
    let message_id = match json_get(&doc, "messageId") {
        Some(v) => match json_as_i64(v) {
            Some(n) => n,
            None => {
                return Err(ProtocolError::BadPayload);
            },
        },
        None => {
            return Err(ProtocolError::BadPayload);
        },
    };
    let user_id = match json_get(&doc, "userId") {
        Some(v) => if json_is_null(v) {
            None
        } else {
            match json_as_str(v) {
                Some(s) => Some(s.to_owned()),
                None => {
                    return Err(ProtocolError::BadPayload);
                },
            }
        },
        None => None,
    };
    Ok(EncryptedMessage::new(command, message_id, user_id))
}

/// The document a response serializes to: an object with `timestamp`,
/// `command`, `messageId`, `response` and `userKeyB64` (the exported key or
/// null).
pub open spec fn response_json(m: ResponseModel) -> JsonVal {
    JsonVal::Obj(
        Map::empty().insert("timestamp"@, JsonVal::Int(m.timestamp as int)).insert(
            "command"@,
            JsonVal::Str(m.command),
        ).insert("messageId"@, JsonVal::Int(m.message_id as int)).insert(
            "response"@,
            match m.response {
                ResponseData::Number(n) => JsonVal::Int(n as int),
                ResponseData::Bool(b) => JsonVal::Bool(b),
            },
        ).insert(
            "userKeyB64"@,
            match m.key {
                Some(k) => JsonVal::Str(k),
                None => JsonVal::Null,
            },
        ),
    )
}

/// The JSON bytes of a response: the serialization of [`response_json`] of
/// its model.
pub fn response_to_json(resp: &ResponseMessage) -> (r: Result<Vec<u8>, ProtocolError>)
    ensures
        r matches Ok(b) ==> b@ == json_text(response_json(response_model_of(resp))),
        r is Ok,
{
    let mut m = json_map_new();
    let _ = json_map_insert(&mut m, String::from_str("timestamp"), json_u64(resp.timestamp()));
    let _ = json_map_insert(
        &mut m,
        String::from_str("command"),
        json_string(resp.command().to_owned()),
    );
    let _ = json_map_insert(&mut m, String::from_str("messageId"), json_i64(resp.message_id()));
    let value = match resp.response() {
        ResponseData::Number(n) => json_i64(n as i64),
        ResponseData::Bool(b) => json_bool(b),
    };
    let _ = json_map_insert(&mut m, String::from_str("response"), value);
    let key = match resp.key() {
        Some(k) => json_string(k.to_owned()),
        None => json_null(),
    };
    let _ = json_map_insert(&mut m, String::from_str("userKeyB64"), key);
    let doc = json_object(m);
    proof {
        lemma_wire_keys_distinct();
        let target = response_json(response_model_of(resp));
        let dm = crate::json::json_model(doc)->Obj_0;
        let tm = target->Obj_0;
        assert(dm.contains_key("timestamp"@));
        assert(dm["timestamp"@] == JsonVal::Int(resp.timestamp_spec() as int));
        assert(tm["timestamp"@] == JsonVal::Int(resp.timestamp_spec() as int));
        assert(dm["command"@] == JsonVal::Str(resp.command_spec()));
        assert(tm["command"@] == JsonVal::Str(resp.command_spec()));
        assert(forall|k: Seq<char>| dm.contains_key(k) == tm.contains_key(k));
        assert(dm =~= tm);
        assert(crate::json::json_model(doc) =~~= target);
        assert forall|k: Seq<char>| #[trigger] target->Obj_0.contains_key(k) implies exact_model(
            target->Obj_0[k],
        ) by {
        }
        assert(exact_model(target));
    }
    json_to_vec(&doc)
}

/// The document of the clear handshake reply: `{command: "setupEncryption",
/// appId, sharedSecret}`.
pub open spec fn handshake_reply_model(app_id: Seq<char>, shared_secret_b64: Seq<char>) -> JsonVal {
    JsonVal::Obj(
        Map::empty().insert("command"@, JsonVal::Str("setupEncryption"@)).insert(
            "appId"@,
            JsonVal::Str(app_id),
        ).insert("sharedSecret"@, JsonVal::Str(shared_secret_b64)),
    )
}

/// The clear handshake reply: the serialization of [`handshake_reply_model`]
/// of the echoed `appId` and the wrapped session secret.
pub fn handshake_reply(app_id: &str, shared_secret_b64: &str) -> (r: Result<Vec<u8>, ProtocolError>)
    ensures
        r matches Ok(b) ==> b@ == json_text(handshake_reply_model(app_id@, shared_secret_b64@)),
        r is Ok,
{
    let mut m = json_map_new();
    let _ = json_map_insert(
        &mut m,
        String::from_str("command"),
        json_string(String::from_str("setupEncryption")),
    );
    let _ = json_map_insert(&mut m, String::from_str("appId"), json_string(app_id.to_owned()));
    let _ = json_map_insert(
        &mut m,
        String::from_str("sharedSecret"),
        json_string(shared_secret_b64.to_owned()),
    );
    let doc = json_object(m);
    proof {
        lemma_wire_keys_distinct();
        let target = handshake_reply_model(app_id@, shared_secret_b64@);
        let dm = crate::json::json_model(doc)->Obj_0;
        let tm = target->Obj_0;
        assert(dm["command"@] == JsonVal::Str("setupEncryption"@));
        assert(tm["command"@] == JsonVal::Str("setupEncryption"@));
        assert(dm["appId"@] == JsonVal::Str(app_id@));
        assert(tm["appId"@] == JsonVal::Str(app_id@));
        assert(forall|k: Seq<char>| dm.contains_key(k) == tm.contains_key(k));
        assert(dm =~= tm);
        assert(crate::json::json_model(doc) =~~= target);
        assert forall|k: Seq<char>| #[trigger] target->Obj_0.contains_key(k) implies exact_model(
            target->Obj_0[k],
        ) by {
        }
        assert(exact_model(target));
    }
    json_to_vec(&doc)
}

/// The document of the greeting sent once when the channel opens.
pub open spec fn connected_model() -> JsonVal {
    JsonVal::Obj(
        Map::empty().insert("command"@, JsonVal::Str("connected"@)).insert(
            "app_id"@,
            JsonVal::Str("com.8bit.bitwarden"@),
        ),
    )
}

/// The greeting sent once when the channel opens: the serialization of
/// [`connected_model`].
pub fn connected_message() -> (r: Result<Vec<u8>, ProtocolError>)
    ensures
        r matches Ok(b) ==> b@ == json_text(connected_model()),
        r is Ok,
{
    let mut m = json_map_new();
    let _ = json_map_insert(
        &mut m,
        String::from_str("command"),
        json_string(String::from_str("connected")),
    );
    let _ = json_map_insert(
        &mut m,
        String::from_str("app_id"),
        json_string(String::from_str("com.8bit.bitwarden")),
    );
    let doc = json_object(m);
    proof {
        lemma_wire_keys_distinct();
        let target = connected_model();
        let dm = crate::json::json_model(doc)->Obj_0;
        let tm = target->Obj_0;
        assert(dm["command"@] == JsonVal::Str("connected"@));
        assert(tm["command"@] == JsonVal::Str("connected"@));
        assert(forall|k: Seq<char>| dm.contains_key(k) == tm.contains_key(k));
        assert(dm =~= tm);
        assert(crate::json::json_model(doc) =~~= target);
        assert forall|k: Seq<char>| #[trigger] target->Obj_0.contains_key(k) implies exact_model(
            target->Obj_0[k],
        ) by {
        }
        assert(exact_model(target));
    }
    json_to_vec(&doc)
}

/// The textual wire form of a seal of `plain` under the given keys and IV:
/// what `EncString::to_string` yields for it.
pub open spec fn sealed_text(
    enc_key: Seq<u8>,
    mac_key: Seq<u8>,
    iv: Seq<u8>,
    plain: Seq<u8>,
) -> Seq<char> {
    "2."@ + b64_of(iv) + "|"@ + b64_of(aes256_cbc_of(enc_key, iv, plain)) + "|"@ + b64_of(
        hmac_sha256_of(mac_key, iv + aes256_cbc_of(enc_key, iv, plain)),
    )
}

/// The document of one sealed outbound frame: `{appId, messageId, message:
/// {encryptedString}}`.
pub open spec fn outbound_model(
    app_id: Seq<char>,
    message_id: i64,
    enc_string: Seq<char>,
) -> JsonVal {
    JsonVal::Obj(
        Map::empty().insert("appId"@, JsonVal::Str(app_id)).insert(
            "messageId"@,
            JsonVal::Int(message_id as int),
        ).insert(
            "message"@,
            JsonVal::Obj(Map::empty().insert("encryptedString"@, JsonVal::Str(enc_string))),
        ),
    )
}

/// Seals a response under the session secret and wraps it in the outer
/// envelope: the output serializes [`outbound_model`] of the echoed `appId`,
/// the response's id, and the textual seal — under a fresh IV — of the
/// response's JSON bytes. A response never leaves unsealed.
pub fn seal_outbound(secret: &Aes256CbcHmacKey, app_id: &str, resp: &ResponseMessage) -> (r: Result<
    Vec<u8>,
    SessionError,
>)
    ensures
        r matches Ok(b) ==> exists|ivb: Seq<u8>|
            ivb.len() == 16 && b@ == json_text(
                outbound_model(
                    app_id@,
                    resp.message_id_spec(),
                    sealed_text(
                        secret.enc_key_spec(),
                        secret.mac_key_spec(),
                        ivb,
                        json_text(response_json(response_model_of(resp))),
                    ),
                ),
            ),
        r is Ok,
{
    let plain = match response_to_json(resp) {
        Ok(b) => b,
        Err(e) => {
            return Err(SessionError::Protocol(e));
        },
    };
    let env = match secret.encrypt(plain.as_slice()) {
        Ok(env) => env,
        Err(e) => {
            return Err(SessionError::Crypto(e));
        },
    };
    let enc_string = env.to_string();
    let ghost ivb = env.iv_spec();
    proof {
        assert(enc_string@ == sealed_text(
            secret.enc_key_spec(),
            secret.mac_key_spec(),
            ivb,
            plain@,
        ));
    }
    let mut m = json_map_new();
    let _ = json_map_insert(&mut m, String::from_str("appId"), json_string(app_id.to_owned()));
    let _ = json_map_insert(&mut m, String::from_str("messageId"), json_i64(resp.message_id()));
    let mut inner = json_map_new();
    let _ = json_map_insert(&mut inner, String::from_str("encryptedString"), json_string(
        enc_string,
    ));
    let inner_doc = json_object(inner);
    let _ = json_map_insert(&mut m, String::from_str("message"), inner_doc);
    let doc = json_object(m);
    proof {
        lemma_wire_keys_distinct();
        let target = outbound_model(app_id@, resp.message_id_spec(), sealed_text(
            secret.enc_key_spec(),
            secret.mac_key_spec(),
            ivb,
            json_text(response_json(response_model_of(resp))),
        ));
        let dm = crate::json::json_model(doc)->Obj_0;
        let tm = target->Obj_0;
        let dinner = dm["message"@]->Obj_0;
        let tinner = tm["message"@]->Obj_0;
        assert(dinner["encryptedString"@] == tinner["encryptedString"@]);
        assert(forall|k: Seq<char>| dinner.contains_key(k) == tinner.contains_key(k));
        assert(dinner =~= tinner);
        assert(dm["message"@] =~~= tm["message"@]);
        assert(dm["appId"@] == JsonVal::Str(app_id@));
        assert(tm["appId"@] == JsonVal::Str(app_id@));
        assert(forall|k: Seq<char>| dm.contains_key(k) == tm.contains_key(k));
        assert forall|k: Seq<char>| #[trigger] dm.contains_key(k) implies dm[k] =~~= tm[k] by {
        }
        assert(dm =~~= tm);
        assert(crate::json::json_model(doc) =~~= target);
        let inner_map = target->Obj_0["message"@]->Obj_0;
        assert forall|k: Seq<char>| #[trigger] inner_map.contains_key(k) implies exact_model(
            inner_map[k],
        ) by {
        }
        assert(exact_model(target->Obj_0["message"@]));
        assert forall|k: Seq<char>| #[trigger] target->Obj_0.contains_key(k) implies exact_model(
            target->Obj_0[k],
        ) by {
        }
        assert(exact_model(target));
    }
    match json_to_vec(&doc) {
        Ok(b) => Ok(b),
        Err(e) => Err(SessionError::Protocol(e)),
    }
}

/// One opened inbound frame, ready for its authorization decision: the
/// handshake, or a decrypted and parsed command.
pub enum Opened {
    Handshake { app_id: String, public_key_b64: String },
    Command { app_id: String, msg: EncryptedMessage },
}

/// What opening a sealed envelope leaves, given its decoded fields: a forged
/// or corrupted envelope fails with the integrity error before anything is
/// decrypted; an accepted envelope's plaintext must parse as an inbound
/// command.
pub open spec fn sealed_open_post(
    enc_key: Seq<u8>,
    mac_key: Seq<u8>,
    a: Seq<char>,
    db: Seq<u8>,
    ib: Seq<u8>,
    mb: Seq<u8>,
    r: Result<Opened, SessionError>,
) -> bool {
    &&& (!mac_accepts(mac_key, ib, db, mb) ==> r == Err::<Opened, SessionError>(
        SessionError::Crypto(CryptoError::Integrity),
    ))
    &&& (mac_accepts(mac_key, ib, db, mb) && ib.len() != 16 ==> r == Err::<Opened, SessionError>(
        SessionError::Crypto(CryptoError::BadIvLength),
    ))
    &&& (mac_accepts(mac_key, ib, db, mb) && ib.len() == 16 && (forall|p: Seq<u8>|
        db != aes256_cbc_of(enc_key, ib, p)) ==> r == Err::<Opened, SessionError>(
        SessionError::Crypto(CryptoError::Padding),
    ))
    &&& (mac_accepts(mac_key, ib, db, mb) && ib.len() == 16 ==> (forall|p: Seq<u8>|
        db == aes256_cbc_of(enc_key, ib, p) ==> opened_command_post(a, p, r)))
}

/// What a decrypted payload must open to: the parsed command's fields, or the
/// payload error.
pub open spec fn opened_command_post(
    a: Seq<char>,
    p: Seq<u8>,
    r: Result<Opened, SessionError>,
) -> bool {
    match json_parse(p) {
        None => r == Err::<Opened, SessionError>(SessionError::Protocol(ProtocolError::BadPayload)),
        Some(d) => match payload_fields(d) {
            None => r == Err::<Opened, SessionError>(
                SessionError::Protocol(ProtocolError::BadPayload),
            ),
            Some(fields) => (r matches Ok(o) && o matches Opened::Command { app_id, msg }
                && app_id@ == a && msg.command_spec() == fields.0 && msg.message_id_spec()
                == fields.1 && msg.user_id_spec() == fields.2),
        },
    }
}

/// Opens one frame body without deciding anything: decodes it, and for a
/// sealed envelope verifies and decrypts it against the session secret and
/// parses the command. The caller then takes its presence-gate reading —
/// [`presence_needed`] says whether the blocking check must be run — and
/// answers with [`answer_opened`].
pub fn open_frame(secret: &Aes256CbcHmacKey, frame: &[u8]) -> (r: Result<Opened, SessionError>)
    ensures
        json_parse(frame@) is None <==> r == Err::<Opened, SessionError>(
            SessionError::Protocol(ProtocolError::Json),
        ),
        json_parse(frame@) matches Some(d) ==> (match doc_app_id(d) {
            None => r == Err::<Opened, SessionError>(
                SessionError::Protocol(ProtocolError::MissingAppId),
            ),
            Some(a) => (match doc_message(d) {
                None => r == Err::<Opened, SessionError>(
                    SessionError::Protocol(ProtocolError::MissingMessage),
                ),
                Some(m) => if is_handshake_msg(m) {
                    (r matches Ok(o) && o matches Opened::Handshake { app_id, public_key_b64 }
                        && app_id@ == a && public_key_b64@ == handshake_pk(m))
                } else {
                    match envelope_strings(m) {
                        None => r == Err::<Opened, SessionError>(
                            SessionError::Protocol(ProtocolError::BadEnvelope),
                        ),
                        Some(parts) => {
                            &&& (forall|db: Seq<u8>, ib: Seq<u8>, mb: Seq<u8>|
                                #![trigger b64_of(db), b64_of(ib), b64_of(mb)]
                                parts.0 == b64_of(db) && parts.1 == b64_of(ib) && parts.2
                                    == b64_of(mb) ==> sealed_open_post(
                                    secret.enc_key_spec(),
                                    secret.mac_key_spec(),
                                    a,
                                    db,
                                    ib,
                                    mb,
                                    r,
                                ))
                            &&& (r is Err ==> (r == Err::<Opened, SessionError>(
                                SessionError::Protocol(ProtocolError::BadEnvelope),
                            ) || r == Err::<Opened, SessionError>(
                                SessionError::Protocol(ProtocolError::BadPayload),
                            ) || (r matches Err(e) && e matches SessionError::Crypto(_))))
                        },
                    }
                },
            }),
        }),
{
    match decode_inbound(frame) {
        Ok(Inbound::Handshake { app_id, public_key_b64 }) => Ok(
            Opened::Handshake { app_id, public_key_b64 },
        ),
        Ok(Inbound::Sealed { app_id, env }) => {
            let iv = match env.iv() {
                Ok(v) => v,
                Err(_) => {
                    return Err(SessionError::Protocol(ProtocolError::BadEnvelope));
                },
            };
            let mac = match env.mac() {
                Ok(v) => v,
                Err(_) => {
                    return Err(SessionError::Protocol(ProtocolError::BadEnvelope));
                },
            };
            let data = match env.data() {
                Ok(v) => v,
                Err(_) => {
                    return Err(SessionError::Protocol(ProtocolError::BadEnvelope));
                },
            };
            let plain = match secret.decrypt(iv.as_slice(), mac.as_slice(), data.as_slice()) {
                Ok(p) => p,
                Err(e) => {
                    return Err(SessionError::Crypto(e));
                },
            };
            match parse_inbound_command(plain.as_slice()) {
                Ok(msg) => Ok(Opened::Command { app_id, msg }),
                Err(e) => Err(SessionError::Protocol(e)),
            }
        },
        Err(e) => Err(SessionError::Protocol(e)),
    }
}

/// What answering a handshake leaves: the clear reply carrying the wrapped
/// session secret, owed whenever the peer's text decodes to a key big enough
/// for the 64-byte material; each refusal names its step.
pub open spec fn handshake_post(
    a: Seq<char>,
    pk: Seq<char>,
    r: Result<Option<Vec<u8>>, SessionError>,
) -> bool {
    &&& ((forall|b: Seq<u8>| pk != b64_of(b)) ==> r == Err::<Option<Vec<u8>>, SessionError>(
        SessionError::Crypto(CryptoError::Base64),
    ))
    &&& (forall|der: Seq<u8>|
        pk == b64_of(der) ==> {
            &&& (rsa_spki_modulus_len(der) is None ==> r == Err::<Option<Vec<u8>>, SessionError>(
                SessionError::Crypto(CryptoError::KeyImport),
            ))
            &&& (match rsa_spki_modulus_len(der) {
                Some(k) => if 64 + rsa_encrypt_overhead() <= k {
                    (r matches Ok(o) && o matches Some(b) && exists|ct: Seq<u8>|
                        ct.len() == k && b@ == json_text(handshake_reply_model(a, b64_of(ct))))
                } else {
                    r == Err::<Option<Vec<u8>>, SessionError>(
                        SessionError::Crypto(CryptoError::Asymmetric),
                    )
                },
                None => true,
            })
        })
}

/// What answering a parsed command leaves: no reply for an unknown tag, the
/// dispatch error for a missing `userId`, and otherwise one sealed frame
/// carrying the dispatched response.
pub open spec fn command_answer_post(
    enc_key: Seq<u8>,
    mac_key: Seq<u8>,
    vault: Map<Seq<char>, Seq<u8>>,
    a: Seq<char>,
    command: Seq<char>,
    message_id: i64,
    user_id: Option<Seq<char>>,
    gate: GateReading,
    now_millis: u64,
    r: Result<Option<Vec<u8>>, SessionError>,
) -> bool {
    match dispatch_spec(vault, command, message_id, user_id, gate, now_millis) {
        Err(e) => r == Err::<Option<Vec<u8>>, SessionError>(SessionError::Dispatch(e)),
        Ok(None) => r == Ok::<Option<Vec<u8>>, SessionError>(None),
        Ok(Some(m)) => (r matches Ok(o) && o matches Some(b) && exists|ivb: Seq<u8>|
            ivb.len() == 16 && b@ == json_text(
                outbound_model(
                    a,
                    m.message_id,
                    sealed_text(enc_key, mac_key, ivb, json_text(response_json(m))),
                ),
            )),
    }
}

/// Answers one opened frame: a handshake is answered in the clear with the
/// session secret wrapped to the peer's key; a command is dispatched under
/// the given presence-gate probe and its response, if the command produces
/// one, sealed. The probe is consulted only for commands.
pub fn answer_opened(
    secret: &Aes256CbcHmacKey,
    vault: &KeyManager,
    opened: &Opened,
    gate: GateReading,
    now_millis: u64,
) -> (r: Result<Option<Vec<u8>>, SessionError>)
    requires
        vault.wf(),
    ensures
        opened matches Opened::Handshake { app_id, public_key_b64 } ==> handshake_post(
            app_id@,
            public_key_b64@,
            r,
        ),
        opened matches Opened::Command { app_id, msg } ==> command_answer_post(
            secret.enc_key_spec(),
            secret.mac_key_spec(),
            vault@,
            app_id@,
            msg.command_spec(),
            msg.message_id_spec(),
            msg.user_id_spec(),
            gate,
            now_millis,
            r,
        ),
{
    match opened {
        Opened::Handshake { app_id, public_key_b64 } => {
            let key_material = secret.to_vec();
            let wrapped = match rsa_encrypt(public_key_b64.as_str(), key_material.as_slice()) {
                Ok(w) => w,
                Err(e) => {
                    return Err(SessionError::Crypto(e));
                },
            };
            match handshake_reply(app_id.as_str(), wrapped.as_str()) {
                Ok(b) => Ok(Some(b)),
                Err(e) => Err(SessionError::Protocol(e)),
            }
        },
        Opened::Command { app_id, msg } => {
            let resp = match handle_message(vault, msg, gate, now_millis) {
                Ok(Some(resp)) => resp,
                Ok(None) => {
                    return Ok(None);
                },
                Err(e) => {
                    return Err(SessionError::Dispatch(e));
                },
            };
            match seal_outbound(secret, app_id.as_str(), &resp) {
                Ok(b) => Ok(Some(b)),
                Err(e) => Err(e),
            }
        },
    }
}

/// What handling one sealed frame leaves, given the envelope's decoded
/// fields: the integrity error for a forged or corrupted envelope — nothing
/// is dispatched — and for an envelope that opens, the answer of the parsed
/// command.
pub open spec fn sealed_frame_post(
    enc_key: Seq<u8>,
    mac_key: Seq<u8>,
    vault: Map<Seq<char>, Seq<u8>>,
    a: Seq<char>,
    db: Seq<u8>,
    ib: Seq<u8>,
    mb: Seq<u8>,
    gate: GateReading,
    now_millis: u64,
    r: Result<Option<Vec<u8>>, SessionError>,
) -> bool {
    &&& (!mac_accepts(mac_key, ib, db, mb) ==> r == Err::<Option<Vec<u8>>, SessionError>(
        SessionError::Crypto(CryptoError::Integrity),
    ))
    &&& (mac_accepts(mac_key, ib, db, mb) && ib.len() != 16 ==> r == Err::<
        Option<Vec<u8>>,
        SessionError,
    >(SessionError::Crypto(CryptoError::BadIvLength)))
    &&& (mac_accepts(mac_key, ib, db, mb) && ib.len() == 16 && (forall|p: Seq<u8>|
        db != aes256_cbc_of(enc_key, ib, p)) ==> r == Err::<Option<Vec<u8>>, SessionError>(
        SessionError::Crypto(CryptoError::Padding),
    ))
    &&& (mac_accepts(mac_key, ib, db, mb) && ib.len() == 16 ==> (forall|p: Seq<u8>|
        db == aes256_cbc_of(enc_key, ib, p) ==> (match json_parse(p) {
            None => r == Err::<Option<Vec<u8>>, SessionError>(
                SessionError::Protocol(ProtocolError::BadPayload),
            ),
            Some(pd) => match payload_fields(pd) {
                None => r == Err::<Option<Vec<u8>>, SessionError>(
                    SessionError::Protocol(ProtocolError::BadPayload),
                ),
                Some(fields) => command_answer_post(
                    enc_key,
                    mac_key,
                    vault,
                    a,
                    fields.0,
                    fields.1,
                    fields.2,
                    gate,
                    now_millis,
                    r,
                ),
            },
        })))
}

/// Handles one frame body under one gate reading: opens it with
/// [`open_frame`] and answers it with [`answer_opened`]. A handshake is
/// answered in the clear with the wrapped session secret; a sealed frame
/// that opens is dispatched and its response sealed; a forged envelope
/// yields the integrity error and nothing is dispatched. `None` means the
/// frame gets no reply.
pub fn handle_frame(
    secret: &Aes256CbcHmacKey,
    vault: &KeyManager,
    gate: GateReading,
    now_millis: u64,
    frame: &[u8],
) -> (r: Result<Option<Vec<u8>>, SessionError>)
    requires
        vault.wf(),
    ensures
        json_parse(frame@) is None <==> r == Err::<Option<Vec<u8>>, SessionError>(
            SessionError::Protocol(ProtocolError::Json),
        ),
        json_parse(frame@) matches Some(d) ==> (match doc_app_id(d) {
            None => r == Err::<Option<Vec<u8>>, SessionError>(
                SessionError::Protocol(ProtocolError::MissingAppId),
            ),
            Some(a) => (match doc_message(d) {
                None => r == Err::<Option<Vec<u8>>, SessionError>(
                    SessionError::Protocol(ProtocolError::MissingMessage),
                ),
                Some(m) => if is_handshake_msg(m) {
                    handshake_post(a, handshake_pk(m), r)
                } else {
                    match envelope_strings(m) {
                        None => r == Err::<Option<Vec<u8>>, SessionError>(
                            SessionError::Protocol(ProtocolError::BadEnvelope),
                        ),
                        Some(parts) => forall|db: Seq<u8>, ib: Seq<u8>, mb: Seq<u8>|
                            #![trigger b64_of(db), b64_of(ib), b64_of(mb)]
                            parts.0 == b64_of(db) && parts.1 == b64_of(ib) && parts.2 == b64_of(
                                mb,
                            ) ==> sealed_frame_post(
                                secret.enc_key_spec(),
                                secret.mac_key_spec(),
                                vault@,
                                a,
                                db,
                                ib,
                                mb,
                                gate,
                                now_millis,
                                r,
                            ),
                    }
                },
            }),
        }),
{
    let opened = match open_frame(secret, frame) {
        Ok(o) => o,
        Err(e) => {
            return Err(e);
        },
    };
    answer_opened(secret, vault, &opened, gate, now_millis)
}

/// Whether a byte sequence is one well-formed frame: a little-endian length
/// prefix declaring exactly the body that follows.
pub open spec fn wf_frame(f: Seq<u8>) -> bool {
    f.len() >= 4 && f.len() - 4 == spec_u32_from_le_bytes(f.subrange(0, 4))
}

/// Runs a whole session over the bytes a channel delivered before closing:
/// the frames [`crate::framing::frames_of`] yields are answered in order,
/// one at a time, each under the given gate reading; a truncated or
/// zero-length last frame ends the session cleanly; a fatal error ends it
/// with that error and no partial recovery. Each frame's answer is fixed by
/// [`handle_frame`]'s contract; the answers' bytes are not a function of the
/// inputs, since every seal draws a fresh IV, so this contract pins the
/// count and framing of the replies and leaves their contents to the
/// per-frame contract.
pub fn run_session(
    secret: &Aes256CbcHmacKey,
    vault: &KeyManager,
    gate: GateReading,
    now_millis: u64,
    stream: &[u8],
) -> (r: Result<Vec<Vec<u8>>, SessionError>)
    requires
        vault.wf(),
    ensures
        r matches Ok(replies) ==> replies@.len() <= frames_of(stream@, 0).len(),
        r matches Ok(replies) ==> forall|i: int|
            0 <= i < replies@.len() ==> wf_frame(#[trigger] replies@[i]@),
        frames_of(stream@, 0).len() == 0 ==> (r matches Ok(replies) && replies@.len() == 0),
        frames_of(stream@, 0).len() > 0 && json_parse(frames_of(stream@, 0)[0]) is None ==> r
            == Err::<Vec<Vec<u8>>, SessionError>(SessionError::Protocol(ProtocolError::Json)),
{
    let mut replies: Vec<Vec<u8>> = Vec::new();
    let mut pos: usize = 0;
    let ghost mut consumed: int = 0;
    loop
        invariant
            pos <= stream@.len(),
            vault.wf(),
            0 <= consumed,
            frames_of(stream@, 0).len() == consumed + frames_of(stream@, pos as int).len(),
            replies@.len() <= consumed,
            forall|i: int| 0 <= i < replies@.len() ==> wf_frame(#[trigger] replies@[i]@),
            frames_of(stream@, 0).len() > 0 && json_parse(frames_of(stream@, 0)[0]) is None
                ==> pos == 0,
        decreases stream@.len() - pos,
    {
        let (body, next) = match next_frame(stream, pos) {
            FrameOutcome::Eof => {
                return Ok(replies);
            },
            FrameOutcome::Frame(body, next) => (body, next),
        };
        proof {
            consumed = consumed + 1;
        }
        match handle_frame(secret, vault, gate, now_millis, body.as_slice()) {
            Ok(Some(reply)) => {
                if reply.len() > 0xFFFF_FFFFusize {
                    return Err(SessionError::Protocol(ProtocolError::Json));
                }
                replies.push(encode_frame(reply.as_slice()));
            },
            Ok(None) => {},
            Err(e) => {
                return Err(e);
            },
        }
        pos = next;
    }
}

} // verus!
