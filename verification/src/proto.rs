//! The message shapes of the protocol: the sealed envelope that carries every
//! encrypted payload, the decrypted inbound command, and the outbound
//! response.

use vstd::prelude::*;

use crate::codec::{b64_of, base64_encode, base64_decode};
use crate::errors::{CryptoError, ProtocolError};

verus! {

use vstd::string::StringExecFns;

/// A sealed envelope: IV, PKCS7-padded ciphertext and MAC of one message.
///
/// The wire carries each field as base64 text; this form holds the decoded
/// bytes, and encodes or decodes only at the wire boundary.
#[derive(Debug, Clone)]
pub struct EncString {
    data: Vec<u8>,
    iv: Vec<u8>,
    mac: Vec<u8>,
}

impl EncString {
    /// The ciphertext bytes.
    pub closed spec fn data_spec(&self) -> Seq<u8> {
        self.data@
    }

    /// The IV bytes.
    pub closed spec fn iv_spec(&self) -> Seq<u8> {
        self.iv@
    }

    /// The MAC bytes.
    pub closed spec fn mac_spec(&self) -> Seq<u8> {
        self.mac@
    }

    pub fn new(data: &[u8], iv: &[u8], mac: &[u8]) -> (r: Self)
        ensures
            r.data_spec() == data@,
            r.iv_spec() == iv@,
            r.mac_spec() == mac@,
    {
        Self { data: slice_to_vec(data), iv: slice_to_vec(iv), mac: slice_to_vec(mac) }
    }

    /// Rebuilds an envelope from the three base64 fields of its wire form.
    pub fn from_b64_parts(data: &str, iv: &str, mac: &str) -> (r: Result<Self, CryptoError>)
        ensures
            forall|d: Seq<u8>, i: Seq<u8>, m: Seq<u8>|
                data@ == b64_of(d) && iv@ == b64_of(i) && mac@ == b64_of(m) ==> r is Ok
                    && r.unwrap().data_spec() == d && r.unwrap().iv_spec() == i
                    && r.unwrap().mac_spec() == m,
            r is Ok ==> data@ == b64_of(r.unwrap().data_spec()) && iv@ == b64_of(
                r.unwrap().iv_spec(),
            ) && mac@ == b64_of(r.unwrap().mac_spec()),
            r matches Err(e) ==> e == CryptoError::Base64,
    {
        let data = match base64_decode(data) {
            Ok(v) => v,
            Err(e) => {
                return Err(e);
            },
        };
        let iv = match base64_decode(iv) {
            Ok(v) => v,
            Err(e) => {
                return Err(e);
            },
        };
        let mac = match base64_decode(mac) {
            Ok(v) => v,
            Err(e) => {
                return Err(e);
            },
        };
        Ok(Self { data, iv, mac })
    }

    pub fn data(&self) -> (r: Result<Vec<u8>, CryptoError>)
        ensures
            r is Ok && r.unwrap()@ == self.data_spec(),
    {
        Ok(self.data.clone())
    }

    pub fn iv(&self) -> (r: Result<Vec<u8>, CryptoError>)
        ensures
            r is Ok && r.unwrap()@ == self.iv_spec(),
    {
        Ok(self.iv.clone())
    }

    pub fn mac(&self) -> (r: Result<Vec<u8>, CryptoError>)
        ensures
            r is Ok && r.unwrap()@ == self.mac_spec(),
    {
        Ok(self.mac.clone())
    }

    /// The textual wire form `2.<iv>|<data>|<mac>`, each field base64.
    pub fn to_string(&self) -> (r: String)
        ensures
            r@ == "2."@ + b64_of(self.iv_spec()) + "|"@ + b64_of(self.data_spec()) + "|"@
                + b64_of(self.mac_spec()),
    {
        let mut s = String::from_str("2.");
        s.append(base64_encode(self.iv.as_slice()).as_str());
        s.append("|");
        s.append(base64_encode(self.data.as_slice()).as_str());
        s.append("|");
        s.append(base64_encode(self.mac.as_slice()).as_str());
        s
    }
}

/// A decrypted inbound command: tag, correlation id, optional subject user.
#[derive(Debug, Clone)]
pub struct EncryptedMessage {
    command: String,
    message_id: i64,
    user_id: Option<String>,
}

impl EncryptedMessage {
    pub closed spec fn command_spec(&self) -> Seq<char> {
        self.command@
    }

    pub closed spec fn message_id_spec(&self) -> i64 {
        self.message_id
    }

    pub closed spec fn user_id_spec(&self) -> Option<Seq<char>> {
        match self.user_id {
            Some(u) => Some(u@),
            None => None,
        }
    }

    pub fn new(command: String, message_id: i64, user_id: Option<String>) -> (r: Self)
        ensures
            r.command_spec() == command@,
            r.message_id_spec() == message_id,
            r.user_id_spec() == match user_id {
                Some(u) => Some::<Seq<char>>(u@),
                None => None::<Seq<char>>,
            },
    {
        Self { command, message_id, user_id }
    }

    pub fn command(&self) -> (r: &str)
        ensures
            r@ == self.command_spec(),
    {
        self.command.as_str()
    }

    pub fn message_id(&self) -> (r: i64)
        ensures
            r == self.message_id_spec(),
    {
        self.message_id
    }

    pub fn user_id(&self) -> (r: Option<&str>)
        ensures
            match r {
                Some(u) => self.user_id_spec() == Some(u@),
                None => self.user_id_spec() is None,
            },
    {
        match &self.user_id {
            Some(u) => Some(u.as_str()),
            None => None,
        }
    }
}

/// The tagged value of a response: a status code or a boolean outcome.
#[derive(Debug, Clone, Copy, PartialEq, Eq, Structural)]
pub enum ResponseData {
    Number(i32),
    Bool(bool),
}

/// One outbound response: timestamp, echoed tag and id, value, optional
/// exported key.
#[derive(Debug, Clone)]
pub struct ResponseMessage {
    timestamp: u64,
    command: String,
    message_id: i64,
    response: ResponseData,
    key: Option<String>,
}

impl ResponseMessage {
    pub closed spec fn timestamp_spec(&self) -> u64 {
        self.timestamp
    }

    pub closed spec fn command_spec(&self) -> Seq<char> {
        self.command@
    }

    pub closed spec fn message_id_spec(&self) -> i64 {
        self.message_id
    }

    pub closed spec fn response_spec(&self) -> ResponseData {
        self.response
    }

    pub closed spec fn key_spec(&self) -> Option<Seq<char>> {
        match self.key {
            Some(k) => Some(k@),
            None => None,
        }
    }

    /// A response without an exported key. The caller supplies the current
    /// time in milliseconds since the epoch; the clock lives at the
    /// process edge.
    pub fn new(command: &str, message_id: i64, response: ResponseData, now_millis: u64) -> (r:
        Self)
        ensures
            r.command_spec() == command@,
            r.message_id_spec() == message_id,
            r.response_spec() == response,
            r.key_spec() is None,
            r.timestamp_spec() == now_millis,
    {
        Self::with_key(command, message_id, response, None, now_millis)
    }

    pub fn with_key(
        command: &str,
        message_id: i64,
        response: ResponseData,
        key: Option<String>,
        now_millis: u64,
    ) -> (r: Self)
        ensures
            r.command_spec() == command@,
            r.message_id_spec() == message_id,
            r.response_spec() == response,
            r.key_spec() == match key {
                Some(k) => Some::<Seq<char>>(k@),
                None => None::<Seq<char>>,
            },
            r.timestamp_spec() == now_millis,
    {
        Self {
            timestamp: now_millis,
            command: String::from_str(command),
            message_id,
            response,
            key,
        }
    }

    pub fn message_id(&self) -> (r: i64)
        ensures
            r == self.message_id_spec(),
    {
        self.message_id
    }

    pub fn timestamp(&self) -> (r: u64)
        ensures
            r == self.timestamp_spec(),
    {
        self.timestamp
    }

    pub fn command(&self) -> (r: &str)
        ensures
            r@ == self.command_spec(),
    {
        self.command.as_str()
    }

    pub fn response(&self) -> (r: ResponseData)
        ensures
            r == self.response_spec(),
    {
        self.response
    }

    pub fn key(&self) -> (r: Option<&str>)
        ensures
            match r {
                Some(k) => self.key_spec() == Some(k@),
                None => self.key_spec() is None,
            },
    {
        match &self.key {
            Some(k) => Some(k.as_str()),
            None => None,
        }
    }
}

} // verus!

use vstd::slice::slice_to_vec;
