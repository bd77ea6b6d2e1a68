//! The authenticated-encryption construct (AES-256-CBC with an HMAC-SHA256
//! tag over IV and ciphertext, verify-then-decrypt) and the one-shot
//! asymmetric wrap of the session secret for the handshake.

use vstd::prelude::*;

use crate::codec::{b64_of, base64_encode, base64_decode};
use crate::errors::CryptoError;
use crate::proto::EncString;

verus! {

use vstd::pervasive::unreached;

/// The HMAC-SHA256 tag of a message under a key.
pub uninterp spec fn hmac_sha256_of(key: Seq<u8>, msg: Seq<u8>) -> Seq<u8>;

/// AES-256-CBC encryption with PKCS7 padding, as a function of key, IV and
/// message.
pub uninterp spec fn aes256_cbc_of(key: Seq<u8>, iv: Seq<u8>, msg: Seq<u8>) -> Seq<u8>;

/// Relies on hmac's Hmac<Sha256> (new_from_slice, update, finalize): the tag
/// is a function of key and message alone and is 32 bytes long.
/// new_from_slice never fails for HMAC, which accepts keys of any length.
#[verifier::external_body]
fn hmac_sha256(key: &[u8], msg: &[u8]) -> (r: Vec<u8>)
    ensures
        r@ == hmac_sha256_of(key@, msg@),
        r@.len() == 32,
{
    let mut h = <hmac::Hmac<sha2::Sha256> as hmac::Mac>::new_from_slice(key).unwrap();
    hmac::Mac::update(&mut h, msg);
    hmac::Mac::finalize(h).into_bytes().to_vec()
}

/// Relies on cbc::Encryptor<Aes256> and cipher's
/// encrypt_padded_vec_mut::<Pkcs7>: pads the message with PKCS7 and encrypts
/// it with AES-256 in CBC mode under the given key and IV. PKCS7 always adds
/// one to sixteen bytes up to the next full block, so the ciphertext length
/// is the next block multiple strictly above the message length.
#[verifier::external_body]
fn aes256_cbc_encrypt(key: &[u8], iv: &[u8], msg: &[u8]) -> (r: Vec<u8>)
    requires
        key@.len() == 32,
        iv@.len() == 16,
    ensures
        r@ == aes256_cbc_of(key@, iv@, msg@),
        r@.len() == ((msg@.len() / 16) + 1) * 16,
{
    let enc = <cbc::Encryptor<aes::Aes256> as aes::cipher::KeyIvInit>::new_from_slices(key, iv)
        .unwrap();
    aes::cipher::BlockEncryptMut::encrypt_padded_vec_mut::<aes::cipher::block_padding::Pkcs7>(
        enc,
        msg,
    )
}

/// Relies on cbc::Decryptor<Aes256> and cipher's
/// decrypt_padded_vec_mut::<Pkcs7>: CBC decryption inverts CBC encryption
/// under the same key and IV, and PKCS7 unpadding inverts PKCS7 padding, so
/// decrypting an encryption of `m` yields `m`; on malformed padding it fails.
/// Conversely, when unpadding succeeds the recovered message re-pads to the
/// decrypted block stream (unpadding strips exactly the bytes padding would
/// add back) and re-encrypts to the input, so only true encryptions succeed.
#[verifier::external_body]
fn aes256_cbc_decrypt(key: &[u8], iv: &[u8], data: &[u8]) -> (r: Result<Vec<u8>, CryptoError>)
    requires
        key@.len() == 32,
        iv@.len() == 16,
    ensures
        forall|m: Seq<u8>| data@ == aes256_cbc_of(key@, iv@, m) ==> r is Ok && r.unwrap()@ == m,
        r matches Ok(p) ==> data@ == aes256_cbc_of(key@, iv@, p@),
        r matches Err(e) ==> e == CryptoError::Padding,
{
    let dec = <cbc::Decryptor<aes::Aes256> as aes::cipher::KeyIvInit>::new_from_slices(key, iv)
        .unwrap();
    match aes::cipher::BlockDecryptMut::decrypt_padded_vec_mut::<
        aes::cipher::block_padding::Pkcs7,
    >(dec, data) {
        Ok(v) => Ok(v),
        Err(_) => Err(CryptoError::Padding),
    }
}

/// Relies on subtle's ConstantTimeEq for byte slices: ct_ne reports whether
/// the slices differ (slices of different lengths differ), in constant time.
#[verifier::external_body]
fn ct_bytes_ne(a: &[u8], b: &[u8]) -> (r: bool)
    ensures
        r == (a@ != b@),
{
    subtle::ConstantTimeEq::ct_ne(a, b).into()
}

/// Relies on rand::thread_rng and RngCore::fill_bytes: fills a buffer of the
/// requested length with bytes from a cryptographically secure generator.
/// Nothing is stated of the values, which are random.
#[verifier::external_body]
fn random_bytes(n: usize) -> (r: Vec<u8>)
    ensures
        r@.len() == n,
{
    let mut buf = vec![0u8; n];
    rand::RngCore::fill_bytes(&mut rand::thread_rng(), &mut buf);
    buf
}

/// The MAC of the authenticated-encryption construct: HMAC-SHA256 over the
/// concatenation of IV and ciphertext.
pub fn generate_mac(mac_key: &[u8], iv: &[u8], data: &[u8]) -> (r: Result<Vec<u8>, CryptoError>)
    ensures
        r is Ok,
        r.unwrap()@ == hmac_sha256_of(mac_key@, iv@ + data@),
        r.unwrap()@.len() == 32,
{
    let mut buf: Vec<u8> = Vec::new();
    buf.extend_from_slice(iv);
    buf.extend_from_slice(data);
    proof {
        assert(buf@ =~= iv@ + data@);
    }
    Ok(hmac_sha256(mac_key, buf.as_slice()))
}

/// Whether a tag is the one the construct computes over an IV and a
/// ciphertext under a MAC key. `decrypt` hands the ciphertext to the cipher
/// exactly when this holds.
pub open spec fn mac_accepts(mac_key: Seq<u8>, iv: Seq<u8>, data: Seq<u8>, mac: Seq<u8>) -> bool {
    mac == hmac_sha256_of(mac_key, iv + data)
}

/// The session secret: independent 32-byte encryption and MAC keys.
pub struct Aes256CbcHmacKey {
    enc_key: Vec<u8>,
    mac_key: Vec<u8>,
}

impl Aes256CbcHmacKey {
    pub closed spec fn enc_key_spec(&self) -> Seq<u8> {
        self.enc_key@
    }

    pub closed spec fn mac_key_spec(&self) -> Seq<u8> {
        self.mac_key@
    }

    #[verifier::type_invariant]
    spec fn wf(self) -> bool {
        self.enc_key@.len() == 32 && self.mac_key@.len() == 32
    }

    /// A fresh secret drawn from the secure generator.
    pub fn new() -> (r: Self)
        ensures
            r.enc_key_spec().len() == 32,
            r.mac_key_spec().len() == 32,
    {
        let enc_key = random_bytes(32);
        let mac_key = random_bytes(32);
        Self { enc_key, mac_key }
    }

    /// The 64-byte transport form: encryption key then MAC key. The length
    /// clauses hold of every secret, whatever its provenance, so the
    /// first-32/last-32 layout is fixed for arbitrary key values.
    pub fn to_vec(&self) -> (r: Vec<u8>)
        ensures
            r@ == self.enc_key_spec() + self.mac_key_spec(),
            self.enc_key_spec().len() == 32,
            self.mac_key_spec().len() == 32,
            r@.len() == 64,
    {
        proof {
            use_type_invariant(self);
        }
        let mut key_vec: Vec<u8> = Vec::with_capacity(64);
        key_vec.extend_from_slice(self.enc_key.as_slice());
        key_vec.extend_from_slice(self.mac_key.as_slice());
        key_vec
    }

    /// Seals a message: fresh random 16-byte IV, AES-256-CBC with PKCS7
    /// padding under the encryption key, HMAC-SHA256 over IV and ciphertext
    /// under the MAC key.
    pub fn encrypt(&self, msg: &[u8]) -> (r: Result<EncString, CryptoError>)
        ensures
            r is Ok,
            ({
                let env = r.unwrap();
                env.iv_spec().len() == 16 && env.data_spec() == aes256_cbc_of(
                    self.enc_key_spec(),
                    env.iv_spec(),
                    msg@,
                ) && env.mac_spec() == hmac_sha256_of(
                    self.mac_key_spec(),
                    env.iv_spec() + env.data_spec(),
                ) && env.data_spec().len() == ((msg@.len() / 16) + 1) * 16
                    && env.data_spec().len() % 16 == 0 && env.data_spec().len() > msg@.len()
            }),
    {
        proof {
            use_type_invariant(self);
        }
        let iv = random_bytes(16);
        let data = aes256_cbc_encrypt(self.enc_key.as_slice(), iv.as_slice(), msg);
        proof {
            let n = msg@.len() as int;
            assert(((n / 16) + 1) * 16 % 16 == 0 && ((n / 16) + 1) * 16 > n) by (nonlinear_arith)
                requires
                    n >= 0,
            ;
        }
        let mac = match generate_mac(self.mac_key.as_slice(), iv.as_slice(), data.as_slice()) {
            Ok(m) => m,
            Err(_) => unreached(),
        };
        Ok(EncString::new(data.as_slice(), iv.as_slice(), mac.as_slice()))
    }

    /// Opens a sealed message: recomputes the MAC over the supplied IV and
    /// ciphertext and compares in constant time; on mismatch fails with
    /// `Integrity` and the ciphertext is never decrypted; on match decrypts
    /// and removes the padding.
    pub fn decrypt(&self, iv: &[u8], mac: &[u8], data: &[u8]) -> (r: Result<Vec<u8>, CryptoError>)
        ensures
            (r matches Err(e) && e == CryptoError::Integrity) <==> !mac_accepts(
                self.mac_key_spec(),
                iv@,
                data@,
                mac@,
            ),
            r is Ok ==> mac_accepts(self.mac_key_spec(), iv@, data@, mac@) && iv@.len() == 16,
            mac_accepts(self.mac_key_spec(), iv@, data@, mac@) && iv@.len() != 16 ==> (r matches
                Err(e) && e == CryptoError::BadIvLength),
            r matches Err(e) && e == CryptoError::BadIvLength ==> iv@.len() != 16,
            forall|m: Seq<u8>|
                mac_accepts(self.mac_key_spec(), iv@, data@, mac@) && iv@.len() == 16 && data@
                    == aes256_cbc_of(self.enc_key_spec(), iv@, m) ==> r is Ok && r.unwrap()@ == m,
            r matches Ok(p) ==> data@ == aes256_cbc_of(self.enc_key_spec(), iv@, p@),
            r matches Err(e) ==> e == CryptoError::Integrity || e == CryptoError::BadIvLength
                || e == CryptoError::Padding,
    {
        proof {
            use_type_invariant(self);
        }
        let expected = match generate_mac(self.mac_key.as_slice(), iv, data) {
            Ok(m) => m,
            Err(_) => unreached(),
        };
        if ct_bytes_ne(expected.as_slice(), mac) {
            return Err(CryptoError::Integrity);
        }
        if iv.len() != 16 {
            return Err(CryptoError::BadIvLength);
        }
        aes256_cbc_decrypt(self.enc_key.as_slice(), iv, data)
    }
}

impl Default for Aes256CbcHmacKey {
    /// A fresh secret, as [`Aes256CbcHmacKey::new`] draws one.
    fn default() -> (r: Self)
        ensures
            r.enc_key_spec().len() == 32,
            r.mac_key_spec().len() == 32,
    {
        Self::new()
    }
}

/// Round trip: opening a freshly sealed message under the same secret yields
/// the plaintext, for every secret and every message.
pub fn seal_then_open(key: &Aes256CbcHmacKey, msg: &[u8]) -> (r: Vec<u8>)
    ensures
        r@ == msg@,
{
    let env = match key.encrypt(msg) {
        Ok(e) => e,
        Err(_) => unreached(),
    };
    let iv = match env.iv() {
        Ok(v) => v,
        Err(_) => unreached(),
    };
    let mac = match env.mac() {
        Ok(v) => v,
        Err(_) => unreached(),
    };
    let data = match env.data() {
        Ok(v) => v,
        Err(_) => unreached(),
    };
    match key.decrypt(iv.as_slice(), mac.as_slice(), data.as_slice()) {
        Ok(p) => p,
        Err(_) => unreached(),
    }
}

/// Tamper detection for the tag: the construct accepts exactly one tag for a
/// given IV and ciphertext under a given MAC key, so any altered tag is
/// rejected before decryption.
pub proof fn lemma_altered_mac_rejected(
    mac_key: Seq<u8>,
    iv: Seq<u8>,
    data: Seq<u8>,
    mac: Seq<u8>,
    altered: Seq<u8>,
)
    requires
        mac_accepts(mac_key, iv, data, mac),
        altered != mac,
    ensures
        !mac_accepts(mac_key, iv, data, altered),
{
}

#[verifier::external_type_specification]
#[verifier::external_body]
pub struct ExRsaPublicKey(rsa::RsaPublicKey);

/// The modulus byte length of an RSA public key.
pub uninterp spec fn rsa_modulus_len(key: rsa::RsaPublicKey) -> nat;

/// The bytes of the modulus that OAEP with SHA-1 spends: two 20-byte digests
/// and two framing bytes.
pub open spec fn rsa_encrypt_overhead() -> nat {
    42
}

/// Whether an RSA public key passes the rsa crate's public-key checks
/// (exponent bounds, odd modulus larger than the exponent); every key its
/// DER parser hands out does.
pub uninterp spec fn rsa_key_valid(key: rsa::RsaPublicKey) -> bool;

/// The modulus byte length of the RSA key that DER SPKI bytes denote, `None`
/// where they denote none the parser accepts; a function of the bytes alone.
pub uninterp spec fn rsa_spki_modulus_len(der: Seq<u8>) -> Option<nat>;

/// Relies on rsa::RsaPublicKey::from_public_key_der (via pkcs8's
/// DecodePublicKey): parses DER SPKI material as an RSA public key, failing
/// on anything else; the parse runs the crate's public-key checks, so an
/// accepted key is valid and its modulus length is fixed by the bytes.
#[verifier::external_body]
fn rsa_public_key_from_der(der: &[u8]) -> (r: Result<rsa::RsaPublicKey, CryptoError>)
    ensures
        r is Ok <==> rsa_spki_modulus_len(der@) is Some,
        r matches Ok(k) ==> rsa_spki_modulus_len(der@) == Some(rsa_modulus_len(k)),
        r matches Ok(k) ==> rsa_key_valid(k),
        r matches Err(e) ==> e == CryptoError::KeyImport,
{
    match <rsa::RsaPublicKey as rsa::pkcs8::DecodePublicKey>::from_public_key_der(der) {
        Ok(k) => Ok(k),
        Err(_) => Err(CryptoError::KeyImport),
    }
}

/// Relies on rsa::RsaPublicKey::encrypt with Oaep::new::<Sha1> padding and a
/// fresh thread rng: RSA-OAEP(SHA-1) encryption of the message. The
/// ciphertext is randomized, so nothing is stated of its value; its length is
/// the modulus length. OAEP with SHA-1 spends 42 bytes of the modulus, and
/// for a valid key the operation fails exactly when the message exceeds what
/// is left.
#[verifier::external_body]
fn rsa_oaep_sha1_encrypt(key: &rsa::RsaPublicKey, msg: &[u8]) -> (r: Result<Vec<u8>, CryptoError>)
    ensures
        rsa_key_valid(*key) && msg@.len() + rsa_encrypt_overhead() <= rsa_modulus_len(*key) ==> r is Ok,
        r matches Ok(ct) ==> ct@.len() == rsa_modulus_len(*key),
        msg@.len() + rsa_encrypt_overhead() > rsa_modulus_len(*key) ==> r is Err,
        r matches Err(e) ==> e == CryptoError::Asymmetric,
{
    let mut rng = rand::thread_rng();
    match key.encrypt(&mut rng, rsa::Oaep::new::<sha1::Sha1>(), msg) {
        Ok(v) => Ok(v),
        Err(_) => Err(CryptoError::Asymmetric),
    }
}

/// The key-transport step of the handshake: imports a base64 DER SPKI RSA
/// public key, encrypts the message with RSA-OAEP(SHA-1) — fixed for peer
/// compatibility — and returns the ciphertext as base64 text. Success is owed
/// whenever the text decodes, the bytes denote a key, and the message fits
/// its modulus; each error names the step that refused.
pub fn rsa_encrypt(public_key_b64: &str, message: &[u8]) -> (r: Result<String, CryptoError>)
    ensures
        r is Ok ==> exists|ct: Seq<u8>| r.unwrap()@ == b64_of(ct),
        r matches Err(e) ==> e == CryptoError::Base64 || e == CryptoError::KeyImport || e
            == CryptoError::Asymmetric,
        (forall|b: Seq<u8>| public_key_b64@ != b64_of(b)) <==> r == Err::<String, CryptoError>(
            CryptoError::Base64,
        ),
        forall|der: Seq<u8>|
            public_key_b64@ == b64_of(der) ==> {
                &&& (rsa_spki_modulus_len(der) is None <==> r == Err::<String, CryptoError>(
                    CryptoError::KeyImport,
                ))
                &&& (match rsa_spki_modulus_len(der) {
                    Some(k) => {
                        &&& (message@.len() + rsa_encrypt_overhead() <= k ==> r is Ok && (
                        exists|ct: Seq<u8>| ct.len() == k && r.unwrap()@ == b64_of(ct)))
                        &&& (message@.len() + rsa_encrypt_overhead() > k ==> r == Err::<
                            String,
                            CryptoError,
                        >(CryptoError::Asymmetric))
                    },
                    None => true,
                })
            },
{
    let der = match base64_decode(public_key_b64) {
        Ok(v) => v,
        Err(e) => {
            return Err(e);
        },
    };
    let key = match rsa_public_key_from_der(der.as_slice()) {
        Ok(k) => k,
        Err(e) => {
            return Err(e);
        },
    };
    let ct = match rsa_oaep_sha1_encrypt(&key, message) {
        Ok(v) => v,
        Err(e) => {
            return Err(e);
        },
    };
    Ok(base64_encode(ct.as_slice()))
}

} // verus!
