//! The envelopes in which values travel to devices: a body encrypted with a key of
//! its own, and that key wrapped for each device.

use vstd::prelude::*;
use vstd::utf8::*;
use crate::cipher::{
    aes_hash_key, aes_open, aes_opened, aes_seal, aes_sealed, derive_key, detects_changes,
    hash_is_blind, hash_key, hkdf_sha256, one_byte_apart, other_tag, public_key, random_secret,
    shared_secret, x25519_public, x25519_shared, AES_MAX_LEN,
};
use crate::encoding::{
    base64_bytes, base64_decode, base64_encode, base64_error, base64_text,
    law_base64_decode_encode, Base64Error,
};
use crate::text::{same_text, trim, trimmed};

verus! {

/// Why an envelope could not be opened.
#[derive(Debug, Clone, Copy, PartialEq, Eq, Structural)]
pub enum DecryptError {
    /// The private key is not base64.
    PrivateKeyEncoding(Base64Error),
    /// The private key is not 32 bytes.
    PrivateKeyLength,
    /// The ephemeral public key is not base64.
    EphemeralPubEncoding(Base64Error),
    /// The ephemeral public key is not 32 bytes.
    EphemeralPubLength,
    /// No wrapping key could be derived.
    KeyDerivation,
    /// The nonce of the wrapped key is not base64.
    DekNonceEncoding(Base64Error),
    /// The wrapped key is not base64.
    EncryptedDekEncoding(Base64Error),
    /// The wrapped key does not open: most often the wrong device key.
    DekDecryption,
    /// The nonce of the body is not base64.
    NonceEncoding(Base64Error),
    /// The body is not base64.
    CiphertextEncoding(Base64Error),
    /// The associated data is not base64.
    AadEncoding(Base64Error),
    /// The body does not open.
    BodyDecryption,
}

// ── What an envelope holds ──────────────────────────────────────────────────
/// The 32 bytes of a private key, written in base64 with whitespace around it.
pub open spec fn device_key(text: Seq<char>) -> Result<Seq<u8>, DecryptError> {
    match base64_bytes(trimmed(text)) {
        None => Err(DecryptError::PrivateKeyEncoding(base64_error(trimmed(text)))),
        Some(b) => if b.len() == 32 {
            Ok(b)
        } else {
            Err(DecryptError::PrivateKeyLength)
        },
    }
}

/// The 32 bytes of an ephemeral public key, written in base64.
pub open spec fn ephemeral_key(text: Seq<char>) -> Result<Seq<u8>, DecryptError> {
    match base64_bytes(text) {
        None => Err(DecryptError::EphemeralPubEncoding(base64_error(text))),
        Some(b) => if b.len() == 32 {
            Ok(b)
        } else {
            Err(DecryptError::EphemeralPubLength)
        },
    }
}

/// The key that wraps a body key between the holder of `secret` and the holder of
/// the secret of `public`: HKDF of their shared secret, with a salt of zeros.
pub open spec fn wrapping_key(secret: Seq<u8>, public: Seq<u8>) -> Seq<u8> {
    hkdf_sha256(
        Seq::new(32, |i: int| 0u8),
        x25519_shared(secret, public),
        encode_utf8("kv-device-wrap"@),
    )
}

/// The parts that wrap the body key for one device, as texts: the device's
/// private key, and what the sender wrote for it.
pub struct WrapText {
    pub private_key: Seq<char>,
    pub ephemeral_pub: Seq<char>,
    pub dek_nonce: Seq<char>,
    pub encrypted_dek: Seq<char>,
}

/// The parts of an encrypted body, as texts.
pub struct BodyText {
    pub nonce: Seq<char>,
    pub ciphertext: Seq<char>,
    pub aad: Seq<char>,
}

/// The body key that is wrapped in `w`. What is wrong with `w` is found in the
/// order of its parts, the two keys first.
pub open spec fn unwrapped_key(w: WrapText) -> Result<Seq<u8>, DecryptError> {
    match device_key(w.private_key) {
        Err(e) => Err(e),
        Ok(secret) => match ephemeral_key(w.ephemeral_pub) {
            Err(e) => Err(e),
            Ok(public) => match (base64_bytes(w.dek_nonce), base64_bytes(w.encrypted_dek)) {
                (None, _) => Err(DecryptError::DekNonceEncoding(base64_error(w.dek_nonce))),
                (Some(_), None) => Err(
                    DecryptError::EncryptedDekEncoding(base64_error(w.encrypted_dek)),
                ),
                (Some(nonce), Some(wrapped)) => match aes_opened(
                    wrapping_key(secret, public),
                    nonce,
                    Seq::empty(),
                    wrapped,
                ) {
                    None => Err(DecryptError::DekDecryption),
                    Some(dek) => Ok(dek),
                },
            },
        },
    }
}

/// The body that `b` holds under the key `dek`.
pub open spec fn opened_body(dek: Seq<u8>, b: BodyText) -> Result<Seq<u8>, DecryptError> {
    match (base64_bytes(b.nonce), base64_bytes(b.ciphertext), base64_bytes(b.aad)) {
        (None, _, _) => Err(DecryptError::NonceEncoding(base64_error(b.nonce))),
        (Some(_), None, _) => Err(DecryptError::CiphertextEncoding(base64_error(b.ciphertext))),
        (Some(_), Some(_), None) => Err(DecryptError::AadEncoding(base64_error(b.aad))),
        (Some(nonce), Some(sealed), Some(aad)) => match aes_opened(dek, nonce, aad, sealed) {
            None => Err(DecryptError::BodyDecryption),
            Some(plaintext) => Ok(plaintext),
        },
    }
}

/// The plaintext of an envelope.
pub open spec fn decrypted(w: WrapText, b: BodyText) -> Result<Seq<u8>, DecryptError> {
    match unwrapped_key(w) {
        Err(e) => Err(e),
        Ok(dek) => opened_body(dek, b),
    }
}

/// Whether the nonce of the wrapped key has the length that the cipher takes,
/// where there is one to use.
pub open spec fn wrap_fits(w: WrapText) -> bool {
    device_key(w.private_key) is Ok && ephemeral_key(w.ephemeral_pub) is Ok && base64_bytes(
        w.encrypted_dek,
    ) is Some ==> match base64_bytes(w.dek_nonce) {
        Some(nonce) => nonce.len() == 12,
        None => true,
    }
}

/// Whether the body key and the nonce of the body have the lengths that the
/// cipher takes, where there is a body to open with them.
pub open spec fn body_fits(dek: Seq<u8>, b: BodyText) -> bool {
    base64_bytes(b.ciphertext) is Some && base64_bytes(b.aad) is Some ==> match base64_bytes(
        b.nonce,
    ) {
        Some(nonce) => nonce.len() == 12 && dek.len() == 32,
        None => true,
    }
}

/// Whether every key and nonce of the envelope has the length that the cipher
/// takes, as far as opening it comes to use them.
pub open spec fn envelope_fits(w: WrapText, b: BodyText) -> bool {
    wrap_fits(w) && match unwrapped_key(w) {
        Ok(dek) => body_fits(dek, b),
        Err(_) => true,
    }
}

/// Whether two texts write the same ciphertext with different tags.
pub open spec fn tag_changed(other: Seq<char>, text: Seq<char>) -> bool {
    match (base64_bytes(other), base64_bytes(text)) {
        (Some(a), Some(b)) => other_tag(a, b),
        _ => false,
    }
}

/// Whether two texts write bytes that differ in one of them alone.
pub open spec fn byte_changed(other: Seq<char>, text: Seq<char>) -> bool {
    match (base64_bytes(other), base64_bytes(text)) {
        (Some(a), Some(b)) => one_byte_apart(a, b),
        _ => false,
    }
}

/// The key that the body key is wrapped with in `w`.
pub open spec fn wrapping_key_in(w: WrapText) -> Seq<u8> {
    wrapping_key(device_key(w.private_key)->Ok_0, ephemeral_key(w.ephemeral_pub)->Ok_0)
}

/// Whether a change to the wrapped key shows: with another tag behind it, or with one byte
/// of it changed, it does not open. The latter is not said of a key under which the hash of
/// the cipher is blind.
pub open spec fn wrap_shows_changes(w: WrapText) -> bool {
    &&& forall|other: Seq<char>| #[trigger]
        tag_changed(other, w.encrypted_dek) ==> unwrapped_key(
            WrapText { encrypted_dek: other, ..w },
        ) == Err::<Seq<u8>, DecryptError>(DecryptError::DekDecryption)
    &&& !hash_is_blind(wrapping_key_in(w)) ==> forall|other: Seq<char>| #[trigger]
        byte_changed(other, w.encrypted_dek) ==> unwrapped_key(
            WrapText { encrypted_dek: other, ..w },
        ) == Err::<Seq<u8>, DecryptError>(DecryptError::DekDecryption)
}

/// Whether a change to the body under the key `dek` shows: with another tag behind it, or
/// with one byte of it or of its associated data changed, it does not open. The latter is
/// not said of a key under which the hash of the cipher is blind.
pub open spec fn body_shows_changes(dek: Seq<u8>, b: BodyText) -> bool {
    &&& forall|other: Seq<char>| #[trigger]
        tag_changed(other, b.ciphertext) ==> opened_body(dek, BodyText { ciphertext: other, ..b })
            == Err::<Seq<u8>, DecryptError>(DecryptError::BodyDecryption)
    &&& !hash_is_blind(dek) ==> forall|other: Seq<char>| #[trigger]
        byte_changed(other, b.ciphertext) ==> opened_body(dek, BodyText { ciphertext: other, ..b })
            == Err::<Seq<u8>, DecryptError>(DecryptError::BodyDecryption)
    &&& !hash_is_blind(dek) ==> forall|other: Seq<char>| #[trigger]
        byte_changed(other, b.aad) ==> opened_body(dek, BodyText { aad: other, ..b }) == Err::<
            Seq<u8>,
            DecryptError,
        >(DecryptError::BodyDecryption)
}

/// Whether a change to an envelope that opens shows.
pub open spec fn shows_changes(w: WrapText, b: BodyText) -> bool {
    wrap_shows_changes(w) && body_shows_changes(unwrapped_key(w)->Ok_0, b)
}

/// Whether `other` is the envelope with one byte changed: of the wrapped key, of the body,
/// or of the data that is associated with the body.
pub open spec fn envelope_changed(
    other_w: WrapText,
    other_b: BodyText,
    w: WrapText,
    b: BodyText,
) -> bool {
    ||| {
        &&& byte_changed(other_w.encrypted_dek, w.encrypted_dek)
        &&& other_w == (WrapText { encrypted_dek: other_w.encrypted_dek, ..w })
        &&& other_b == b
    }
    ||| {
        &&& byte_changed(other_b.ciphertext, b.ciphertext)
        &&& other_w == w
        &&& other_b == (BodyText { ciphertext: other_b.ciphertext, ..b })
    }
    ||| {
        &&& byte_changed(other_b.aad, b.aad)
        &&& other_w == w
        &&& other_b == (BodyText { aad: other_b.aad, ..b })
    }
}

/// An envelope of which one byte was changed does not open: that of the wrapped key, of the
/// body, or of the data that is associated with the body. Only of keys under which the hash
/// of the cipher is blind this is not so.
pub proof fn law_changed_envelope_is_refused(
    w: WrapText,
    b: BodyText,
    other_w: WrapText,
    other_b: BodyText,
)
    requires
        shows_changes(w, b),
        decrypted(w, b) is Ok,
        !hash_is_blind(wrapping_key_in(w)),
        !hash_is_blind(unwrapped_key(w)->Ok_0),
        envelope_changed(other_w, other_b, w, b),
    ensures
        decrypted(other_w, other_b) is Err,
        envelope_fits(w, b) ==> envelope_fits(other_w, other_b),
{
}

proof fn lemma_wrap_shows_changes(w: WrapText)
    requires
        unwrapped_key(w) is Ok,
        detects_changes(
            wrapping_key_in(w),
            base64_bytes(w.dek_nonce)->0,
            Seq::empty(),
            base64_bytes(w.encrypted_dek)->0,
        ),
    ensures
        wrap_shows_changes(w),
{
}

proof fn lemma_body_shows_changes(dek: Seq<u8>, b: BodyText)
    requires
        opened_body(dek, b) is Ok,
        detects_changes(
            dek,
            base64_bytes(b.nonce)->0,
            base64_bytes(b.aad)->0,
            base64_bytes(b.ciphertext)->0,
        ),
    ensures
        body_shows_changes(dek, b),
{
}

/// Whether the hash of the cipher is blind under a key.
pub fn is_blind_key(key: &Vec<u8>) -> (r: bool)
    requires
        key@.len() == 32,
    ensures
        r == hash_is_blind(key@),
{
    let hash = hash_key(key);
    for i in 0..16usize
        invariant
            hash@.len() == 16,
            hash@ == aes_hash_key(key@),
            forall|j: int| 0 <= j < i ==> #[trigger] hash@[j] == 0,
    {
        if hash[i] != 0 {
            return false;
        }
    }
    assert(hash@ =~= Seq::new(16, |i: int| 0u8));
    true
}

// ── Opening ─────────────────────────────────────────────────────────────────
fn zeros32() -> (out: Vec<u8>)
    ensures
        out@ == Seq::new(32, |i: int| 0u8),
{
    let mut out: Vec<u8> = Vec::new();
    for k in 0..32usize
        invariant
            out@ == Seq::new(k as nat, |i: int| 0u8),
    {
        out.push(0);
        assert(out@ =~= Seq::new((k + 1) as nat, |i: int| 0u8));
    }
    out
}

fn wrapping_key_of(secret: &Vec<u8>, public: &Vec<u8>) -> (out: Result<Vec<u8>, DecryptError>)
    requires
        secret@.len() == 32,
        public@.len() == 32,
    ensures
        out matches Ok(key) && key@ == wrapping_key(secret@, public@) && key@.len() == 32,
{
    let shared = shared_secret(secret, public);
    let salt = zeros32();
    match derive_key(&salt, &shared, "kv-device-wrap".as_bytes()) {
        Ok(key) => Ok(key),
        Err(_) => Err(DecryptError::KeyDerivation),
    }
}

/// Reads the 32 bytes of a private key.
pub fn read_device_key(private_key_b64: &str) -> (out: Result<Vec<u8>, DecryptError>)
    ensures
        match out {
            Ok(b) => device_key(private_key_b64@) == Ok::<Seq<u8>, DecryptError>(b@) && b@.len()
                == 32,
            Err(e) => device_key(private_key_b64@) == Err::<Seq<u8>, DecryptError>(e),
        },
{
    match base64_decode(&trim(private_key_b64)) {
        Err(e) => Err(DecryptError::PrivateKeyEncoding(e)),
        Ok(b) => if b.len() == 32 {
            Ok(b)
        } else {
            Err(DecryptError::PrivateKeyLength)
        },
    }
}

fn read_ephemeral_key(text: &str) -> (out: Result<Vec<u8>, DecryptError>)
    ensures
        match out {
            Ok(b) => ephemeral_key(text@) == Ok::<Seq<u8>, DecryptError>(b@) && b@.len() == 32,
            Err(e) => ephemeral_key(text@) == Err::<Seq<u8>, DecryptError>(e),
        },
{
    match base64_decode(text) {
        Err(e) => Err(DecryptError::EphemeralPubEncoding(e)),
        Ok(b) => if b.len() == 32 {
            Ok(b)
        } else {
            Err(DecryptError::EphemeralPubLength)
        },
    }
}

/// Opens the body key with the device's private key. `None` if its nonce does not
/// have the length that the cipher takes.
pub fn unwrap_key(
    private_key_b64: &str,
    ephemeral_pub_b64: &str,
    dek_nonce_b64: &str,
    encrypted_dek_b64: &str,
) -> (out: Option<Result<Vec<u8>, DecryptError>>)
    ensures
        ({
            let w = WrapText {
                private_key: private_key_b64@,
                ephemeral_pub: ephemeral_pub_b64@,
                dek_nonce: dek_nonce_b64@,
                encrypted_dek: encrypted_dek_b64@,
            };
            match out {
                Some(Ok(dek)) => {
                    &&& wrap_fits(w)
                    &&& unwrapped_key(w) == Ok::<Seq<u8>, DecryptError>(dek@)
                    &&& wrap_shows_changes(w)
                },
                Some(Err(e)) => wrap_fits(w) && unwrapped_key(w) == Err::<Seq<u8>, DecryptError>(e),
                None => !wrap_fits(w),
            }
        }),
{
    let secret = match read_device_key(private_key_b64) {
        Ok(b) => b,
        Err(e) => return Some(Err(e)),
    };
    let public = match read_ephemeral_key(ephemeral_pub_b64) {
        Ok(b) => b,
        Err(e) => return Some(Err(e)),
    };
    let wrap_key = match wrapping_key_of(&secret, &public) {
        Ok(key) => key,
        Err(e) => return Some(Err(e)),
    };
    let nonce = match base64_decode(dek_nonce_b64) {
        Ok(b) => b,
        Err(e) => return Some(Err(DecryptError::DekNonceEncoding(e))),
    };
    let wrapped = match base64_decode(encrypted_dek_b64) {
        Ok(b) => b,
        Err(e) => return Some(Err(DecryptError::EncryptedDekEncoding(e))),
    };
    if nonce.len() != 12 {
        return None;
    }
    let no_aad: Vec<u8> = Vec::new();
    match aes_open(&wrap_key, &nonce, &no_aad, &wrapped) {
        Ok(dek) => {
            proof {
                assert(no_aad@ =~= Seq::empty());
                lemma_wrap_shows_changes(
                    WrapText {
                        private_key: private_key_b64@,
                        ephemeral_pub: ephemeral_pub_b64@,
                        dek_nonce: dek_nonce_b64@,
                        encrypted_dek: encrypted_dek_b64@,
                    },
                );
            }
            Some(Ok(dek))
        },
        Err(_) => Some(Err(DecryptError::DekDecryption)),
    }
}

/// Opens a body with its key. `None` if the key or the nonce does not have the
/// length that the cipher takes.
pub fn open_body(dek: &Vec<u8>, nonce_b64: &str, ciphertext_b64: &str, aad_b64: &str) -> (out:
    Option<Result<Vec<u8>, DecryptError>>)
    ensures
        ({
            let b = BodyText { nonce: nonce_b64@, ciphertext: ciphertext_b64@, aad: aad_b64@ };
            match out {
                Some(Ok(p)) => {
                    &&& body_fits(dek@, b)
                    &&& opened_body(dek@, b) == Ok::<Seq<u8>, DecryptError>(p@)
                    &&& body_shows_changes(dek@, b)
                },
                Some(Err(e)) => body_fits(dek@, b) && opened_body(dek@, b) == Err::<
                    Seq<u8>,
                    DecryptError,
                >(e),
                None => !body_fits(dek@, b),
            }
        }),
{
    let nonce = match base64_decode(nonce_b64) {
        Ok(b) => b,
        Err(e) => return Some(Err(DecryptError::NonceEncoding(e))),
    };
    let ciphertext = match base64_decode(ciphertext_b64) {
        Ok(b) => b,
        Err(e) => return Some(Err(DecryptError::CiphertextEncoding(e))),
    };
    let aad = match base64_decode(aad_b64) {
        Ok(b) => b,
        Err(e) => return Some(Err(DecryptError::AadEncoding(e))),
    };
    if nonce.len() != 12 || dek.len() != 32 {
        return None;
    }
    match aes_open(dek, &nonce, &aad, &ciphertext) {
        Ok(plaintext) => {
            proof {
                lemma_body_shows_changes(
                    dek@,
                    BodyText { nonce: nonce_b64@, ciphertext: ciphertext_b64@, aad: aad_b64@ },
                );
            }
            Some(Ok(plaintext))
        },
        Err(_) => Some(Err(DecryptError::BodyDecryption)),
    }
}

/// Opens an envelope with the device's private key: the body key first, and with
/// it the body. Every key and nonce must have the length that the cipher takes;
/// [`open_device_kv`] asks nothing of its arguments.
pub fn decrypt_device_kv(
    private_key_b64: &str,
    ephemeral_pub_b64: &str,
    dek_nonce_b64: &str,
    encrypted_dek_b64: &str,
    body_nonce_b64: &str,
    ciphertext_b64: &str,
    aad_b64: &str,
) -> (out: Result<Vec<u8>, DecryptError>)
    requires
        envelope_fits(
            (WrapText {
                private_key: private_key_b64@,
                ephemeral_pub: ephemeral_pub_b64@,
                dek_nonce: dek_nonce_b64@,
                encrypted_dek: encrypted_dek_b64@,
            }),
            (BodyText { nonce: body_nonce_b64@, ciphertext: ciphertext_b64@, aad: aad_b64@ }),
        ),
    ensures
        ({
            let w = WrapText {
                private_key: private_key_b64@,
                ephemeral_pub: ephemeral_pub_b64@,
                dek_nonce: dek_nonce_b64@,
                encrypted_dek: encrypted_dek_b64@,
            };
            let b = BodyText { nonce: body_nonce_b64@, ciphertext: ciphertext_b64@, aad: aad_b64@ };
            match out {
                Ok(p) => decrypted(w, b) == Ok::<Seq<u8>, DecryptError>(p@) && shows_changes(w, b),
                Err(e) => decrypted(w, b) == Err::<Seq<u8>, DecryptError>(e),
            }
        }),
{
    match unwrap_key(private_key_b64, ephemeral_pub_b64, dek_nonce_b64, encrypted_dek_b64) {
        Some(Ok(dek)) => match open_body(&dek, body_nonce_b64, ciphertext_b64, aad_b64) {
            Some(r) => r,
            None => Err(DecryptError::BodyDecryption),
        },
        Some(Err(e)) => Err(e),
        None => Err(DecryptError::DekDecryption),
    }
}

/// Opens an envelope with the device's private key. `None` if a key or a nonce in
/// it does not have the length that the cipher takes.
pub fn open_device_kv(
    private_key_b64: &str,
    ephemeral_pub_b64: &str,
    dek_nonce_b64: &str,
    encrypted_dek_b64: &str,
    body_nonce_b64: &str,
    ciphertext_b64: &str,
    aad_b64: &str,
) -> (out: Option<Result<Vec<u8>, DecryptError>>)
    ensures
        ({
            let w = WrapText {
                private_key: private_key_b64@,
                ephemeral_pub: ephemeral_pub_b64@,
                dek_nonce: dek_nonce_b64@,
                encrypted_dek: encrypted_dek_b64@,
            };
            let b = BodyText { nonce: body_nonce_b64@, ciphertext: ciphertext_b64@, aad: aad_b64@ };
            match out {
                Some(Ok(p)) => {
                    &&& envelope_fits(w, b)
                    &&& decrypted(w, b) == Ok::<Seq<u8>, DecryptError>(p@)
                    &&& shows_changes(w, b)
                },
                Some(Err(e)) => envelope_fits(w, b) && decrypted(w, b) == Err::<
                    Seq<u8>,
                    DecryptError,
                >(e),
                None => !envelope_fits(w, b),
            }
        }),
{
    match unwrap_key(private_key_b64, ephemeral_pub_b64, dek_nonce_b64, encrypted_dek_b64) {
        None => return None,
        Some(Ok(dek)) => {
            if open_body(&dek, body_nonce_b64, ciphertext_b64, aad_b64).is_none() {
                return None;
            }
        },
        Some(Err(_)) => {},
    }
    Some(
        decrypt_device_kv(
            private_key_b64,
            ephemeral_pub_b64,
            dek_nonce_b64,
            encrypted_dek_b64,
            body_nonce_b64,
            ciphertext_b64,
            aad_b64,
        ),
    )
}

// ── Sealing ─────────────────────────────────────────────────────────────────
/// A device that a value is encrypted for.
pub struct Recipient {
    pub device_id: String,
    pub key_type: String,
    /// The device's public key in base64.
    pub public_key: String,
}

/// The body key of an envelope, wrapped for one device.
pub struct DeviceWrap {
    pub device_id: String,
    pub key_type: String,
    pub ephemeral_pub: String,
    pub dek_nonce: String,
    pub encrypted_dek: String,
}

/// An encrypted value and the wraps of its key.
pub struct DevicePayload {
    pub nonce: String,
    pub ciphertext: String,
    pub aad: String,
    pub recipients: Vec<DeviceWrap>,
}

/// Why a value could not be encrypted. A number is the position of a device in
/// the list.
#[derive(Debug, Clone, Copy, PartialEq, Eq, Structural)]
pub enum EncryptError {
    /// The value or its associated data is too long for the cipher.
    TooLong,
    /// The device's key is not an X25519 key.
    KeyType(usize),
    /// The device's public key is not base64.
    PublicKeyEncoding(usize),
    /// The device's public key is not 32 bytes.
    PublicKeyLength(usize),
}

/// The random bytes that wrap a key for one device.
pub struct WrapEntropy {
    pub ephemeral: Vec<u8>,
    pub nonce: Vec<u8>,
}

/// The 32 bytes of the public key of the device at position `i`.
pub open spec fn recipient_key(key_type: Seq<char>, public_key: Seq<char>, i: usize) -> Result<
    Seq<u8>,
    EncryptError,
> {
    if key_type != "x25519"@ {
        Err(EncryptError::KeyType(i))
    } else {
        match base64_bytes(public_key) {
            None => Err(EncryptError::PublicKeyEncoding(i)),
            Some(b) => if b.len() == 32 {
                Ok(b)
            } else {
                Err(EncryptError::PublicKeyLength(i))
            },
        }
    }
}

/// Whether the value and its associated data are short enough for the cipher.
pub open spec fn sealable(aad: Seq<char>, plaintext: Seq<u8>) -> bool {
    plaintext.len() <= AES_MAX_LEN && encode_utf8(aad).len() <= AES_MAX_LEN
}

/// Whether every device of the list can be encrypted for.
pub open spec fn all_recipients_usable(devices: Seq<Recipient>) -> bool {
    forall|i: int|
        0 <= i < devices.len() ==> recipient_key(
            #[trigger] devices[i].key_type@,
            devices[i].public_key@,
            i as usize,
        ) is Ok
}

/// Whether `e` is what the first device of the list that cannot be encrypted for
/// fails with.
pub open spec fn first_recipient_error(devices: Seq<Recipient>, e: EncryptError) -> bool {
    exists|i: int|
        {
            &&& 0 <= i < devices.len()
            &&& recipient_key(
                #[trigger] devices[i].key_type@,
                devices[i].public_key@,
                i as usize,
            ) == Err::<Seq<u8>, EncryptError>(e)
            &&& all_recipients_usable(devices.take(i))
        }
}

/// Whether `w` wraps `dek` for the device `d` with the given random bytes.
pub open spec fn is_wrap(w: DeviceWrap, d: Recipient, dek: Seq<u8>, entropy: WrapEntropy) -> bool {
    &&& w.device_id@ == d.device_id@
    &&& w.key_type@ == d.key_type@
    &&& w.ephemeral_pub@ == base64_text(x25519_public(entropy.ephemeral@))
    &&& w.dek_nonce@ == base64_text(entropy.nonce@)
    &&& base64_bytes(d.public_key@) matches Some(public)
    &&& aes_sealed(
        wrapping_key(entropy.ephemeral@, public),
        entropy.nonce@,
        Seq::empty(),
        dek,
    ) matches Some(sealed)
    &&& w.encrypted_dek@ == base64_text(sealed)
}

/// Whether the wrap `w`, and the body beside it, open to `plaintext` for whoever
/// holds the secret key of the public key that `public_key` writes, and a change to them
/// shows.
pub open spec fn opens_for(
    w: DeviceWrap,
    p: DevicePayload,
    public_key: Seq<char>,
    plaintext: Seq<u8>,
) -> bool {
    forall|private_key: Seq<char>|
        (#[trigger] device_key(private_key) matches Ok(secret) && base64_bytes(public_key) == Some(
            x25519_public(secret),
        )) ==> {
            let wrap = WrapText {
                private_key,
                ephemeral_pub: w.ephemeral_pub@,
                dek_nonce: w.dek_nonce@,
                encrypted_dek: w.encrypted_dek@,
            };
            let body = BodyText { nonce: p.nonce@, ciphertext: p.ciphertext@, aad: p.aad@ };
            &&& envelope_fits(wrap, body)
            &&& decrypted(wrap, body) == Ok::<Seq<u8>, DecryptError>(plaintext)
            &&& shows_changes(wrap, body)
        }
}

fn read_recipient_key(d: &Recipient, i: usize) -> (out: Result<Vec<u8>, EncryptError>)
    ensures
        match out {
            Ok(b) => recipient_key(d.key_type@, d.public_key@, i) == Ok::<Seq<u8>, EncryptError>(b@)
                && b@.len() == 32,
            Err(e) => recipient_key(d.key_type@, d.public_key@, i) == Err::<Seq<u8>, EncryptError>(
                e,
            ),
        },
{
    if !same_text(&d.key_type, "x25519") {
        return Err(EncryptError::KeyType(i));
    }
    match base64_decode(&d.public_key) {
        Err(_) => Err(EncryptError::PublicKeyEncoding(i)),
        Ok(b) => if b.len() == 32 {
            Ok(b)
        } else {
            Err(EncryptError::PublicKeyLength(i))
        },
    }
}

/// Whether the random bytes have the lengths that the cipher and X25519 take.
pub open spec fn entropy_fits(entropy: WrapEntropy) -> bool {
    entropy.ephemeral@.len() == 32 && entropy.nonce@.len() == 12
}

/// Whether `key` opens the wrapped key `sealed` to `dek`, and refuses it once changed.
spec fn opens_wrapped(key: Seq<u8>, nonce: Seq<u8>, sealed: Seq<u8>, dek: Seq<u8>) -> bool {
    &&& aes_opened(key, nonce, Seq::empty(), sealed) == Some(dek)
    &&& detects_changes(key, nonce, Seq::empty(), sealed)
}

/// Wraps `dek` for the device at position `i` of a list.
fn wrap_for(d: &Recipient, i: usize, dek: &Vec<u8>, entropy: &WrapEntropy) -> (out: Result<
    DeviceWrap,
    EncryptError,
>)
    requires
        dek@.len() == 32,
        entropy_fits(*entropy),
    ensures
        match out {
            Ok(w) => {
                &&& recipient_key(d.key_type@, d.public_key@, i) is Ok
                &&& is_wrap(w, *d, dek@, *entropy)
                &&& forall|secret: Seq<u8>|
                    secret.len() == 32 && base64_bytes(d.public_key@) == Some(
                        #[trigger] x25519_public(secret),
                    ) ==> opens_wrapped(
                        wrapping_key(secret, x25519_public(entropy.ephemeral@)),
                        entropy.nonce@,
                        base64_bytes(w.encrypted_dek@)->0,
                        dek@,
                    )
                &&& base64_bytes(w.encrypted_dek@) is Some
                &&& x25519_public(entropy.ephemeral@).len() == 32
            },
            Err(e) => recipient_key(d.key_type@, d.public_key@, i) == Err::<Seq<u8>, EncryptError>(
                e,
            ),
        },
{
    let public = match read_recipient_key(d, i) {
        Ok(b) => b,
        Err(e) => return Err(e),
    };
    let ephemeral_pub = public_key(&entropy.ephemeral);
    let wrap_key = match wrapping_key_of(&entropy.ephemeral, &public) {
        Ok(key) => key,
        Err(_) => return Err(EncryptError::TooLong),
    };
    let no_aad: Vec<u8> = Vec::new();
    let sealed = match aes_seal(&wrap_key, &entropy.nonce, &no_aad, dek) {
        Ok(sealed) => sealed,
        Err(_) => return Err(EncryptError::TooLong),
    };
    proof {
        law_base64_decode_encode(sealed@);
        assert forall|secret: Seq<u8>|
            secret.len() == 32 && base64_bytes(d.public_key@) == Some(
                #[trigger] x25519_public(secret),
            ) implies opens_wrapped(
            wrapping_key(secret, x25519_public(entropy.ephemeral@)),
            entropy.nonce@,
            sealed@,
            dek@,
        ) by {
            assert(no_aad@ =~= Seq::empty());
            assert(x25519_shared(secret, ephemeral_pub@) == x25519_shared(
                entropy.ephemeral@,
                x25519_public(secret),
            ));
        }
    }
    Ok(
        DeviceWrap {
            device_id: d.device_id.clone(),
            key_type: d.key_type.clone(),
            ephemeral_pub: base64_encode(&ephemeral_pub),
            dek_nonce: base64_encode(&entropy.nonce),
            encrypted_dek: base64_encode(&sealed),
        },
    )
}

/// Encrypts a value for a list of devices with the given random bytes: the body
/// under `dek`, and `dek` for each device under a key that its holder can derive.
pub fn seal_for_devices(
    aad: &str,
    plaintext: &[u8],
    devices: &Vec<Recipient>,
    dek: &Vec<u8>,
    nonce: &Vec<u8>,
    entropy: &Vec<WrapEntropy>,
) -> (out: Result<DevicePayload, EncryptError>)
    requires
        dek@.len() == 32,
        nonce@.len() == 12,
        entropy@.len() == devices@.len(),
        forall|i: int| 0 <= i < entropy@.len() ==> entropy_fits(#[trigger] entropy@[i]),
    ensures
        match out {
            Ok(p) => {
                &&& sealable(aad@, plaintext@)
                &&& all_recipients_usable(devices@)
                &&& p.nonce@ == base64_text(nonce@)
                &&& p.aad@ == base64_text(encode_utf8(aad@))
                &&& aes_sealed(dek@, nonce@, encode_utf8(aad@), plaintext@) matches Some(sealed)
                &&& p.ciphertext@ == base64_text(sealed)
                &&& p.recipients@.len() == devices@.len()
                &&& forall|i: int|
                    0 <= i < devices@.len() ==> is_wrap(
                        #[trigger] p.recipients@[i],
                        devices@[i],
                        dek@,
                        entropy@[i],
                    )
                &&& forall|i: int|
                    0 <= i < devices@.len() ==> opens_for(
                        #[trigger] p.recipients@[i],
                        p,
                        devices@[i].public_key@,
                        plaintext@,
                    )
            },
            Err(EncryptError::TooLong) => !sealable(aad@, plaintext@),
            Err(e) => sealable(aad@, plaintext@) && first_recipient_error(devices@, e),
        },
{
    let aad_bytes = aad.as_bytes();
    let sealed = match aes_seal(dek, nonce, aad_bytes, plaintext) {
        Ok(sealed) => sealed,
        Err(_) => return Err(EncryptError::TooLong),
    };
    let n: usize = devices.len();
    let mut recipients: Vec<DeviceWrap> = Vec::new();
    for i in 0..n
        invariant
            n == devices@.len(),
            n == entropy@.len(),
            dek@.len() == 32,
            sealable(aad@, plaintext@),
            forall|k: int| 0 <= k < entropy@.len() ==> entropy_fits(#[trigger] entropy@[k]),
            recipients@.len() == i,
            all_recipients_usable(devices@.take(i as int)),
            forall|k: int|
                0 <= k < i ==> is_wrap(#[trigger] recipients@[k], devices@[k], dek@, entropy@[k]),
            forall|k: int|
                0 <= k < i ==> base64_bytes((#[trigger] recipients@[k]).encrypted_dek@) is Some
                    && x25519_public(entropy@[k].ephemeral@).len() == 32,
            forall|k: int, secret: Seq<u8>|
                0 <= k < i && secret.len() == 32 && base64_bytes(devices@[k].public_key@) == Some(
                    #[trigger] x25519_public(secret),
                ) ==> opens_wrapped(
                    wrapping_key(secret, x25519_public(entropy@[k].ephemeral@)),
                    entropy@[k].nonce@,
                    base64_bytes((#[trigger] recipients@[k]).encrypted_dek@)->0,
                    dek@,
                ),
    {
        match wrap_for(&devices[i], i, dek, &entropy[i]) {
            Ok(w) => {
                proof {
                    let d = devices@.take(i + 1);
                    assert forall|k: int| 0 <= k < d.len() implies recipient_key(
                        #[trigger] d[k].key_type@,
                        d[k].public_key@,
                        k as usize,
                    ) is Ok by {
                        if k < i {
                            assert(devices@.take(i as int)[k].key_type@ == d[k].key_type@);
                        }
                    }
                }
                recipients.push(w);
            },
            Err(e) => {
                proof {
                    assert(recipient_key(
                        devices@[i as int].key_type@,
                        devices@[i as int].public_key@,
                        i as usize,
                    ) == Err::<Seq<u8>, EncryptError>(e));
                }
                return Err(e);
            },
        }
    }
    let p = DevicePayload {
        nonce: base64_encode(nonce),
        ciphertext: base64_encode(&sealed),
        aad: base64_encode(aad_bytes),
        recipients,
    };
    proof {
        assert(devices@.take(n as int) =~= devices@);
        law_base64_decode_encode(nonce@);
        law_base64_decode_encode(sealed@);
        law_base64_decode_encode(aad_bytes@);
        assert forall|i: int| 0 <= i < devices@.len() implies opens_for(
            #[trigger] p.recipients@[i],
            p,
            devices@[i].public_key@,
            plaintext@,
        ) by {
            let w = p.recipients@[i];
            law_base64_decode_encode(x25519_public(entropy@[i].ephemeral@));
            law_base64_decode_encode(entropy@[i].nonce@);
            assert forall|private_key: Seq<char>|
                (#[trigger] device_key(private_key) matches Ok(secret) && base64_bytes(
                    devices@[i].public_key@,
                ) == Some(x25519_public(secret))) implies {
                let wrap = WrapText {
                    private_key,
                    ephemeral_pub: w.ephemeral_pub@,
                    dek_nonce: w.dek_nonce@,
                    encrypted_dek: w.encrypted_dek@,
                };
                let body = BodyText { nonce: p.nonce@, ciphertext: p.ciphertext@, aad: p.aad@ };
                &&& envelope_fits(wrap, body)
                &&& decrypted(wrap, body) == Ok::<Seq<u8>, DecryptError>(plaintext@)
                &&& shows_changes(wrap, body)
            } by {
                let secret = device_key(private_key)->Ok_0;
                assert(secret.len() == 32);
                assert(base64_bytes(p.recipients@[i].encrypted_dek@) is Some);
                let wrap = WrapText {
                    private_key,
                    ephemeral_pub: w.ephemeral_pub@,
                    dek_nonce: w.dek_nonce@,
                    encrypted_dek: w.encrypted_dek@,
                };
                let body = BodyText { nonce: p.nonce@, ciphertext: p.ciphertext@, aad: p.aad@ };
                assert(opens_wrapped(
                    wrapping_key(secret, x25519_public(entropy@[i].ephemeral@)),
                    entropy@[i].nonce@,
                    base64_bytes(w.encrypted_dek@)->0,
                    dek@,
                ));
                lemma_wrap_shows_changes(wrap);
                lemma_body_shows_changes(dek@, body);
            }
        }
    }
    Ok(p)
}

/// Twelve random bytes.
fn random_nonce() -> (out: Vec<u8>)
    ensures
        out@.len() == 12,
{
    let mut out = random_secret();
    out.truncate(12);
    out
}

/// Encrypts a value for a list of devices. Whatever random bytes come, each of the
/// devices can open what it makes.
pub fn encrypt_for_devices(aad: &str, plaintext: &[u8], devices: &Vec<Recipient>) -> (out: Result<
    DevicePayload,
    EncryptError,
>)
    ensures
        match out {
            Ok(p) => {
                &&& sealable(aad@, plaintext@)
                &&& all_recipients_usable(devices@)
                &&& p.aad@ == base64_text(encode_utf8(aad@))
                &&& p.recipients@.len() == devices@.len()
                &&& forall|i: int|
                    0 <= i < devices@.len() ==> {
                        &&& (#[trigger] p.recipients@[i]).device_id@ == devices@[i].device_id@
                        &&& p.recipients@[i].key_type@ == devices@[i].key_type@
                        &&& opens_for(p.recipients@[i], p, devices@[i].public_key@, plaintext@)
                    }
            },
            Err(EncryptError::TooLong) => !sealable(aad@, plaintext@),
            Err(e) => sealable(aad@, plaintext@) && first_recipient_error(devices@, e),
        },
{
    let n: usize = devices.len();
    let mut entropy: Vec<WrapEntropy> = Vec::new();
    for i in 0..n
        invariant
            entropy@.len() == i,
            forall|k: int| 0 <= k < i ==> entropy_fits(#[trigger] entropy@[k]),
    {
        entropy.push(WrapEntropy { ephemeral: random_secret(), nonce: random_nonce() });
    }
    seal_for_devices(aad, plaintext, devices, &random_secret(), &random_nonce(), &entropy)
}

// ── What the names stand for ────────────────────────────────────────────────
/// The key that wraps a body key: HKDF over SHA-256, with a salt of 32 zero bytes and the info
/// `kv-device-wrap`, of what X25519 makes of the secret key and the ephemeral public key. The
/// parts are written in base64, the secret key with whitespace around it if need be. Where the
/// wrapped key opens with that key, without associated data, and the body opens with what comes
/// out, with its associated data, what comes out of that is the plaintext.
pub proof fn law_envelope_opens(
    w: WrapText,
    b: BodyText,
    secret: Seq<u8>,
    ephemeral: Seq<u8>,
    wrapping: Seq<u8>,
    dek: Seq<u8>,
    plaintext: Seq<u8>,
)
    requires
        base64_bytes(trimmed(w.private_key)) == Some(secret),
        secret.len() == 32,
        base64_bytes(w.ephemeral_pub) == Some(ephemeral),
        ephemeral.len() == 32,
        wrapping == hkdf_sha256(
            Seq::new(32, |i: int| 0u8),
            x25519_shared(secret, ephemeral),
            encode_utf8("kv-device-wrap"@),
        ),
        base64_bytes(w.dek_nonce) is Some,
        base64_bytes(w.encrypted_dek) is Some,
        aes_opened(
            wrapping,
            base64_bytes(w.dek_nonce)->0,
            Seq::empty(),
            base64_bytes(w.encrypted_dek)->0,
        ) == Some(dek),
        base64_bytes(b.nonce) is Some,
        base64_bytes(b.ciphertext) is Some,
        base64_bytes(b.aad) is Some,
        aes_opened(
            dek,
            base64_bytes(b.nonce)->0,
            base64_bytes(b.aad)->0,
            base64_bytes(b.ciphertext)->0,
        ) == Some(plaintext),
    ensures
        decrypted(w, b) == Ok::<Seq<u8>, DecryptError>(plaintext),
        wrapping_key_in(w) == wrapping,
        unwrapped_key(w) == Ok::<Seq<u8>, DecryptError>(dek),
        envelope_fits(w, b) <==> base64_bytes(w.dek_nonce)->0.len() == 12 && base64_bytes(
            b.nonce,
        )->0.len() == 12 && dek.len() == 32,
{
}

/// Nothing else opens: an envelope that opens has all its parts in base64, keys of 32 bytes, a
/// wrapped key that opens with the wrapping key, and a body that opens with what comes out.
pub proof fn law_opened_envelope(w: WrapText, b: BodyText)
    requires
        decrypted(w, b) is Ok,
    ensures
        base64_bytes(trimmed(w.private_key)) matches Some(secret) && secret.len() == 32,
        base64_bytes(w.ephemeral_pub) matches Some(public) && public.len() == 32,
        base64_bytes(w.dek_nonce) is Some,
        base64_bytes(w.encrypted_dek) is Some,
        base64_bytes(b.nonce) is Some,
        base64_bytes(b.ciphertext) is Some,
        base64_bytes(b.aad) is Some,
        ({
            let wrapping = hkdf_sha256(
                Seq::new(32, |i: int| 0u8),
                x25519_shared(
                    base64_bytes(trimmed(w.private_key))->0,
                    base64_bytes(w.ephemeral_pub)->0,
                ),
                encode_utf8("kv-device-wrap"@),
            );
            &&& aes_opened(
                wrapping,
                base64_bytes(w.dek_nonce)->0,
                Seq::empty(),
                base64_bytes(w.encrypted_dek)->0,
            ) matches Some(dek)
            &&& aes_opened(
                dek,
                base64_bytes(b.nonce)->0,
                base64_bytes(b.aad)->0,
                base64_bytes(b.ciphertext)->0,
            ) == Some(decrypted(w, b)->Ok_0)
        }),
{
}

/// An envelope that does not open says what is wrong with it, and nothing that comes before that
/// is: the private key, the ephemeral key, the nonce of the wrapped key, the wrapped key, whether
/// it opens, the nonce of the body, the body, its associated data, and whether that opens.
pub proof fn law_why_an_envelope_does_not_open(w: WrapText, b: BodyText)
    ensures
        ({
            let secret = base64_bytes(trimmed(w.private_key));
            let public = base64_bytes(w.ephemeral_pub);
            let keys = secret is Some && secret->0.len() == 32 && public is Some && public->0.len()
                == 32;
            match decrypted(w, b) {
                Ok(_) => keys,
                Err(DecryptError::PrivateKeyEncoding(e)) => secret is None && e == base64_error(
                    trimmed(w.private_key),
                ),
                Err(DecryptError::PrivateKeyLength) => secret is Some && secret->0.len() != 32,
                Err(DecryptError::EphemeralPubEncoding(e)) => public is None && secret is Some && e
                    == base64_error(w.ephemeral_pub),
                Err(DecryptError::EphemeralPubLength) => public is Some && public->0.len() != 32
                    && secret is Some,
                Err(DecryptError::KeyDerivation) => false,
                Err(DecryptError::DekNonceEncoding(e)) => keys && base64_bytes(w.dek_nonce) is None
                    && e == base64_error(w.dek_nonce),
                Err(DecryptError::EncryptedDekEncoding(e)) => keys && base64_bytes(w.encrypted_dek)
                    is None && base64_bytes(w.dek_nonce) is Some && e == base64_error(
                    w.encrypted_dek,
                ),
                Err(DecryptError::DekDecryption) => keys && base64_bytes(w.dek_nonce) is Some
                    && base64_bytes(w.encrypted_dek) is Some && unwrapped_key(w) is Err,
                Err(DecryptError::NonceEncoding(e)) => unwrapped_key(w) is Ok && base64_bytes(
                    b.nonce,
                ) is None && e == base64_error(b.nonce),
                Err(DecryptError::CiphertextEncoding(e)) => unwrapped_key(w) is Ok && base64_bytes(
                    b.ciphertext,
                ) is None && base64_bytes(b.nonce) is Some && e == base64_error(b.ciphertext),
                Err(DecryptError::AadEncoding(e)) => unwrapped_key(w) is Ok && base64_bytes(b.aad)
                    is None && base64_bytes(b.nonce) is Some && base64_bytes(b.ciphertext) is Some
                    && e == base64_error(b.aad),
                Err(DecryptError::BodyDecryption) => unwrapped_key(w) is Ok && base64_bytes(b.nonce)
                    is Some && base64_bytes(b.ciphertext) is Some && base64_bytes(b.aad) is Some,
            }
        }),
{
}

/// A public key can be used if its type is `x25519` and it is 32 bytes in base64. What is wrong
/// with any other is said, the type first, with the position of its device.
pub proof fn law_recipient_key(key_type: Seq<char>, public_key: Seq<char>, i: usize)
    ensures
        match recipient_key(key_type, public_key, i) {
            Ok(key) => key_type == "x25519"@ && base64_bytes(public_key) == Some(key) && key.len()
                == 32,
            Err(EncryptError::KeyType(k)) => k == i && key_type != "x25519"@,
            Err(EncryptError::PublicKeyEncoding(k)) => k == i && key_type == "x25519"@
                && base64_bytes(public_key) is None,
            Err(EncryptError::PublicKeyLength(k)) => k == i && key_type == "x25519"@ && (
            base64_bytes(public_key) matches Some(key) && key.len() != 32),
            Err(EncryptError::TooLong) => false,
        },
{
}

/// A value can be encrypted if it and its associated data have at most 2^36 bytes.
pub proof fn law_sealable(aad: Seq<char>, plaintext: Seq<u8>)
    ensures
        sealable(aad, plaintext) <==> plaintext.len() <= 0x10_0000_0000 && encode_utf8(aad).len()
            <= 0x10_0000_0000,
{
}

/// A wrap is for its own device: it has the device's id and key type, and holds the body key
/// sealed, without associated data, under the key that the sender's ephemeral secret and the
/// device's public key give; what it says of the sender is the public key of that secret and
/// the nonce.
pub proof fn law_wrap(w: DeviceWrap, d: Recipient, dek: Seq<u8>, entropy: WrapEntropy)
    requires
        is_wrap(w, d, dek, entropy),
    ensures
        w.device_id@ == d.device_id@,
        w.key_type@ == d.key_type@,
        base64_bytes(w.ephemeral_pub@) == Some(x25519_public(entropy.ephemeral@)),
        base64_bytes(w.dek_nonce@) == Some(entropy.nonce@),
        base64_bytes(d.public_key@) is Some,
        aes_sealed(
            hkdf_sha256(
                Seq::new(32, |i: int| 0u8),
                x25519_shared(entropy.ephemeral@, base64_bytes(d.public_key@)->0),
                encode_utf8("kv-device-wrap"@),
            ),
            entropy.nonce@,
            Seq::empty(),
            dek,
        ) == base64_bytes(w.encrypted_dek@),
{
    law_base64_decode_encode(x25519_public(entropy.ephemeral@));
    law_base64_decode_encode(entropy.nonce@);
    let public = base64_bytes(d.public_key@)->0;
    law_base64_decode_encode(
        aes_sealed(
            wrapping_key(entropy.ephemeral@, public),
            entropy.nonce@,
            Seq::empty(),
            dek,
        )->0,
    );
}

/// Every device of a list can be used exactly if each has an X25519 key of 32 bytes; and if not,
/// the error is that of the first that has none.
pub proof fn law_usable_recipients(devices: Seq<Recipient>, e: EncryptError)
    requires
        devices.len() <= usize::MAX,
    ensures
        all_recipients_usable(devices) <==> forall|i: int|
            0 <= i < devices.len() ==> (#[trigger] devices[i]).key_type@ == "x25519"@ && (
            base64_bytes(devices[i].public_key@) matches Some(key) && key.len() == 32),
        first_recipient_error(devices, e) ==> exists|i: int|
            {
                &&& 0 <= i < devices.len()
                &&& e == EncryptError::KeyType(i as usize) || e == EncryptError::PublicKeyEncoding(
                    i as usize,
                ) || e == EncryptError::PublicKeyLength(i as usize)
                &&& recipient_key(
                    (#[trigger] devices[i]).key_type@,
                    devices[i].public_key@,
                    i as usize,
                ) is Err
                &&& all_recipients_usable(devices.take(i))
            },
{
    if all_recipients_usable(devices) {
        assert forall|i: int| 0 <= i < devices.len() implies (#[trigger] devices[i]).key_type@
            == "x25519"@ && (base64_bytes(devices[i].public_key@) matches Some(key) && key.len()
            == 32) by {
            assert(recipient_key(devices[i].key_type@, devices[i].public_key@, i as usize) is Ok);
        }
    }
    if forall|i: int|
        0 <= i < devices.len() ==> (#[trigger] devices[i]).key_type@ == "x25519"@ && (base64_bytes(
            devices[i].public_key@,
        ) matches Some(key) && key.len() == 32) {
        assert forall|i: int| 0 <= i < devices.len() implies recipient_key(
            #[trigger] devices[i].key_type@,
            devices[i].public_key@,
            i as usize,
        ) is Ok by {
            assert(devices[i].key_type@ == "x25519"@);
        }
    }
    if first_recipient_error(devices, e) {
        let i = choose|i: int|
            {
                &&& 0 <= i < devices.len()
                &&& recipient_key(
                    #[trigger] devices[i].key_type@,
                    devices[i].public_key@,
                    i as usize,
                ) == Err::<Seq<u8>, EncryptError>(e)
                &&& all_recipients_usable(devices.take(i))
            };
        assert(recipient_key(devices[i].key_type@, devices[i].public_key@, i as usize) is Err);
    }
}

} // verus!
