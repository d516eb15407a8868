//! The cryptographic functions that the client calls: X25519, HKDF over SHA-256,
//! AES-256 in Galois/counter mode, MD5, and the random numbers of the system.
//!
//! What they compute has a name here; the contracts state the few facts about the
//! names that the rest of the library stands on.

use aes_gcm::aead::generic_array::GenericArray;
use aes_gcm::aead::{Aead, KeyInit, Payload};
use aes_gcm::aes::cipher::BlockEncrypt;
use aes_gcm::aes::Aes256;
use aes_gcm::Aes256Gcm;
use hkdf::Hkdf;
use md5::{Digest, Md5};
use rand_core::OsRng;
use sha2::Sha256;
use vstd::prelude::*;
use x25519_dalek::{PublicKey, StaticSecret};

verus! {

// ── X25519 ──────────────────────────────────────────────────────────────────
/// The X25519 public key of a secret key.
pub uninterp spec fn x25519_public(secret: Seq<u8>) -> Seq<u8>;

/// The secret that X25519 derives from one side's secret key and the other side's
/// public key.
pub uninterp spec fn x25519_shared(secret: Seq<u8>, public: Seq<u8>) -> Seq<u8>;

/// `PublicKey::from(&StaticSecret)` of `x25519_dalek`. The second clause is the
/// key agreement: the holder of any other secret derives from this public key
/// what the holder of this secret derives from that one's public key.
#[verifier::external_body]
pub(crate) fn public_key(secret: &[u8]) -> (out: Vec<u8>)
    requires
        secret@.len() == 32,
    ensures
        out@ == x25519_public(secret@),
        out@.len() == 32,
        forall|other: Seq<u8>|
            other.len() == 32 ==> #[trigger] x25519_shared(other, out@) == x25519_shared(
                secret@,
                x25519_public(other),
            ),
{
    let bytes: [u8; 32] = secret.try_into().unwrap();
    PublicKey::from(&StaticSecret::from(bytes)).as_bytes().to_vec()
}

/// `StaticSecret::diffie_hellman` of `x25519_dalek`.
#[verifier::external_body]
pub(crate) fn shared_secret(secret: &[u8], public: &[u8]) -> (out: Vec<u8>)
    requires
        secret@.len() == 32,
        public@.len() == 32,
    ensures
        out@ == x25519_shared(secret@, public@),
        out@.len() == 32,
{
    let own: [u8; 32] = secret.try_into().unwrap();
    let theirs: [u8; 32] = public.try_into().unwrap();
    StaticSecret::from(own).diffie_hellman(&PublicKey::from(theirs)).as_bytes().to_vec()
}

/// `StaticSecret::random_from_rng(OsRng)` of `x25519_dalek`: 32 bytes from the
/// random number generator of the system. Nothing is known of them but their
/// number. A system that has no random numbers to give ends the program here.
#[verifier::external_body]
pub(crate) fn random_secret() -> (out: Vec<u8>)
    ensures
        out@.len() == 32,
{
    StaticSecret::random_from_rng(OsRng).as_bytes().to_vec()
}

// ── HKDF ────────────────────────────────────────────────────────────────────
/// The first 32 bytes that HKDF over SHA-256 derives from a salt, the input key
/// material and an info string.
pub uninterp spec fn hkdf_sha256(salt: Seq<u8>, material: Seq<u8>, info: Seq<u8>) -> Seq<u8>;

/// The error of `Hkdf::expand`.
#[verifier::external_type_specification]
#[verifier::external_body]
pub struct ExInvalidLength(hkdf::InvalidLength);

/// `Hkdf::<Sha256>::new` and `Hkdf::expand` into 32 bytes. `expand` fails on
/// outputs longer than 255 times the length of a hash, so never here.
#[verifier::external_body]
pub(crate) fn derive_key(
    salt: &[u8],
    material: &[u8],
    info: &[u8],
) -> (out: Result<Vec<u8>, hkdf::InvalidLength>)
    ensures
        out is Ok,
        out->Ok_0@ == hkdf_sha256(salt@, material@, info@),
        out->Ok_0@.len() == 32,
{
    let mut key = [0u8; 32];
    Hkdf::<Sha256>::new(Some(salt), material).expand(info, &mut key)?;
    Ok(key.to_vec())
}

// ── AES-256-GCM ─────────────────────────────────────────────────────────────
/// What AES-256-GCM makes of a plaintext and its associated data: the ciphertext
/// followed by the tag; `None` if one of the two is too long for the mode.
pub uninterp spec fn aes_sealed(
    key: Seq<u8>,
    nonce: Seq<u8>,
    aad: Seq<u8>,
    plaintext: Seq<u8>,
) -> Option<Seq<u8>>;

/// What AES-256-GCM gives back of a ciphertext and its tag: the plaintext, or
/// `None` if the tag is not the one of the ciphertext and the associated data.
pub uninterp spec fn aes_opened(
    key: Seq<u8>,
    nonce: Seq<u8>,
    aad: Seq<u8>,
    sealed: Seq<u8>,
) -> Option<Seq<u8>>;

/// Whether two sealed texts hold the same ciphertext, and differ in the tag: the last
/// sixteen bytes.
pub open spec fn other_tag(a: Seq<u8>, b: Seq<u8>) -> bool {
    &&& a.len() == b.len()
    &&& a.len() >= 16
    &&& a.take(a.len() - 16) == b.take(b.len() - 16)
    &&& a != b
}

/// Whether two rows of bytes are equally long and differ in one byte alone, as they do
/// where one bit of one of them was changed.
pub open spec fn one_byte_apart(a: Seq<u8>, b: Seq<u8>) -> bool {
    &&& a.len() == b.len()
    &&& exists|i: int|
        {
            &&& 0 <= i < a.len()
            &&& #[trigger] a[i] != b[i]
            &&& forall|j: int| 0 <= j < a.len() && j != i ==> #[trigger] a[j] == b[j]
        }
}

/// The key of the hash that AES-256-GCM makes its tags with: what AES-256 makes of
/// sixteen zero bytes.
pub uninterp spec fn aes_hash_key(key: Seq<u8>) -> Seq<u8>;

/// Whether the hash under `key` sees nothing of what it hashes, because it multiplies
/// everything by zero.
pub open spec fn hash_is_blind(key: Seq<u8>) -> bool {
    aes_hash_key(key) == Seq::new(16, |i: int| 0u8)
}

/// Whether a sealed text is refused once it was changed: with another tag in any case, and
/// with one byte changed, of it or of the associated data, unless the hash is blind.
pub open spec fn detects_changes(
    key: Seq<u8>,
    nonce: Seq<u8>,
    aad: Seq<u8>,
    sealed: Seq<u8>,
) -> bool {
    &&& forall|other: Seq<u8>|
        other_tag(other, sealed) || (!hash_is_blind(key) && one_byte_apart(other, sealed))
            ==> #[trigger] aes_opened(key, nonce, aad, other) is None
    &&& forall|other: Seq<u8>|
        !hash_is_blind(key) && one_byte_apart(other, aad) ==> #[trigger] aes_opened(
            key,
            nonce,
            other,
            sealed,
        ) is None
}

/// `Aes256::encrypt_block` of `aes`, on a block of zeros, which is how `Aes256Gcm` comes to
/// the key of its hash.
#[verifier::external_body]
pub(crate) fn hash_key(key: &[u8]) -> (out: Vec<u8>)
    requires
        key@.len() == 32,
    ensures
        out@ == aes_hash_key(key@),
        out@.len() == 16,
{
    let mut block = GenericArray::default();
    Aes256::new(GenericArray::from_slice(key)).encrypt_block(&mut block);
    block.to_vec()
}

/// The error of `aes_gcm`.
#[verifier::external_type_specification]
#[verifier::external_body]
pub struct ExAeadError(aes_gcm::Error);

/// The longest plaintext, and the longest associated data, that `aes_gcm` accepts.
pub const AES_MAX_LEN: u64 = 0x10_0000_0000;

/// `Aead::encrypt` of `Aes256Gcm`. It fails on a plaintext or associated data
/// over the limit of the mode and on nothing else; decryption with the same key,
/// nonce and associated data gives the plaintext back, and refuses what was changed as
/// [`aes_open`] does. The result is the ciphertext, as long as the plaintext, and the
/// tag.
#[verifier::external_body]
pub(crate) fn aes_seal(
    key: &[u8],
    nonce: &[u8],
    aad: &[u8],
    plaintext: &[u8],
) -> (out: Result<Vec<u8>, aes_gcm::Error>)
    requires
        key@.len() == 32,
        nonce@.len() == 12,
    ensures
        match out {
            Ok(sealed) => {
                &&& aes_sealed(key@, nonce@, aad@, plaintext@) == Some(sealed@)
                &&& aes_opened(key@, nonce@, aad@, sealed@) == Some(plaintext@)
                &&& sealed@.len() == plaintext@.len() + 16
                &&& detects_changes(key@, nonce@, aad@, sealed@)
            },
            Err(_) => aes_sealed(key@, nonce@, aad@, plaintext@) is None,
        },
        out is Ok <==> (plaintext@.len() <= AES_MAX_LEN && aad@.len() <= AES_MAX_LEN),
{
    Aes256Gcm::new(GenericArray::from_slice(key)).encrypt(
        GenericArray::from_slice(nonce),
        Payload { msg: plaintext, aad },
    )
}

/// `Aead::decrypt` of `Aes256Gcm`. It computes the one tag that goes with the key, the
/// nonce, the associated data and the ciphertext, and refuses every other. The tag is a
/// mask, which depends on the key and the nonce, added to a polynomial whose coefficients
/// are the blocks of the associated data, of the ciphertext, and of their lengths, at the
/// hash key, in a field of 2^128 elements. Two inputs that differ in one byte differ in one
/// coefficient, so their tags differ unless the hash key is zero. Of changes to several
/// blocks nothing is said: there, tags may agree by chance.
#[verifier::external_body]
pub(crate) fn aes_open(
    key: &[u8],
    nonce: &[u8],
    aad: &[u8],
    sealed: &[u8],
) -> (out: Result<Vec<u8>, aes_gcm::Error>)
    requires
        key@.len() == 32,
        nonce@.len() == 12,
    ensures
        match out {
            Ok(plaintext) => {
                &&& aes_opened(key@, nonce@, aad@, sealed@) == Some(plaintext@)
                &&& sealed@.len() == plaintext@.len() + 16
                &&& detects_changes(key@, nonce@, aad@, sealed@)
            },
            Err(_) => aes_opened(key@, nonce@, aad@, sealed@) is None,
        },
{
    Aes256Gcm::new(GenericArray::from_slice(key)).decrypt(
        GenericArray::from_slice(nonce),
        Payload { msg: sealed, aad },
    )
}

// ── MD5 ─────────────────────────────────────────────────────────────────────
/// The MD5 digest of `bytes`.
pub uninterp spec fn md5_digest(bytes: Seq<u8>) -> Seq<u8>;

/// `Md5::digest`: the sixteen bytes of the digest.
#[verifier::external_body]
pub(crate) fn md5(bytes: &[u8]) -> (out: Vec<u8>)
    ensures
        out@ == md5_digest(bytes@),
        out@.len() == 16,
{
    Md5::digest(bytes).to_vec()
}

} // verus!
