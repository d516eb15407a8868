//! Envelopes.

use aes_gcm::aead::generic_array::GenericArray;
use aes_gcm::aead::{Aead, KeyInit};
use aes_gcm::Aes256Gcm;
use base64::engine::general_purpose::STANDARD;
use base64::Engine;
use hkdf::Hkdf;
use kv_cli::client::Verb;
use kv_cli::commands::device::{
    load_or_create_key, load_private_key_b64, propose, public_key_b64, register,
};
use kv_cli::crypto::{
    decrypt_device_kv, encrypt_for_devices, is_blind_key, open_device_kv, read_device_key,
    seal_for_devices, DecryptError, DevicePayload, EncryptError, Recipient, WrapEntropy,
};
use kv_cli::encoding::Base64Error;
use sha2::Sha256;
use x25519_dalek::{PublicKey, StaticSecret};

/// What is wrong with `?`.
const QUESTION: Base64Error = Base64Error::InvalidByte(0, 63);

/// What is wrong with `not base64!`.
const SPACE: Base64Error = Base64Error::InvalidByte(3, 32);

fn recipient(id: &str, secret: &Vec<u8>) -> Recipient {
    Recipient {
        device_id: id.to_string(),
        key_type: "x25519".to_string(),
        public_key: public_key_b64(secret),
    }
}

fn open(p: &DevicePayload, i: usize, private_key: &str) -> Option<Result<Vec<u8>, DecryptError>> {
    let w = &p.recipients[i];
    open_device_kv(
        private_key,
        &w.ephemeral_pub,
        &w.dek_nonce,
        &w.encrypted_dek,
        &p.nonce,
        &p.ciphertext,
        &p.aad,
    )
}

/// An envelope for one device, with the private key that opens it.
fn sample() -> (DevicePayload, String) {
    let secret: Vec<u8> = (1u8..33).collect();
    let p = encrypt_for_devices("key", b"value", &vec![recipient("d", &secret)]);
    match p {
        Ok(p) => (p, STANDARD.encode(&secret)),
        Err(_) => panic!("the device can be encrypted for"),
    }
}

#[test]
fn public_keys_are_those_of_x25519() {
    let secret: Vec<u8> = vec![
        0x77, 0x07, 0x6d, 0x0a, 0x73, 0x18, 0xa5, 0x7d, 0x3c, 0x16, 0xc1, 0x72, 0x51, 0xb2, 0x66,
        0x45, 0xdf, 0x4c, 0x2f, 0x87, 0xeb, 0xc0, 0x99, 0x2a, 0xb1, 0x77, 0xfb, 0xa5, 0x1d, 0xb9,
        0x2c, 0x2a,
    ];
    let public: Vec<u8> = vec![
        0x85, 0x20, 0xf0, 0x09, 0x89, 0x30, 0xa7, 0x54, 0x74, 0x8b, 0x7d, 0xdc, 0xb4, 0x3e, 0xf7,
        0x5a, 0x0d, 0xbf, 0x3a, 0x0d, 0x26, 0x38, 0x1a, 0xf4, 0xeb, 0xa4, 0xa9, 0x8e, 0xaa, 0x9b,
        0x4e, 0x6a,
    ];
    assert_eq!(public_key_b64(&secret), STANDARD.encode(public));
}

#[test]
fn bodies_are_sealed_with_aes_gcm() {
    let zeros = vec![0u8; 32];
    let nonce = vec![0u8; 12];
    let none: Vec<Recipient> = Vec::new();
    let no_entropy: Vec<WrapEntropy> = Vec::new();
    let Ok(empty) = seal_for_devices("", b"", &none, &zeros, &nonce, &no_entropy) else {
        panic!("nothing is too long");
    };
    assert_eq!(empty.ciphertext, "Uw+K+8dFNrmpY7TxxMtziw==");
    assert_eq!(empty.aad, "");
    assert_eq!(empty.nonce, "AAAAAAAAAAAAAAAA");
    let Ok(block) = seal_for_devices("", &[0u8; 16], &none, &zeros, &nonce, &no_entropy) else {
        panic!("nothing is too long");
    };
    let mut expected: Vec<u8> = vec![
        0xce, 0xa7, 0x40, 0x3d, 0x4d, 0x60, 0x6b, 0x6e, 0x07, 0x4e, 0xc5, 0xd3, 0xba, 0xf3, 0x9d,
        0x18,
    ];
    expected.extend([
        0xd0, 0xd1, 0xc8, 0xa7, 0x99, 0x99, 0x6b, 0xf0, 0x26, 0x5b, 0x98, 0xb5, 0xd4, 0x8a, 0xb9,
        0x19,
    ]);
    assert_eq!(block.ciphertext, STANDARD.encode(expected));
}

#[test]
fn keys_are_wrapped_with_hkdf_of_the_shared_secret() {
    let secret: Vec<u8> = (1u8..33).collect();
    let ephemeral: Vec<u8> = (101u8..133).collect();
    let dek: Vec<u8> = vec![9u8; 32];
    let entropy = vec![WrapEntropy { ephemeral: ephemeral.clone(), nonce: vec![7u8; 12] }];
    let devices = vec![recipient("d1", &secret)];
    let Ok(p) = seal_for_devices("k", b"v", &devices, &dek, &vec![3u8; 12], &entropy) else {
        panic!("the device can be encrypted for");
    };
    assert_eq!(p.aad, STANDARD.encode("k"));
    assert_eq!(p.recipients.len(), 1);
    assert_eq!(p.recipients[0].device_id, "d1");
    assert_eq!(p.recipients[0].key_type, "x25519");
    assert_eq!(p.recipients[0].ephemeral_pub, public_key_b64(&ephemeral));
    assert_eq!(p.recipients[0].dek_nonce, STANDARD.encode([7u8; 12]));

    let own: [u8; 32] = secret.try_into().unwrap();
    let sender: [u8; 32] = ephemeral.try_into().unwrap();
    let shared = StaticSecret::from(own)
        .diffie_hellman(&PublicKey::from(&StaticSecret::from(sender)));
    let mut wrap_key = [0u8; 32];
    Hkdf::<Sha256>::new(Some(&[0u8; 32]), shared.as_bytes())
        .expand(b"kv-device-wrap", &mut wrap_key)
        .unwrap();
    let wrapped = STANDARD.decode(&p.recipients[0].encrypted_dek).unwrap();
    let opened = Aes256Gcm::new(GenericArray::from_slice(&wrap_key))
        .decrypt(GenericArray::from_slice(&[7u8; 12]), wrapped.as_slice())
        .unwrap();
    assert_eq!(opened, dek);
}

#[test]
fn every_recipient_opens_what_was_encrypted() {
    let secrets: Vec<Vec<u8>> = (0..3)
        .map(|_| load_or_create_key(None).map(|s| s.secret).unwrap_or_default())
        .collect();
    let devices: Vec<Recipient> = secrets
        .iter()
        .enumerate()
        .map(|(i, s)| recipient(&format!("d{i}"), s))
        .collect();
    let Ok(p) = encrypt_for_devices("entry", "geheim ü".as_bytes(), &devices) else {
        panic!("the devices can be encrypted for");
    };
    assert_eq!(p.recipients.len(), 3);
    for (i, s) in secrets.iter().enumerate() {
        assert_eq!(p.recipients[i].device_id, format!("d{i}"));
        let key = STANDARD.encode(s);
        assert_eq!(open(&p, i, &key), Some(Ok("geheim ü".as_bytes().to_vec())));
        let other = (i + 1) % 3;
        assert_eq!(open(&p, other, &key), Some(Err(DecryptError::DekDecryption)));
    }
}

#[test]
fn two_encryptions_differ() {
    let (a, _) = sample();
    let (b, _) = sample();
    assert_ne!(a.nonce, b.nonce);
    assert_ne!(a.recipients[0].ephemeral_pub, b.recipients[0].ephemeral_pub);
}

#[test]
fn decrypting_without_a_guard() {
    let (p, key) = sample();
    let w = &p.recipients[0];
    let spaced = format!("  {key}\n");
    let out = decrypt_device_kv(
        &spaced,
        &w.ephemeral_pub,
        &w.dek_nonce,
        &w.encrypted_dek,
        &p.nonce,
        &p.ciphertext,
        &p.aad,
    );
    assert_eq!(out, Ok(b"value".to_vec()));
}

#[test]
fn a_broken_private_key_is_reported() {
    let (p, _) = sample();
    assert_eq!(open(&p, 0, " not base64!\n"), Some(Err(DecryptError::PrivateKeyEncoding(SPACE))));
    assert_eq!(open(&p, 0, "aGk="), Some(Err(DecryptError::PrivateKeyLength)));
    assert_eq!(read_device_key("aGk="), Err(DecryptError::PrivateKeyLength));
}

#[test]
fn a_broken_wrap_is_reported() {
    let (mut p, key) = sample();
    p.recipients[0].ephemeral_pub = "?".to_string();
    assert_eq!(open(&p, 0, &key), Some(Err(DecryptError::EphemeralPubEncoding(QUESTION))));
    p.recipients[0].ephemeral_pub = "aGk=".to_string();
    assert_eq!(open(&p, 0, &key), Some(Err(DecryptError::EphemeralPubLength)));
    let (mut p, key) = sample();
    p.recipients[0].dek_nonce = "?".to_string();
    assert_eq!(open(&p, 0, &key), Some(Err(DecryptError::DekNonceEncoding(QUESTION))));
    let (mut p, key) = sample();
    p.recipients[0].encrypted_dek = "?".to_string();
    assert_eq!(open(&p, 0, &key), Some(Err(DecryptError::EncryptedDekEncoding(QUESTION))));
    p.recipients[0].encrypted_dek = STANDARD.encode([0u8; 48]);
    assert_eq!(open(&p, 0, &key), Some(Err(DecryptError::DekDecryption)));
}

#[test]
fn a_broken_body_is_reported() {
    let (mut p, key) = sample();
    p.nonce = "?".to_string();
    assert_eq!(open(&p, 0, &key), Some(Err(DecryptError::NonceEncoding(QUESTION))));
    let (mut p, key) = sample();
    p.ciphertext = "?".to_string();
    assert_eq!(open(&p, 0, &key), Some(Err(DecryptError::CiphertextEncoding(QUESTION))));
    let (mut p, key) = sample();
    p.aad = "?".to_string();
    assert_eq!(open(&p, 0, &key), Some(Err(DecryptError::AadEncoding(QUESTION))));
    p.aad = STANDARD.encode("another key");
    assert_eq!(open(&p, 0, &key), Some(Err(DecryptError::BodyDecryption)));
}

#[test]
fn another_tag_opens_nothing() {
    let (p, key) = sample();
    let flip = |text: &str, i: usize| {
        let mut bytes = STANDARD.decode(text).unwrap();
        let at = bytes.len() - 1 - i;
        bytes[at] ^= 1;
        STANDARD.encode(bytes)
    };
    for i in 0..16 {
        let (mut p, key) = sample();
        p.ciphertext = flip(&p.ciphertext, i);
        assert_eq!(open(&p, 0, &key), Some(Err(DecryptError::BodyDecryption)));
        let (mut p, key) = sample();
        p.recipients[0].encrypted_dek = flip(&p.recipients[0].encrypted_dek, i);
        assert_eq!(open(&p, 0, &key), Some(Err(DecryptError::DekDecryption)));
    }
    assert_eq!(open(&p, 0, &key), Some(Ok(b"value".to_vec())));
}

#[test]
fn one_changed_bit_opens_nothing() {
    let flip = |text: &str, bit: usize| {
        let mut bytes = STANDARD.decode(text).unwrap();
        bytes[bit / 8] ^= 1 << (bit % 8);
        STANDARD.encode(bytes)
    };
    let (p, key) = sample();
    let bits = |text: &str| 8 * STANDARD.decode(text).unwrap().len();
    for bit in 0..bits(&p.recipients[0].encrypted_dek) {
        let (mut p, key) = sample();
        p.recipients[0].encrypted_dek = flip(&p.recipients[0].encrypted_dek, bit);
        assert_eq!(open(&p, 0, &key), Some(Err(DecryptError::DekDecryption)));
    }
    for bit in 0..bits(&p.ciphertext) {
        let (mut p, key) = sample();
        p.ciphertext = flip(&p.ciphertext, bit);
        assert_eq!(open(&p, 0, &key), Some(Err(DecryptError::BodyDecryption)));
    }
    for bit in 0..bits(&p.aad) {
        let (mut p, key) = sample();
        p.aad = flip(&p.aad, bit);
        assert_eq!(open(&p, 0, &key), Some(Err(DecryptError::BodyDecryption)));
    }
    assert_eq!(open(&p, 0, &key), Some(Ok(b"value".to_vec())));
}

#[test]
fn ordinary_keys_are_not_blind() {
    assert!(!is_blind_key(&vec![0; 32]));
    assert!(!is_blind_key(&(1u8..33).collect()));
}

#[test]
fn a_nonce_of_the_wrong_length_opens_nothing() {
    let (mut p, key) = sample();
    p.nonce = "aGk=".to_string();
    assert_eq!(open(&p, 0, &key), None);
    let (mut p, key) = sample();
    p.recipients[0].dek_nonce = "aGk=".to_string();
    assert_eq!(open(&p, 0, &key), None);
}

#[test]
fn a_device_that_cannot_be_encrypted_for_is_named() {
    let secret: Vec<u8> = (1u8..33).collect();
    let mut p256 = recipient("phone", &secret);
    p256.key_type = "p256".to_string();
    let devices = vec![recipient("ok", &secret), p256];
    assert_eq!(encrypt_for_devices("k", b"v", &devices).err(), Some(EncryptError::KeyType(1)));
    let mut broken = recipient("broken", &secret);
    broken.public_key = "?".to_string();
    assert_eq!(
        encrypt_for_devices("k", b"v", &vec![broken]).err(),
        Some(EncryptError::PublicKeyEncoding(0))
    );
    let mut short = recipient("short", &secret);
    short.public_key = "aGk=".to_string();
    assert_eq!(
        encrypt_for_devices("k", b"v", &vec![short]).err(),
        Some(EncryptError::PublicKeyLength(0))
    );
}

#[test]
fn a_stored_device_key_is_loaded_again() {
    let Ok(new) = load_or_create_key(None) else {
        panic!("a new key can always be made");
    };
    let Some(text) = new.new_file else {
        panic!("a new key is to be stored");
    };
    let Ok(again) = load_or_create_key(Some(&format!("{text}\n"))) else {
        panic!("a stored key can be loaded");
    };
    assert_eq!(again.secret, new.secret);
    assert!(again.new_file.is_none());
    assert_eq!(load_private_key_b64(&format!(" {text}\n")), text);
    assert_eq!(
        load_or_create_key(Some("%%")).err(),
        Some(DecryptError::PrivateKeyEncoding(Base64Error::InvalidByte(0, 37)))
    );
    assert_eq!(load_or_create_key(Some("aGk=")).err(), Some(DecryptError::PrivateKeyLength));
}

#[test]
fn a_proposal_carries_the_public_key() {
    let secret: Vec<u8> = (1u8..33).collect();
    let (call, p) = propose("laptop".to_string(), &secret);
    assert_eq!((call.verb, call.path.as_str()), (Verb::Post, "/api/devices/propose"));
    assert_eq!(register("laptop".to_string(), &secret).public_key, p.public_key);
    assert_eq!(p.name, "laptop");
    assert_eq!(p.key_type, "x25519");
    assert_eq!(p.public_key, public_key_b64(&secret));
}
