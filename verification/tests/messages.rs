//! What the operator is told.

use base64::engine::general_purpose::STANDARD;
use base64::Engine;
use kv_cli::client::{Failure, Reply};
use kv_cli::commands::device::ProposeFailure;
use kv_cli::commands::kv::GetFailure;
use kv_cli::commands::session_request::DurationError;
use kv_cli::crypto::{DecryptError, EncryptError};
use kv_cli::encoding::{base64_decode, text_strict, Base64Error, Utf8Error};
use kv_cli::fzf::SelectError;
use kv_cli::management_keys::plan::{Plan, PlanFailure, Task};
use kv_cli::messages::{
    acquire, base64_fault, decrypt, duration, encrypt, envelope, explain, get, int_fault,
    limit_reset, management_key, not_revealed, propose, provider, refused, select, server, session,
    status, stored_key, unknown_device, unsupported_provider, utf8_fault,
};
use kv_cli::secret_display::RevealError;
use kv_cli::session::{AcquireFailure, EnvelopeError};
use kv_cli::text::parse_signed;

#[test]
fn a_status_has_its_words() {
    assert_eq!(status(404), "404 Not Found");
    assert_eq!(status(500), "500 Internal Server Error");
    assert_eq!(status(299), "299 <unknown status code>");
    assert_eq!(status(99), "99");
    assert_eq!(status(1000), "1000");
}

#[test]
fn replies_that_are_no_success() {
    let reply = Reply { status: 503, body: "busy".to_string() };
    assert_eq!(server(&reply), "server returned 503 Service Unavailable: busy");
    assert_eq!(provider("openrouter", &reply), "openrouter returned 503 Service Unavailable: busy");
    assert_eq!(refused("x", "418", "tea"), "x returned 418: tea");
    assert!(unknown_device("d1").starts_with("server returned 404 for device_id d1: no such"));
}

#[test]
fn failures_of_sessions_and_devices() {
    assert_eq!(session(Failure::AuthenticationFailed), "authentication failed after re-approval");
    assert!(session(Failure::NoSessionToken).contains("--silent won't approve one"));
    assert!(session(Failure::SessionTimedOut).contains("session timed out"));
    assert!(session(Failure::NoDevice).contains("kv device register"));
    assert_eq!(acquire(AcquireFailure::Rejected), "request was rejected");
    assert_eq!(acquire(AcquireFailure::NotFound), "request not found (expired?)");
    assert_eq!(
        propose(ProposeFailure::Expired),
        "device proposal expired without confirmation"
    );
    assert!(duration(DurationError::Unit).contains("24h or 7d"));
}

#[test]
fn a_text_that_is_no_number_says_why() {
    for text in [
        "", "+", "-", "x", "1x", "-x", "+-1", "--1", "1.5", " 1", "1 ", "ä", "12ä",
        "9223372036854775808", "-9223372036854775809", "+9223372036854775808",
        "9223372036854775807x", "9223372036854775808x", "-9223372036854775808x",
        "-9223372036854775809x", "99999999999999999999x", "922337203685477580x",
        "9999999999999999999x", "00000000000000000000000x", "00000000000000000000000000001x",
        "-99999999999999999999", "100000000000000000000000000000000000000",
    ] {
        let Err(e) = parse_signed(text) else { panic!("{text} is no number") };
        let Err(expected) = text.parse::<i64>() else { panic!("{text} is no number") };
        assert_eq!(int_fault(e), expected.to_string());
        assert_eq!(duration(DurationError::Number(e)), expected.to_string());
    }
    for text in ["0", "-0", "+7", "0000000000000000000000000001", "-9223372036854775808"] {
        assert_eq!(parse_signed(text).ok(), text.parse::<i64>().ok());
    }
}

#[test]
fn a_text_that_is_not_base64_says_why() {
    for text in [
        "?", "a", "aG", "aGk", "aGl=", "aGk=a", "=", "==", "====", "aGk=\n", "not base64!",
        "YWJjZGVmZ2hpamtsbW5vcHFyc3R1dnd4eXo-", "YWJjZGVmZ2hpamtsbW5vcHFyc3R1dnd4eXo=x", "ü",
        "aGkka", "aGk=aGk=",
    ] {
        let Err(e) = base64_decode(text) else { panic!("{text} is not base64") };
        let Err(expected) = STANDARD.decode(text) else { panic!("{text} is not base64") };
        assert_eq!(base64_fault(e), expected.to_string());
    }
}

#[test]
fn bytes_that_are_not_utf8_say_why() {
    for bytes in [
        vec![0xff], vec![0xc3], vec![97, 0xe2, 0x82], vec![97, 98, 0xff, 99],
        vec![0xe2, 0x82, 97], vec![0xf0, 0x9f, 0x98, 97], vec![0xed, 0xa0, 0x80], vec![0xc0, 0x80],
        vec![0xf5, 0x80, 0x80, 0x80], vec![0x80],
    ] {
        let Err(e) = text_strict(bytes.clone()) else { panic!("this is not UTF-8") };
        let Err(expected) = String::from_utf8(bytes) else { panic!("this is not UTF-8") };
        assert_eq!(utf8_fault(e), expected.to_string());
    }
}

#[test]
fn failures_of_envelopes() {
    assert_eq!(
        decrypt(DecryptError::DekDecryption),
        "DEK decryption failed — wrong device key?"
    );
    assert_eq!(
        stored_key(DecryptError::PrivateKeyLength),
        "device.key has wrong length — delete it and re-register"
    );
    let e = Base64Error::InvalidByte(3, 32);
    assert_eq!(
        stored_key(DecryptError::PrivateKeyEncoding(e)),
        "device.key is not valid base64 — delete it and re-register: Invalid symbol 32, offset 3."
    );
    assert_eq!(
        decrypt(DecryptError::AadEncoding(e)),
        "invalid aad encoding: Invalid symbol 32, offset 3."
    );
    assert_eq!(
        stored_key(DecryptError::NonceEncoding(Base64Error::InvalidPadding)),
        "invalid nonce encoding: Invalid padding"
    );
    let e = EnvelopeError::NotUtf8(Utf8Error::Invalid(2, 1));
    assert_eq!(
        envelope(e, ""),
        "decrypted envelope is not valid UTF-8: invalid utf-8 sequence of 1 bytes from index 2"
    );
    assert_eq!(
        management_key(e),
        "management key plaintext was not valid UTF-8: invalid utf-8 sequence of 1 bytes from \
         index 2"
    );
    assert_eq!(
        management_key(EnvelopeError::Decrypt(DecryptError::KeyDerivation)),
        "HKDF expand failed"
    );
    assert_eq!(
        envelope(EnvelopeError::KeyType, "p256"),
        "envelope was wrapped for key type 'p256', but this CLI's device key is x25519 — cannot \
         decrypt"
    );
    assert_eq!(
        envelope(EnvelopeError::Decrypt(DecryptError::BodyDecryption), ""),
        "body decryption failed"
    );
    assert_eq!(encrypt(EncryptError::KeyType(2)), "no x25519 key on selected device 2");
    assert_eq!(encrypt(EncryptError::TooLong), "value is too long to encrypt");
}

#[test]
fn failures_of_reads_and_choices() {
    assert_eq!(get(GetFailure::LinkUsed), "link expired or already used");
    assert_eq!(get(GetFailure::UnexpectedStatus(418)), "unexpected status 418");
    assert_eq!(get(GetFailure::Refused("forbidden".to_string())), "forbidden");
    assert_eq!(
        get(GetFailure::Server(Reply { status: 404, body: "no".to_string() })),
        "server returned 404 Not Found: no"
    );
    assert_eq!(
        get(GetFailure::UnexpectedResponse("{}".to_string())),
        "unexpected response: {}"
    );
    assert_eq!(select(SelectError::Nothing), "no selection made");
    assert_eq!(
        select(SelectError::OutOfRange(7)),
        "fzf returned out-of-range selection index 7"
    );
    assert_eq!(
        not_revealed(RevealError::Aborted, "x"),
        "aborted: the raw secret was not printed"
    );
    let text = not_revealed(RevealError::Refused, "value of 'K'");
    assert!(text.starts_with("refusing to print a raw secret (value of 'K') to a non-interactive"));
}

#[test]
fn failures_of_plans() {
    let critical = explain(Plan::Rotate, Task::CreateNew, PlanFailure::NoActiveKey);
    assert!(critical.is_some_and(|t| t.starts_with("CRITICAL: ")));
    assert_eq!(
        explain(Plan::Rotate, Task::RevokeOld, PlanFailure::NothingChanged),
        Some("failed to delete old key on provider — aborting rotation, nothing was changed")
    );
    assert_eq!(
        explain(Plan::Revoke, Task::DeleteRecord, PlanFailure::RecordLeft),
        Some("revoked on provider but failed to delete local record")
    );
    assert_eq!(explain(Plan::Revoke, Task::RevokeOld, PlanFailure::NothingChanged), None);
    assert_eq!(explain(Plan::Create, Task::CreateNew, PlanFailure::NothingChanged), None);
    assert_eq!(explain(Plan::Create, Task::SetReset, PlanFailure::ResetNotSet), None);
    assert_eq!(explain(Plan::Rotate, Task::SetReset, PlanFailure::ResetNotSet), critical);
    assert_eq!(explain(Plan::Rotate, Task::Store, PlanFailure::NotStored), None);
    assert!(explain(Plan::Republish, Task::SetReset, PlanFailure::ResetNotSet).is_some());
    assert_eq!(
        limit_reset("hourly"),
        "invalid limit-reset 'hourly': expected daily, weekly, or monthly"
    );
    assert_eq!(unsupported_provider("x"), "unsupported management key provider: x");
}
