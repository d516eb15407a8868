//! What the operator is told of a failure.

use vstd::prelude::*;
use crate::client::{Failure, Reply};
use crate::commands::device::ProposeFailure;
use crate::commands::kv::GetFailure;
use crate::commands::session_request::DurationError;
use crate::crypto::{DecryptError, EncryptError};
use crate::encoding::{Base64Error, Utf8Error};
use crate::fzf::SelectError;
use crate::management_keys::plan::{Plan, PlanFailure, Task};
use crate::secret_display::RevealError;
use crate::session::{AcquireFailure, EnvelopeError};
use crate::text::{decimal, decimal_text, join2, IntError};

verus! {

// ── Replies ─────────────────────────────────────────────────────────────────
/// A status of the protocol with the words that go with it; `None` if there is no such
/// status.
pub uninterp spec fn status_words(code: u16) -> Option<Seq<char>>;

/// `StatusCode::from_u16` of `reqwest`, and its `Display`: there is a status for every
/// number of three digits, and it is written as the number, a space and some words.
#[verifier::external_body]
fn status_display(code: u16) -> (out: Option<String>)
    ensures
        match out {
            Some(s) => status_words(code) == Some(s@) && (decimal(code as nat) + " "@).is_prefix_of(
                s@,
            ),
            None => status_words(code) is None,
        },
        out is Some <==> 100 <= code <= 999,
{
    match reqwest::StatusCode::from_u16(code) {
        Ok(status) => Some(status.to_string()),
        Err(_) => None,
    }
}

/// A status as it is written in a message: with its words, if it has any.
pub open spec fn status_text(code: u16, words: Option<Seq<char>>) -> Seq<char> {
    match words {
        Some(w) => w,
        None => decimal(code as nat),
    }
}

/// A status as it is written in a message.
pub fn status(code: u16) -> (out: String)
    ensures
        out@ == status_text(code, status_words(code)),
        100 <= code <= 999 ==> (decimal(code as nat) + " "@).is_prefix_of(out@),
{
    match status_display(code) {
        Some(s) => s,
        None => decimal_text(code as u64),
    }
}

/// What is said of a reply that is no success, given how its status is written.
pub fn refused(who: &str, status_text: &str, body: &str) -> (out: String)
    ensures
        out@ == who@ + " returned "@ + status_text@ + ": "@ + body@,
{
    let mut out = join2(who, " returned ");
    out.append(status_text);
    out.append(": ");
    out.append(body);
    out
}

/// What is said of a reply of the server that is no success.
pub fn server(reply: &Reply) -> (out: String)
    ensures
        out@ == "server"@ + " returned "@ + status_text(reply.status, status_words(reply.status))
            + ": "@ + reply.body@,
{
    refused("server", &status(reply.status), &reply.body)
}

/// What is said of a reply of a provider that is no success.
pub fn provider(name: &str, reply: &Reply) -> (out: String)
    ensures
        out@ == name@ + " returned "@ + status_text(reply.status, status_words(reply.status))
            + ": "@ + reply.body@,
{
    refused(name, &status(reply.status), &reply.body)
}

/// What is said where the server does not know the device that a session is asked for.
pub fn unknown_device(device_id: &str) -> (out: String)
    ensures
        out@ == "server returned 404 for device_id "@ + device_id@
            + ": no such registered device. Enrol this CLI's device key first (see `kv device register`), then `kv device set-id <device-id>`."@,
{
    let mut out = join2("server returned 404 for device_id ", device_id);
    out.append(
        ": no such registered device. Enrol this CLI's device key first (see `kv device register`), then `kv device set-id <device-id>`.",
    );
    out
}

// ── Failures ────────────────────────────────────────────────────────────────
/// What is said of a session that could not be used or asked for.
pub fn session(failure: Failure) -> (out: &'static str)
    ensures
        out@ == match failure {
            Failure::NoSessionToken =>
                "no session token configured — run `kv session request` (--silent won't approve one)"@,
            Failure::SessionTimedOut =>
                "session timed out — run `kv session request` to approve a new session (--silent won't)"@,
            Failure::AuthenticationFailed => "authentication failed after re-approval"@,
            Failure::NoDevice =>
                "no device registered — run `kv device register <name>`, enrol its public key via the web admin panel or Android app (WebAuthn-gated), then `kv device set-id <device-id>`, before requesting a session"@,
        },
{
    match failure {
        Failure::NoSessionToken =>
            "no session token configured — run `kv session request` (--silent won't approve one)",
        Failure::SessionTimedOut =>
            "session timed out — run `kv session request` to approve a new session (--silent won't)",
        Failure::AuthenticationFailed => "authentication failed after re-approval",
        Failure::NoDevice =>
            "no device registered — run `kv device register <name>`, enrol its public key via the web admin panel or Android app (WebAuthn-gated), then `kv device set-id <device-id>`, before requesting a session",
    }
}

/// What is said of a wait for a session that ended without one.
pub fn acquire(failure: AcquireFailure) -> (out: &'static str)
    ensures
        out@ == match failure {
            AcquireFailure::NotFound => "request not found (expired?)"@,
            AcquireFailure::NoEnvelope => "server approved but returned no envelope"@,
            AcquireFailure::Delivered =>
                "session token was already delivered (the one-time envelope is consumed) — request a new session"@,
            AcquireFailure::Rejected => "request was rejected"@,
            AcquireFailure::Expired => "request expired without approval"@,
        },
{
    match failure {
        AcquireFailure::NotFound => "request not found (expired?)",
        AcquireFailure::NoEnvelope => "server approved but returned no envelope",
        AcquireFailure::Delivered =>
            "session token was already delivered (the one-time envelope is consumed) — request a new session",
        AcquireFailure::Rejected => "request was rejected",
        AcquireFailure::Expired => "request expired without approval",
    }
}

/// What is said of a text that is not base64.
pub open spec fn base64_words(e: Base64Error) -> Seq<char> {
    match e {
        Base64Error::InvalidByte(i, b) => "Invalid symbol "@ + decimal(b as nat) + ", offset "@
            + decimal(i as nat) + "."@,
        Base64Error::InvalidLength(n) => "Invalid input length: "@ + decimal(n as nat),
        Base64Error::InvalidLastSymbol(i, b) => "Invalid last symbol "@ + decimal(b as nat)
            + ", offset "@ + decimal(i as nat) + "."@,
        Base64Error::InvalidPadding => "Invalid padding"@,
    }
}

/// What is said of a text that is not base64.
pub fn base64_fault(e: Base64Error) -> (out: String)
    ensures
        out@ == base64_words(e),
{
    match e {
        Base64Error::InvalidByte(i, b) => symbol_fault("Invalid symbol ", i, b),
        Base64Error::InvalidLength(n) => join2("Invalid input length: ", &decimal_text(n as u64)),
        Base64Error::InvalidLastSymbol(i, b) => symbol_fault("Invalid last symbol ", i, b),
        Base64Error::InvalidPadding => "Invalid padding".to_owned(),
    }
}

fn symbol_fault(what: &str, i: usize, b: u8) -> (out: String)
    ensures
        out@ == what@ + decimal(b as nat) + ", offset "@ + decimal(i as nat) + "."@,
{
    let mut out = join2(what, &decimal_text(b as u64));
    out.append(", offset ");
    out.append(&decimal_text(i as u64));
    out.append(".");
    out
}

/// What is said of bytes that are not UTF-8.
pub open spec fn utf8_words(e: Utf8Error) -> Seq<char> {
    match e {
        Utf8Error::Invalid(at, len) => "invalid utf-8 sequence of "@ + decimal(len as nat)
            + " bytes from index "@ + decimal(at as nat),
        Utf8Error::Incomplete(at) => "incomplete utf-8 byte sequence from index "@ + decimal(
            at as nat,
        ),
    }
}

/// What is said of bytes that are not UTF-8.
pub fn utf8_fault(e: Utf8Error) -> (out: String)
    ensures
        out@ == utf8_words(e),
{
    match e {
        Utf8Error::Invalid(at, len) => {
            let mut out = join2("invalid utf-8 sequence of ", &decimal_text(len as u64));
            out.append(" bytes from index ");
            out.append(&decimal_text(at as u64));
            out
        },
        Utf8Error::Incomplete(at) => join2(
            "incomplete utf-8 byte sequence from index ",
            &decimal_text(at as u64),
        ),
    }
}

/// A message, and behind it the reason.
pub open spec fn because(message: Seq<char>, reason: Seq<char>) -> Seq<char> {
    message + ": "@ + reason
}

fn with_reason(message: &str, reason: &str) -> (out: String)
    ensures
        out@ == because(message@, reason@),
{
    let mut out = join2(message, ": ");
    out.append(reason);
    out
}

/// What is said of an envelope that does not open.
pub open spec fn decrypt_text(e: DecryptError) -> Seq<char> {
    match e {
        DecryptError::PrivateKeyEncoding(b) => because(
            "invalid private key encoding"@,
            base64_words(b),
        ),
        DecryptError::PrivateKeyLength => "device key must be 32 bytes"@,
        DecryptError::EphemeralPubEncoding(b) => because(
            "invalid ephemeral_pub encoding"@,
            base64_words(b),
        ),
        DecryptError::EphemeralPubLength => "ephemeral_pub must be 32 bytes"@,
        DecryptError::KeyDerivation => "HKDF expand failed"@,
        DecryptError::DekNonceEncoding(b) => because(
            "invalid dek_nonce encoding"@,
            base64_words(b),
        ),
        DecryptError::EncryptedDekEncoding(b) => because(
            "invalid encrypted_dek encoding"@,
            base64_words(b),
        ),
        DecryptError::DekDecryption => "DEK decryption failed — wrong device key?"@,
        DecryptError::NonceEncoding(b) => because(
            "invalid nonce encoding"@,
            base64_words(b),
        ),
        DecryptError::CiphertextEncoding(b) => because(
            "invalid ciphertext encoding"@,
            base64_words(b),
        ),
        DecryptError::AadEncoding(b) => because(
            "invalid aad encoding"@,
            base64_words(b),
        ),
        DecryptError::BodyDecryption => "body decryption failed"@,
    }
}

/// What is said of an envelope that does not open.
pub fn decrypt(e: DecryptError) -> (out: String)
    ensures
        out@ == decrypt_text(e),
{
    match e {
        DecryptError::PrivateKeyEncoding(b) => with_reason(
            "invalid private key encoding",
            &base64_fault(b),
        ),
        DecryptError::PrivateKeyLength => "device key must be 32 bytes".to_owned(),
        DecryptError::EphemeralPubEncoding(b) => with_reason(
            "invalid ephemeral_pub encoding",
            &base64_fault(b),
        ),
        DecryptError::EphemeralPubLength => "ephemeral_pub must be 32 bytes".to_owned(),
        DecryptError::KeyDerivation => "HKDF expand failed".to_owned(),
        DecryptError::DekNonceEncoding(b) => with_reason(
            "invalid dek_nonce encoding",
            &base64_fault(b),
        ),
        DecryptError::EncryptedDekEncoding(b) => with_reason(
            "invalid encrypted_dek encoding",
            &base64_fault(b),
        ),
        DecryptError::DekDecryption => "DEK decryption failed — wrong device key?".to_owned(),
        DecryptError::NonceEncoding(b) => with_reason(
            "invalid nonce encoding",
            &base64_fault(b),
        ),
        DecryptError::CiphertextEncoding(b) => with_reason(
            "invalid ciphertext encoding",
            &base64_fault(b),
        ),
        DecryptError::AadEncoding(b) => with_reason(
            "invalid aad encoding",
            &base64_fault(b),
        ),
        DecryptError::BodyDecryption => "body decryption failed".to_owned(),
    }
}

/// What is said of a proposal that failed.
pub fn propose(failure: ProposeFailure) -> (out: &'static str)
    ensures
        out@ == match failure {
            ProposeFailure::NoDeviceId =>
                "server confirmed the proposal but returned no device_id"@,
            ProposeFailure::Rejected => "device proposal was rejected by the admin"@,
            ProposeFailure::Expired => "device proposal expired without confirmation"@,
        },
{
    match failure {
        ProposeFailure::NoDeviceId => "server confirmed the proposal but returned no device_id",
        ProposeFailure::Rejected => "device proposal was rejected by the admin",
        ProposeFailure::Expired => "device proposal expired without confirmation",
    }
}

/// What is said of a text that is no number.
pub open spec fn int_words(e: IntError) -> Seq<char> {
    match e {
        IntError::Empty => "cannot parse integer from empty string"@,
        IntError::InvalidDigit => "invalid digit found in string"@,
        IntError::TooLarge => "number too large to fit in target type"@,
        IntError::TooSmall => "number too small to fit in target type"@,
    }
}

/// What is said of a text that is no number.
pub fn int_fault(e: IntError) -> (out: &'static str)
    ensures
        out@ == int_words(e),
{
    match e {
        IntError::Empty => "cannot parse integer from empty string",
        IntError::InvalidDigit => "invalid digit found in string",
        IntError::TooLarge => "number too large to fit in target type",
        IntError::TooSmall => "number too small to fit in target type",
    }
}

/// What is said of a duration that is none.
pub fn duration(e: DurationError) -> (out: &'static str)
    ensures
        out@ == match e {
            DurationError::Unit => "duration must be like 24h or 7d (e.g. 7d, 30d, 90d, 365d)"@,
            DurationError::Number(n) => int_words(n),
            DurationError::OutOfRange => "duration is out of range"@,
        },
{
    match e {
        DurationError::Unit => "duration must be like 24h or 7d (e.g. 7d, 30d, 90d, 365d)",
        DurationError::Number(n) => int_fault(n),
        DurationError::OutOfRange => "duration is out of range",
    }
}

/// What is said of a stored device key that cannot be read.
pub fn stored_key(e: DecryptError) -> (out: String)
    ensures
        out@ == match e {
            DecryptError::PrivateKeyEncoding(b) => because(
                "device.key is not valid base64 — delete it and re-register"@,
                base64_words(b),
            ),
            DecryptError::PrivateKeyLength =>
                "device.key has wrong length — delete it and re-register"@,
            _ => decrypt_text(e),
        },
{
    match e {
        DecryptError::PrivateKeyEncoding(b) => with_reason(
            "device.key is not valid base64 — delete it and re-register",
            &base64_fault(b),
        ),
        DecryptError::PrivateKeyLength =>
            "device.key has wrong length — delete it and re-register".to_owned(),
        _ => decrypt(e),
    }
}

/// What is said of an envelope for a key of type `key_type` that gives no text.
pub open spec fn envelope_text(e: EnvelopeError, key_type: Seq<char>) -> Seq<char> {
    match e {
        EnvelopeError::KeyType => "envelope was wrapped for key type '"@ + key_type
            + "', but this CLI's device key is x25519 — cannot decrypt"@,
        EnvelopeError::Malformed =>
            "the server sent an envelope with a key or a nonce of the wrong length"@,
        EnvelopeError::Decrypt(d) => decrypt_text(d),
        EnvelopeError::NotUtf8(u) => because(
            "decrypted envelope is not valid UTF-8"@,
            utf8_words(u),
        ),
    }
}

/// What is said of an envelope for a key of type `key_type` that gives no text.
pub fn envelope(e: EnvelopeError, key_type: &str) -> (out: String)
    ensures
        out@ == envelope_text(e, key_type@),
{
    match e {
        EnvelopeError::KeyType => {
            let mut out = join2("envelope was wrapped for key type '", key_type);
            out.append("', but this CLI's device key is x25519 — cannot decrypt");
            out
        },
        EnvelopeError::Malformed =>
            "the server sent an envelope with a key or a nonce of the wrong length".to_owned(),
        EnvelopeError::Decrypt(d) => decrypt(d),
        EnvelopeError::NotUtf8(u) => with_reason(
            "decrypted envelope is not valid UTF-8",
            &utf8_fault(u),
        ),
    }
}

/// What is said of an envelope that gives no management key.
pub fn management_key(e: EnvelopeError) -> (out: String)
    ensures
        out@ == match e {
            EnvelopeError::NotUtf8(u) => because(
                "management key plaintext was not valid UTF-8"@,
                utf8_words(u),
            ),
            _ => envelope_text(e, ""@),
        },
{
    match e {
        EnvelopeError::NotUtf8(u) => with_reason(
            "management key plaintext was not valid UTF-8",
            &utf8_fault(u),
        ),
        _ => envelope(e, ""),
    }
}

/// What is said of a value that could not be encrypted. Devices are counted from zero.
pub open spec fn encrypt_text(e: EncryptError) -> Seq<char> {
    match e {
        EncryptError::TooLong => "value is too long to encrypt"@,
        EncryptError::KeyType(i) => "no x25519 key on selected device "@ + decimal(i as nat),
        EncryptError::PublicKeyEncoding(i) => "invalid public key encoding on selected device "@
            + decimal(i as nat),
        EncryptError::PublicKeyLength(i) => "public key must be 32 bytes on selected device "@
            + decimal(i as nat),
    }
}

/// What is said of a value that could not be encrypted.
pub fn encrypt(e: EncryptError) -> (out: String)
    ensures
        out@ == encrypt_text(e),
{
    match e {
        EncryptError::TooLong => "value is too long to encrypt".to_owned(),
        EncryptError::KeyType(i) => join2(
            "no x25519 key on selected device ",
            &decimal_text(i as u64),
        ),
        EncryptError::PublicKeyEncoding(i) => join2(
            "invalid public key encoding on selected device ",
            &decimal_text(i as u64),
        ),
        EncryptError::PublicKeyLength(i) => join2(
            "public key must be 32 bytes on selected device ",
            &decimal_text(i as u64),
        ),
    }
}

/// What is said of a value that could not be read.
pub open spec fn get_text(failure: GetFailure) -> Seq<char> {
    match failure {
        GetFailure::ApiKeyInvalid =>
            "API key expired or invalid (run `kv add-api-token` to update it)"@,
        GetFailure::ApiKeyScope =>
            "API key has insufficient scope (--silent prevents session token fallback)"@,
        GetFailure::LinkUsed => "link expired or already used"@,
        GetFailure::UnexpectedStatus(s) => "unexpected status "@ + decimal(s as nat),
        GetFailure::Refused(e) => e@,
        GetFailure::Server(reply) => "server"@ + " returned "@ + status_text(
            reply.status,
            status_words(reply.status),
        ) + ": "@ + reply.body@,
        GetFailure::UnexpectedResponse(body) => "unexpected response: "@ + body@,
        GetFailure::Decrypt(e) => decrypt_text(e),
    }
}

/// What is said of a value that could not be read.
pub fn get(failure: GetFailure) -> (out: String)
    ensures
        out@ == get_text(failure),
{
    match failure {
        GetFailure::ApiKeyInvalid =>
            "API key expired or invalid (run `kv add-api-token` to update it)".to_owned(),
        GetFailure::ApiKeyScope =>
            "API key has insufficient scope (--silent prevents session token fallback)".to_owned(),
        GetFailure::LinkUsed => "link expired or already used".to_owned(),
        GetFailure::UnexpectedStatus(s) => join2("unexpected status ", &decimal_text(s as u64)),
        GetFailure::Refused(e) => e,
        GetFailure::Server(reply) => server(&reply),
        GetFailure::UnexpectedResponse(body) => join2("unexpected response: ", &body),
        GetFailure::Decrypt(e) => decrypt(e),
    }
}

/// What is said where nothing was chosen.
pub fn select(e: SelectError) -> (out: String)
    ensures
        out@ == match e {
            SelectError::Nothing => "no selection made"@,
            SelectError::OutOfRange(i) => "fzf returned out-of-range selection index "@ + decimal(
                i as nat,
            ),
        },
{
    match e {
        SelectError::Nothing => "no selection made".to_owned(),
        SelectError::OutOfRange(i) => join2(
            "fzf returned out-of-range selection index ",
            &decimal_text(i as u64),
        ),
    }
}

/// What is said of a secret, named `what`, that was not printed.
pub fn not_revealed(e: RevealError, what: &str) -> (out: String)
    ensures
        out@ == match e {
            RevealError::Refused => "refusing to print a raw secret ("@ + what@
                + ") to a non-interactive session: stdin and stdout must both be an interactive terminal so a human can confirm the reveal. There is no flag to override this. For a safe, non-secret fingerprint that works non-interactively, re-run with --show-3-last-digits-on-agent-true or --return-md5-on-agent-true."@,
            RevealError::Aborted => "aborted: the raw secret was not printed"@,
        },
{
    match e {
        RevealError::Refused => {
            let mut out = join2("refusing to print a raw secret (", what);
            out.append(
                ") to a non-interactive session: stdin and stdout must both be an interactive terminal so a human can confirm the reveal. There is no flag to override this. For a safe, non-secret fingerprint that works non-interactively, re-run with --show-3-last-digits-on-agent-true or --return-md5-on-agent-true.",
            );
            out
        },
        RevealError::Aborted => "aborted: the raw secret was not printed".to_owned(),
    }
}

/// What is said of a limit that cannot be reset as often as asked for.
pub fn limit_reset(value: &str) -> (out: String)
    ensures
        out@ == "invalid limit-reset '"@ + value@ + "': expected daily, weekly, or monthly"@,
{
    let mut out = join2("invalid limit-reset '", value);
    out.append("': expected daily, weekly, or monthly");
    out
}

/// What is said of a provider that is not known.
pub fn unsupported_provider(name: &str) -> (out: String)
    ensures
        out@ == "unsupported management key provider: "@ + name@,
{
    join2("unsupported management key provider: ", name)
}

// ── Plans ───────────────────────────────────────────────────────────────────
/// What is said of a plan that failed at a task, beside the error itself; `None` if the
/// error says it all.
pub open spec fn plan_text(plan: Plan, task: Task, failure: PlanFailure) -> Option<Seq<char>> {
    if task == Task::FetchInfo {
        Some(
            "failed to fetch current key info from provider — aborting rotation, nothing was changed"@,
        )
    } else if plan == Plan::Rotate && task == Task::RevokeOld {
        Some("failed to delete old key on provider — aborting rotation, nothing was changed"@)
    } else if plan == Plan::Rotate && (task == Task::CreateNew || task == Task::SetReset) {
        Some(
            "CRITICAL: the old key was already deleted on the provider, but creating its replacement failed — you now have NO active key for this identity. Retry manually."@,
        )
    } else if plan == Plan::Create {
        None
    } else {
        match failure {
            PlanFailure::RecordLeft => Some(
                "revoked on provider but failed to delete local record"@,
            ),
            PlanFailure::ResetNotSet => Some(
                "the new key was created on the provider, but its limit reset could not be set — the new key was not stored"@,
            ),
            PlanFailure::NotPublished => Some(
                "the new key was created and stored but not published — the old key is still active"@,
            ),
            PlanFailure::OldKeyActive => Some(
                "the new key is published, but the old key could not be revoked"@,
            ),
            _ => None,
        }
    }
}

/// What is said of a plan that failed at a task, beside the error itself.
pub fn explain(plan: Plan, task: Task, failure: PlanFailure) -> (out: Option<&'static str>)
    ensures
        match out {
            Some(text) => plan_text(plan, task, failure) == Some(text@),
            None => plan_text(plan, task, failure) is None,
        },
{
    if task == Task::FetchInfo {
        return Some(
            "failed to fetch current key info from provider — aborting rotation, nothing was changed",
        );
    }
    if plan == Plan::Rotate && task == Task::RevokeOld {
        return Some(
            "failed to delete old key on provider — aborting rotation, nothing was changed",
        );
    }
    if plan == Plan::Rotate && (task == Task::CreateNew || task == Task::SetReset) {
        return Some(
            "CRITICAL: the old key was already deleted on the provider, but creating its replacement failed — you now have NO active key for this identity. Retry manually.",
        );
    }
    if plan == Plan::Create {
        return None;
    }
    match failure {
        PlanFailure::RecordLeft => Some("revoked on provider but failed to delete local record"),
        PlanFailure::ResetNotSet => Some(
            "the new key was created on the provider, but its limit reset could not be set — the new key was not stored",
        ),
        PlanFailure::NotPublished => Some(
            "the new key was created and stored but not published — the old key is still active",
        ),
        PlanFailure::OldKeyActive => Some(
            "the new key is published, but the old key could not be revoked",
        ),
        _ => None,
    }
}

// ── Laws ────────────────────────────────────────────────────────────────────
/// A reason is told whole: the message comes first, then a colon and a space, then the reason.
pub proof fn law_reason_is_told(message: Seq<char>, reason: Seq<char>)
    ensures
        because(message, reason) == message + seq![':', ' '] + reason,
        because(message, reason).take(message.len() as int) == message,
        because(message, reason).skip(message.len() as int + 2) == reason,
{
    reveal_strlit(": ");
    let all = because(message, reason);
    assert(all =~= message + seq![':', ' '] + reason);
    assert(all.take(message.len() as int) =~= message);
    assert(all.skip(message.len() as int + 2) =~= reason);
}

/// A status is written as its number, and where it has words, as these.
pub proof fn law_status_text(code: u16, words: Seq<char>)
    ensures
        status_text(code, Some(words)) == words,
        status_text(code, None) == decimal(code as nat),
{
}

/// A fault in base64 is told with the symbol first and its place last, and a length as the
/// number it is.
pub proof fn law_base64_words(i: usize, b: u8)
    ensures
        ("Invalid symbol "@ + decimal(b as nat) + ","@).is_prefix_of(
            base64_words(Base64Error::InvalidByte(i, b)),
        ),
        ("Invalid last symbol "@ + decimal(b as nat) + ","@).is_prefix_of(
            base64_words(Base64Error::InvalidLastSymbol(i, b)),
        ),
        (" offset "@ + decimal(i as nat) + "."@).is_suffix_of(
            base64_words(Base64Error::InvalidByte(i, b)),
        ),
        (" offset "@ + decimal(i as nat) + "."@).is_suffix_of(
            base64_words(Base64Error::InvalidLastSymbol(i, b)),
        ),
        (" "@ + decimal(i as nat)).is_suffix_of(base64_words(Base64Error::InvalidLength(i))),
{
    reveal_strlit(", offset ");
    reveal_strlit(" offset ");
    reveal_strlit(",");
    reveal_strlit(".");
    reveal_strlit(" ");
    reveal_strlit("Invalid input length: ");
    let at = decimal(i as nat);
    let one = "Invalid symbol "@ + decimal(b as nat);
    let last = "Invalid last symbol "@ + decimal(b as nat);
    let tail = " offset "@ + at + "."@;
    assert(", offset "@ =~= ","@ + " offset "@);
    assert(base64_words(Base64Error::InvalidByte(i, b)) =~= one + ","@ + tail);
    assert(base64_words(Base64Error::InvalidLastSymbol(i, b)) =~= last + ","@ + tail);
    assert((one + ","@ + tail).skip((one + ","@).len() as int) =~= tail);
    assert((last + ","@ + tail).skip((last + ","@).len() as int) =~= tail);
    let head = "Invalid input length:"@;
    reveal_strlit("Invalid input length:");
    assert("Invalid input length: "@ =~= head + " "@);
    assert(base64_words(Base64Error::InvalidLength(i)) =~= head + (" "@ + at));
}

/// Bytes that are no UTF-8 are told with the place where they go wrong at the end.
pub proof fn law_utf8_words(at: usize, len: usize)
    ensures
        (" index "@ + decimal(at as nat)).is_suffix_of(utf8_words(Utf8Error::Invalid(at, len))),
        (" index "@ + decimal(at as nat)).is_suffix_of(utf8_words(Utf8Error::Incomplete(at))),
        ("invalid utf-8 sequence of "@ + decimal(len as nat) + " bytes"@).is_prefix_of(
            utf8_words(Utf8Error::Invalid(at, len)),
        ),
        "incomplete utf-8 byte sequence"@.is_prefix_of(utf8_words(Utf8Error::Incomplete(at))),
{
    reveal_strlit(" index ");
    reveal_strlit(" bytes");
    reveal_strlit(" from");
    reveal_strlit(" bytes from index ");
    reveal_strlit("incomplete utf-8 byte sequence");
    reveal_strlit("incomplete utf-8 byte sequence from index ");
    let tail = " index "@ + decimal(at as nat);
    let head = "invalid utf-8 sequence of "@ + decimal(len as nat) + " bytes"@;
    assert(" bytes from index "@ =~= " bytes"@ + " from"@ + " index "@);
    assert("incomplete utf-8 byte sequence from index "@ =~= "incomplete utf-8 byte sequence"@
        + " from"@ + " index "@);
    assert(utf8_words(Utf8Error::Invalid(at, len)) =~= head + " from"@ + tail);
    assert(utf8_words(Utf8Error::Incomplete(at)) =~= "incomplete utf-8 byte sequence"@ + " from"@
        + tail);
}

/// What of an envelope is badly encoded is named, and how is told behind it.
pub proof fn law_badly_encoded_part_is_named(b: Base64Error)
    ensures
        decrypt_text(DecryptError::PrivateKeyEncoding(b)) == "invalid private key encoding"@ + seq![
            ':',
            ' ',
        ] + base64_words(b),
        decrypt_text(DecryptError::EphemeralPubEncoding(b)) == "invalid ephemeral_pub encoding"@
            + seq![':', ' '] + base64_words(b),
        decrypt_text(DecryptError::DekNonceEncoding(b)) == "invalid dek_nonce encoding"@ + seq![
            ':',
            ' ',
        ] + base64_words(b),
        decrypt_text(DecryptError::EncryptedDekEncoding(b)) == "invalid encrypted_dek encoding"@
            + seq![':', ' '] + base64_words(b),
        decrypt_text(DecryptError::NonceEncoding(b)) == "invalid nonce encoding"@ + seq![':', ' ']
            + base64_words(b),
        decrypt_text(DecryptError::CiphertextEncoding(b)) == "invalid ciphertext encoding"@ + seq![
            ':',
            ' ',
        ] + base64_words(b),
        decrypt_text(DecryptError::AadEncoding(b)) == "invalid aad encoding"@ + seq![':', ' ']
            + base64_words(b),
{
    reveal_strlit(": ");
    assert(": "@ =~= seq![':', ' ']);
}

proof fn lemma_decrypt_text(e: DecryptError)
    ensures
        decrypt_text(e).len() > 9,
        ({
            let text = decrypt_text(e);
            match e {
                DecryptError::PrivateKeyEncoding(_) => text[0] == 'i' && text[8] == 'p' && text[9] == 'r',
                DecryptError::PrivateKeyLength => text[0] == 'd' && text[8] == 'e' && text[9] == 'y',
                DecryptError::EphemeralPubEncoding(_) => text[0] == 'i' && text[8] == 'e' && text[9] == 'p',
                DecryptError::EphemeralPubLength => text[0] == 'e' && text[8] == 'l' && text[9] == '_',
                DecryptError::KeyDerivation => text[0] == 'H' && text[8] == 'a' && text[9] == 'n',
                DecryptError::DekNonceEncoding(_) => text[0] == 'i' && text[8] == 'd' && text[9] == 'e',
                DecryptError::EncryptedDekEncoding(_) => text[0] == 'i' && text[8] == 'e' && text[9] == 'n',
                DecryptError::DekDecryption => text[0] == 'D' && text[8] == 'y' && text[9] == 'p',
                DecryptError::NonceEncoding(_) => text[0] == 'i' && text[8] == 'n' && text[9] == 'o',
                DecryptError::CiphertextEncoding(_) => text[0] == 'i' && text[8] == 'c' && text[9] == 'i',
                DecryptError::AadEncoding(_) => text[0] == 'i' && text[8] == 'a' && text[9] == 'a',
                DecryptError::BodyDecryption => text[0] == 'b' && text[8] == 'r' && text[9] == 'y',
            }
        }),
{
    reveal_strlit("invalid private key encoding");
    reveal_strlit("device key must be 32 bytes");
    reveal_strlit("invalid ephemeral_pub encoding");
    reveal_strlit("ephemeral_pub must be 32 bytes");
    reveal_strlit("HKDF expand failed");
    reveal_strlit("invalid dek_nonce encoding");
    reveal_strlit("invalid encrypted_dek encoding");
    reveal_strlit("DEK decryption failed — wrong device key?");
    reveal_strlit("invalid nonce encoding");
    reveal_strlit("invalid ciphertext encoding");
    reveal_strlit("invalid aad encoding");
    reveal_strlit("body decryption failed");
}

/// What is said of an envelope that does not open tells which failure it was.
pub proof fn law_failures_are_told_apart(a: DecryptError, b: DecryptError)
    requires
        decrypt_text(a) == decrypt_text(b),
    ensures
        a is PrivateKeyEncoding <==> b is PrivateKeyEncoding,
        a is PrivateKeyLength <==> b is PrivateKeyLength,
        a is EphemeralPubEncoding <==> b is EphemeralPubEncoding,
        a is EphemeralPubLength <==> b is EphemeralPubLength,
        a is KeyDerivation <==> b is KeyDerivation,
        a is DekNonceEncoding <==> b is DekNonceEncoding,
        a is EncryptedDekEncoding <==> b is EncryptedDekEncoding,
        a is DekDecryption <==> b is DekDecryption,
        a is NonceEncoding <==> b is NonceEncoding,
        a is CiphertextEncoding <==> b is CiphertextEncoding,
        a is AadEncoding <==> b is AadEncoding,
        a is BodyDecryption <==> b is BodyDecryption,
{
    lemma_decrypt_text(a);
    lemma_decrypt_text(b);
}

/// What is said of a text that is no number tells what is wrong with it.
pub proof fn law_int_faults_are_told_apart(a: IntError, b: IntError)
    requires
        int_words(a) == int_words(b),
    ensures
        a == b,
{
    reveal_strlit("cannot parse integer from empty string");
    reveal_strlit("invalid digit found in string");
    reveal_strlit("number too large to fit in target type");
    reveal_strlit("number too small to fit in target type");
    assert(int_words(IntError::Empty)[0] == 'c');
    assert(int_words(IntError::InvalidDigit)[0] == 'i');
    assert(int_words(IntError::TooLarge)[0] == 'n' && int_words(IntError::TooLarge)[11] == 'l');
    assert(int_words(IntError::TooSmall)[0] == 'n' && int_words(IntError::TooSmall)[11] == 's');
}

/// What the server said of a value that it did not give is told as it said it: its own words for
/// a refusal, and the whole body of any other reply behind the status.
pub proof fn law_server_is_quoted(reply: Reply, said: String, code: u16)
    ensures
        get_text(GetFailure::Refused(said)) == said@,
        (": "@ + reply.body@).is_suffix_of(get_text(GetFailure::Server(reply))),
        ("server returned "@ + status_text(reply.status, status_words(reply.status))).is_prefix_of(
            get_text(GetFailure::Server(reply)),
        ),
        (": "@ + said@).is_suffix_of(get_text(GetFailure::UnexpectedResponse(said))),
        (" "@ + decimal(code as nat)).is_suffix_of(get_text(GetFailure::UnexpectedStatus(code))),
{
    reveal_strlit("server");
    reveal_strlit(" returned ");
    reveal_strlit("server returned ");
    reveal_strlit(": ");
    reveal_strlit(" ");
    reveal_strlit("unexpected response");
    reveal_strlit("unexpected response: ");
    reveal_strlit("unexpected status");
    reveal_strlit("unexpected status ");
    assert("server returned "@ =~= "server"@ + " returned "@);
    assert("unexpected response: "@ =~= "unexpected response"@ + ": "@);
    assert("unexpected status "@ =~= "unexpected status"@ + " "@);
    let head = "server returned "@ + status_text(reply.status, status_words(reply.status));
    assert(get_text(GetFailure::Server(reply)) =~= head + (": "@ + reply.body@));
    assert(get_text(GetFailure::UnexpectedResponse(said)) =~= "unexpected response"@ + (": "@
        + said@));
    assert(get_text(GetFailure::UnexpectedStatus(code)) =~= "unexpected status"@ + (" "@ + decimal(
        code as nat,
    )));
}

/// Where a value cannot be encrypted for a device, the number of the device ends the message.
pub proof fn law_device_is_told(i: usize)
    ensures
        (" device "@ + decimal(i as nat)).is_suffix_of(encrypt_text(EncryptError::KeyType(i))),
        (" device "@ + decimal(i as nat)).is_suffix_of(
            encrypt_text(EncryptError::PublicKeyEncoding(i)),
        ),
        (" device "@ + decimal(i as nat)).is_suffix_of(
            encrypt_text(EncryptError::PublicKeyLength(i)),
        ),
{
    reveal_strlit(" device ");
    reveal_strlit("no x25519 key on selected");
    reveal_strlit("no x25519 key on selected device ");
    reveal_strlit("invalid public key encoding on selected");
    reveal_strlit("invalid public key encoding on selected device ");
    reveal_strlit("public key must be 32 bytes on selected");
    reveal_strlit("public key must be 32 bytes on selected device ");
    let tail = " device "@ + decimal(i as nat);
    assert("no x25519 key on selected device "@ =~= "no x25519 key on selected"@ + " device "@);
    assert("invalid public key encoding on selected device "@
        =~= "invalid public key encoding on selected"@ + " device "@);
    assert("public key must be 32 bytes on selected device "@
        =~= "public key must be 32 bytes on selected"@ + " device "@);
    assert(encrypt_text(EncryptError::KeyType(i)) =~= "no x25519 key on selected"@ + tail);
    assert(encrypt_text(EncryptError::PublicKeyEncoding(i))
        =~= "invalid public key encoding on selected"@ + tail);
    assert(encrypt_text(EncryptError::PublicKeyLength(i))
        =~= "public key must be 32 bytes on selected"@ + tail);
}

/// The type of a key that an envelope was wrapped for is told between quotes, and why an envelope
/// does not open is told as it is told of any.
pub proof fn law_envelope_text(key_type: Seq<char>, d: DecryptError, u: Utf8Error)
    ensures
        ("envelope was wrapped for key type '"@ + key_type + "'"@).is_prefix_of(
            envelope_text(EnvelopeError::KeyType, key_type),
        ),
        envelope_text(EnvelopeError::Decrypt(d), key_type) == decrypt_text(d),
        (": "@ + utf8_words(u)).is_suffix_of(envelope_text(EnvelopeError::NotUtf8(u), key_type)),
{
    reveal_strlit("'");
    reveal_strlit(", but this CLI's device key is x25519 — cannot decrypt");
    reveal_strlit("', but this CLI's device key is x25519 — cannot decrypt");
    let rest = ", but this CLI's device key is x25519 — cannot decrypt"@;
    assert("', but this CLI's device key is x25519 — cannot decrypt"@ =~= "'"@ + rest);
    assert(envelope_text(EnvelopeError::KeyType, key_type) =~= "envelope was wrapped for key type '"@
        + key_type + "'"@ + rest);
    assert(envelope_text(EnvelopeError::NotUtf8(u), key_type)
        =~= "decrypted envelope is not valid UTF-8"@ + (": "@ + utf8_words(u)));
}

/// That no key is left is said exactly where a rotation has deleted the old key and has no new
/// one: where the new key is created or its limit is set. That nothing was changed is said where
/// the first requests of a rotation fail. A key that is created has nothing to add to its error.
pub proof fn law_plan_text(plan: Plan, task: Task, failure: PlanFailure)
    ensures
        (plan_text(plan, task, failure) matches Some(text) && "CRITICAL"@.is_prefix_of(text))
            <==> plan == Plan::Rotate && (task == Task::CreateNew || task == Task::SetReset),
        (plan_text(plan, task, failure) matches Some(text) && "nothing was changed"@.is_suffix_of(
            text,
        )) <==> task == Task::FetchInfo || (plan == Plan::Rotate && task == Task::RevokeOld),
        plan == Plan::Create && task != Task::FetchInfo ==> plan_text(plan, task, failure) is None,
        plan != Plan::Create && failure == PlanFailure::OldKeyActive ==> plan_text(
            plan,
            task,
            failure,
        ) is Some,
{
    reveal_strlit("CRITICAL");
    reveal_strlit("nothing was changed");
    reveal_strlit(
        "failed to fetch current key info from provider — aborting rotation, nothing was changed",
    );
    reveal_strlit(
        "failed to delete old key on provider — aborting rotation, nothing was changed",
    );
    reveal_strlit(
        "CRITICAL: the old key was already deleted on the provider, but creating its replacement failed — you now have NO active key for this identity. Retry manually.",
    );
    reveal_strlit("revoked on provider but failed to delete local record");
    reveal_strlit(
        "the new key was created on the provider, but its limit reset could not be set — the new key was not stored",
    );
    reveal_strlit(
        "the new key was created and stored but not published — the old key is still active",
    );
    reveal_strlit("the new key is published, but the old key could not be revoked");
    assert("CRITICAL"@[0] == 'C');
    assert("nothing was changed"@[18] == 'd' && "nothing was changed"@[17] == 'e'
        && "nothing was changed"@[16] == 'g');
    if let Some(text) = plan_text(plan, task, failure) {
        if plan == Plan::Rotate && (task == Task::CreateNew || task == Task::SetReset) {
            assert("CRITICAL"@ =~= text.take(8));
        }
        if task == Task::FetchInfo || (plan == Plan::Rotate && task == Task::RevokeOld) {
            assert("nothing was changed"@ =~= text.skip(text.len() - 19));
        }
    }
}

/// A plan that fails anywhere but at the requests that a rotation begins with, and that is not to
/// create a key, is explained by what the failure left: each such sentence is said of one failure
/// alone.
pub proof fn law_what_a_plan_left(plan: Plan, task: Task, failure: PlanFailure)
    requires
        plan != Plan::Create,
        task != Task::FetchInfo,
        plan == Plan::Rotate ==> task != Task::RevokeOld && task != Task::CreateNew && task
            != Task::SetReset,
    ensures
        failure is RecordLeft <==> plan_text(plan, task, failure) == Some(
            "revoked on provider but failed to delete local record"@,
        ),
        failure is ResetNotSet <==> plan_text(plan, task, failure) == Some(
            "the new key was created on the provider, but its limit reset could not be set — the new key was not stored"@,
        ),
        failure is NotPublished <==> plan_text(plan, task, failure) == Some(
            "the new key was created and stored but not published — the old key is still active"@,
        ),
        failure is OldKeyActive <==> plan_text(plan, task, failure) == Some(
            "the new key is published, but the old key could not be revoked"@,
        ),
        failure is NothingChanged || failure is NoActiveKey || failure is NotStored
            || failure is NotRevealed <==> plan_text(plan, task, failure) is None,
{
    let record = "revoked on provider but failed to delete local record"@;
    let reset =
        "the new key was created on the provider, but its limit reset could not be set — the new key was not stored"@;
    let stored =
        "the new key was created and stored but not published — the old key is still active"@;
    let active = "the new key is published, but the old key could not be revoked"@;
    reveal_strlit("revoked on provider but failed to delete local record");
    reveal_strlit(
        "the new key was created on the provider, but its limit reset could not be set — the new key was not stored",
    );
    reveal_strlit(
        "the new key was created and stored but not published — the old key is still active",
    );
    reveal_strlit("the new key is published, but the old key could not be revoked");
    assert(record[0] == 'r' && reset[0] == 't' && stored[0] == 't' && active[0] == 't');
    assert(reset[12] == 'w' && stored[12] == 'w' && active[12] == 'i');
    assert(reset[24] == 'o' && stored[24] == 'a');
}

/// Of a link that was used, and of an API key that is invalid or whose scope is too small, there
/// is one sentence each, which is said of nothing else; only the server's own words for a refusal
/// can be any.
pub proof fn law_sentences_of_a_read(failure: GetFailure)
    requires
        !(failure is Refused),
    ensures
        failure is LinkUsed <==> get_text(failure) == "link expired or already used"@,
        failure is ApiKeyInvalid <==> get_text(failure)
            == "API key expired or invalid (run `kv add-api-token` to update it)"@,
        failure is ApiKeyScope <==> get_text(failure)
            == "API key has insufficient scope (--silent prevents session token fallback)"@,
{
    reveal_strlit("link expired or already used");
    reveal_strlit("API key expired or invalid (run `kv add-api-token` to update it)");
    reveal_strlit("API key has insufficient scope (--silent prevents session token fallback)");
    reveal_strlit("unexpected status ");
    reveal_strlit("unexpected response: ");
    reveal_strlit("server");
    let text = get_text(failure);
    let link = "link expired or already used"@;
    let invalid = "API key expired or invalid (run `kv add-api-token` to update it)"@;
    let scope = "API key has insufficient scope (--silent prevents session token fallback)"@;
    assert(link[0] == 'l' && invalid[0] == 'A' && scope[0] == 'A');
    assert(invalid[8] == 'e' && scope[8] == 'h');
    match failure {
        GetFailure::Decrypt(e) => {
            lemma_decrypt_text(e);
        },
        GetFailure::UnexpectedStatus(_) | GetFailure::UnexpectedResponse(_) => {
            assert(text[0] == 'u');
        },
        GetFailure::Server(_) => {
            assert(text[0] == 's');
        },
        _ => {},
    }
}

/// A value that is too long, and base64 whose padding is wrong, have one sentence each, which is
/// said of nothing else.
pub proof fn law_sentences_of_coding(e: EncryptError, b: Base64Error)
    ensures
        e is TooLong <==> encrypt_text(e) == "value is too long to encrypt"@,
        b is InvalidPadding <==> base64_words(b) == "Invalid padding"@,
{
    reveal_strlit("value is too long to encrypt");
    reveal_strlit("no x25519 key on selected device ");
    reveal_strlit("invalid public key encoding on selected device ");
    reveal_strlit("public key must be 32 bytes on selected device ");
    reveal_strlit("Invalid padding");
    reveal_strlit("Invalid symbol ");
    reveal_strlit("Invalid last symbol ");
    reveal_strlit("Invalid input length: ");
    assert("value is too long to encrypt"@[0] == 'v');
    assert("Invalid padding"@[8] == 'p');
    match e {
        EncryptError::KeyType(_) => {
            assert(encrypt_text(e)[0] == 'n');
        },
        EncryptError::PublicKeyEncoding(_) => {
            assert(encrypt_text(e)[0] == 'i');
        },
        EncryptError::PublicKeyLength(_) => {
            assert(encrypt_text(e)[0] == 'p');
        },
        EncryptError::TooLong => {},
    }
    match b {
        Base64Error::InvalidByte(_, _) => {
            assert(base64_words(b)[8] == 's');
        },
        Base64Error::InvalidLength(_) => {
            assert(base64_words(b)[8] == 'i');
        },
        Base64Error::InvalidLastSymbol(_, _) => {
            assert(base64_words(b)[8] == 'l');
        },
        Base64Error::InvalidPadding => {},
    }
}

/// Of an envelope with a key or a nonce of the wrong length one sentence is said, and of no other
/// failure; and what decrypts to no text is told by a message of its own.
pub proof fn law_sentences_of_an_envelope(e: EnvelopeError, key_type: Seq<char>)
    ensures
        e is Malformed <==> envelope_text(e, key_type)
            == "the server sent an envelope with a key or a nonce of the wrong length"@,
        e matches EnvelopeError::NotUtf8(u) ==> envelope_text(e, key_type)
            == "decrypted envelope is not valid UTF-8"@ + seq![':', ' '] + utf8_words(u),
{
    reveal_strlit("the server sent an envelope with a key or a nonce of the wrong length");
    reveal_strlit("envelope was wrapped for key type '");
    reveal_strlit("decrypted envelope is not valid UTF-8");
    reveal_strlit(": ");
    assert(": "@ =~= seq![':', ' ']);
    assert("the server sent an envelope with a key or a nonce of the wrong length"@[0] == 't');
    match e {
        EnvelopeError::Decrypt(d) => {
            lemma_decrypt_text(d);
        },
        EnvelopeError::KeyType => {
            assert(envelope_text(e, key_type)[0] == 'e');
        },
        EnvelopeError::NotUtf8(_) => {
            assert(envelope_text(e, key_type)[0] == 'd');
        },
        EnvelopeError::Malformed => {},
    }
}

} // verus!
