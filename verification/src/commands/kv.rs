//! Reading, writing and listing values.

use vstd::prelude::*;
use vstd::utf8::*;
use crate::cipher::x25519_public;
use crate::client::{is_success, succeeded, Call, Client, Reply, Save, Verb};
use crate::config::{setting, Config};
use crate::crypto::{
    decrypted, device_key, envelope_fits, open_device_kv, opens_for, BodyText, DecryptError,
    DevicePayload, EncryptError, WrapText,
};
use crate::encoding::{base64_bytes, text_lossy, utf8_lossy};
use crate::json::{json_text, json_text_member};
use crate::recipients::{
    encrypt_for_chosen, encryption_fails, is_encrypted_for, DeviceListEntry,
};
use crate::secret_display::{is_shown, show_secret, Gate, RevealError};
use crate::text::{
    chars_of, hexadecimal, hexadecimal_text, join2, same_text, starts_with, views,
};
use crate::urlencode::{encoded_octet, encoded_octets, percent_encoded};

verus! {

// ── Keys in paths ───────────────────────────────────────────────────────────
/// Whether Unicode counts `c` among the letters and numbers.
pub uninterp spec fn unicode_alphanumeric(c: char) -> bool;

/// `char::is_alphanumeric`: whether the character is a letter or a number of any
/// script. Of the ASCII characters these are the Latin letters and the digits.
pub assume_specification[ char::is_alphanumeric ](c: char) -> (r: bool)
    ensures
        r == unicode_alphanumeric(c),
        (c as u32) < 128 ==> r == ('0' <= c <= '9' || 'A' <= c <= 'Z' || 'a' <= c <= 'z'),
;

/// A character as it stands in a path: itself if it is a letter, a number or one of
/// `-_.~`, else a percent sign and its code point in two hexadecimal digits or more.
pub open spec fn path_char(c: char, alphanumeric: bool) -> Seq<char> {
    if alphanumeric || c == '-' || c == '_' || c == '.' || c == '~' {
        seq![c]
    } else if (c as u32) < 16 {
        "%0"@ + hexadecimal(c as nat)
    } else {
        "%"@ + hexadecimal(c as nat)
    }
}

/// A text as it stands in a path.
pub open spec fn path_text(s: Seq<char>) -> Seq<char>
    decreases s.len(),
{
    if s.len() == 0 {
        Seq::empty()
    } else {
        path_text(s.drop_last()) + path_char(s.last(), unicode_alphanumeric(s.last()))
    }
}

/// A character as it stands in a path, given whether it is a letter or a number.
pub fn escape(c: char, alphanumeric: bool) -> (out: String)
    ensures
        out@ == path_char(c, alphanumeric),
{
    if alphanumeric || c == '-' || c == '_' || c == '.' || c == '~' {
        let mut out = String::new();
        out.push(c);
        assert(out@ =~= seq![c]);
        out
    } else {
        let code: u32 = c as u32;
        if code < 16 {
            join2("%0", &hexadecimal_text(code))
        } else {
            join2("%", &hexadecimal_text(code))
        }
    }
}

proof fn lemma_ascii_char(c: char)
    requires
        (c as u32) < 128,
    ensures
        path_char(c, '0' <= c <= '9' || 'A' <= c <= 'Z' || 'a' <= c <= 'z') == encoded_octet(
            c as u8,
        ),
{
    reveal_with_fuel(hexadecimal, 2);
    reveal_strlit("%0");
    reveal_strlit("%");
    let alphanumeric = '0' <= c <= '9' || 'A' <= c <= 'Z' || 'a' <= c <= 'z';
    assert(path_char(c, alphanumeric) =~= encoded_octet(c as u8));
}

/// A key as it stands in a path. A key of ASCII characters is percent-encoded as any
/// other text of the client is.
pub fn urlencoding(s: &str) -> (out: String)
    ensures
        out@ == path_text(s@),
        is_ascii_chars(s@) ==> out@ == percent_encoded(s@),
{
    let chars = chars_of(s);
    let n: usize = chars.len();
    let mut out = String::new();
    let ghost bytes = encode_utf8(s@);
    proof {
        assert(chars@.take(0) =~= Seq::empty());
        assert(bytes.take(0) =~= Seq::empty());
        if is_ascii_chars(s@) {
            is_ascii_chars_encode_utf8(s@);
        }
    }
    for i in 0..n
        invariant
            n == chars@.len(),
            chars@ == s@,
            bytes == encode_utf8(s@),
            is_ascii_chars(s@) ==> bytes.len() == n && forall|j: int|
                0 <= j < n ==> #[trigger] s@[j] as u8 == bytes[j],
            out@ == path_text(chars@.take(i as int)),
            is_ascii_chars(s@) ==> out@ == encoded_octets(bytes.take(i as int)),
    {
        assert(chars@.take(i + 1).drop_last() =~= chars@.take(i as int));
        let c = chars[i];
        let alphanumeric = c.is_alphanumeric();
        proof {
            if is_ascii_chars(s@) {
                assert(s@[i as int] <= '\u{7f}');
                lemma_ascii_char(c);
                assert(bytes.take(i + 1).drop_last() =~= bytes.take(i as int));
                assert(bytes.take(i + 1).last() == s@[i as int] as u8);
            }
        }
        out.append(&escape(c, alphanumeric));
    }
    proof {
        assert(chars@.take(n as int) =~= chars@);
        if is_ascii_chars(s@) {
            assert(bytes.take(n as int) =~= bytes);
        }
    }
    out
}

/// The path of the value of a key.
pub open spec fn value_path(key: Seq<char>) -> Seq<char> {
    "/kv/"@ + path_text(key)
}

/// The path of the value of a key.
pub fn kv_path(key: &str) -> (out: String)
    ensures
        out@ == value_path(key@),
{
    join2("/kv/", &urlencoding(key))
}

/// Asking for the value of a key.
pub fn read_call(key: &str) -> (out: Call)
    ensures
        out.asks(Verb::Get, value_path(key@)),
{
    Call { verb: Verb::Get, path: kv_path(key) }
}

// ── Reading a value ─────────────────────────────────────────────────────────
/// The error that a reply names, if its body names one.
pub open spec fn error_in(body: Seq<char>) -> Option<Seq<char>> {
    json_text(body, "error"@)
}

/// The error that a reply names, if its body names one.
pub fn error_member(body: &str) -> (out: Option<String>)
    ensures
        setting(out) == error_in(body@),
{
    json_text_member(body, "error")
}

/// The named error, or else `default`.
pub open spec fn error_or(error: Option<Seq<char>>, default: Seq<char>) -> Seq<char> {
    match error {
        Some(e) => e,
        None => default,
    }
}

/// Whether the error says that the key awaits the approval of its owner.
pub open spec fn is_pending_approval(error: Option<Seq<char>>) -> bool {
    error == Some("pending approval"@)
}

/// Whether the error says that the value is encrypted for devices.
pub open spec fn is_device_encrypted(error: Option<Seq<char>>) -> bool {
    error matches Some(e) && "device-encrypted"@.is_prefix_of(e)
}

fn pending_approval(error: &Option<String>) -> (r: bool)
    ensures
        r == is_pending_approval(setting(*error)),
{
    match error {
        Some(e) => same_text(e, "pending approval"),
        None => false,
    }
}

fn device_encrypted(error: &Option<String>) -> (r: bool)
    ensures
        r == is_device_encrypted(setting(*error)),
{
    match error {
        Some(e) => starts_with(e, "device-encrypted"),
        None => false,
    }
}

/// Why a value could not be read.
pub enum GetFailure {
    /// The client is silent and its API key is invalid.
    ApiKeyInvalid,
    /// The client is silent and its API key does not cover the value.
    ApiKeyScope,
    /// The link was used before, or its time is over.
    LinkUsed,
    /// The server gave this status, which says nothing to the client.
    UnexpectedStatus(u16),
    /// The server refused, with this error.
    Refused(String),
    /// The server failed.
    Server(Reply),
    /// The server's answer cannot be read.
    UnexpectedResponse(String),
    /// The value is encrypted for this device but does not open.
    Decrypt(DecryptError),
}

/// How a session is used to read a value.
#[derive(Debug, Clone, Copy, PartialEq, Eq, Structural)]
pub enum SessionUse {
    /// There is no API key.
    Direct,
    /// The API key did not do.
    Escalated,
}

/// What reading a value does next.
pub enum GetStep {
    /// Read with this API key, waiting for the approval of its owner if need be.
    Token(String),
    /// Read with this API key.
    ApiKey(String),
    /// Read with the session token at hand, without asking for one; the API key that
    /// did not do, and the status with which it was refused.
    TrySession(String, u16),
    /// Read with a session.
    Session(SessionUse),
    /// Read the envelope for this client's device and open it.
    Device,
    /// Done: print this secret.
    Emit(String),
    Fail(GetFailure),
}

/// A step, and what goes with it.
pub struct GetTurn {
    /// Whether the settings are written before the step.
    pub save: Save,
    /// Whether the API key was dropped from the settings.
    pub key_dropped: bool,
    pub step: GetStep,
}

/// The first step of reading a value.
pub open spec fn get_first(client: Client, token: Option<String>) -> GetStep {
    match token {
        Some(t) => GetStep::Token(t),
        None => match client.cfg.api_key {
            Some(k) => GetStep::ApiKey(k),
            None => GetStep::Session(SessionUse::Direct),
        },
    }
}

/// Begins to read a value: with the given token, or else with the API key of the
/// settings, or else with a session.
pub fn get(client: &Client, token: Option<String>) -> (out: GetStep)
    ensures
        out == get_first(*client, token),
{
    match token {
        Some(t) => GetStep::Token(t),
        None => match &client.cfg.api_key {
            Some(k) => GetStep::ApiKey(k.clone()),
            None => GetStep::Session(SessionUse::Direct),
        },
    }
}

/// This client without its API key.
pub open spec fn without_api_key(client: Client) -> Client {
    Client { cfg: Config { api_key: None, ..client.cfg }, ..client }
}

/// What follows when the API key was refused with `status` (401: it is invalid, 403:
/// it does not cover the value) and for no reason that another way of reading cures.
pub open spec fn escalated(client: Client, api_key: String, status: u16) -> (Client, GetTurn) {
    let dropped = status == 401;
    let after = if dropped {
        without_api_key(client)
    } else {
        client
    };
    let step = if client.silent {
        GetStep::Fail(
            if dropped {
                GetFailure::ApiKeyInvalid
            } else {
                GetFailure::ApiKeyScope
            },
        )
    } else if client.cfg.session_token is Some {
        GetStep::TrySession(api_key, status)
    } else {
        GetStep::Session(SessionUse::Escalated)
    };
    let save = if dropped {
        Save::BestEffort
    } else {
        Save::Keep
    };
    (after, GetTurn { save, key_dropped: dropped, step })
}

/// What follows from the reply to reading with the API key of the settings.
pub open spec fn after_api_key(
    client: Client,
    api_key: String,
    reply: Reply,
    error: Option<Seq<char>>,
) -> (Client, GetTurn) {
    let stay = |step: GetStep| (client, GetTurn { save: Save::Keep, key_dropped: false, step });
    if reply.status == 200 {
        stay(GetStep::Emit(reply.body))
    } else if reply.status == 401 || reply.status == 403 {
        if is_pending_approval(error) {
            stay(GetStep::Token(api_key))
        } else if is_device_encrypted(error) {
            stay(GetStep::Device)
        } else {
            escalated(client, api_key, reply.status)
        }
    } else {
        stay(GetStep::Fail(GetFailure::UnexpectedStatus(reply.status)))
    }
}

fn escalate(client: &mut Client, api_key: String, status: u16) -> (out: GetTurn)
    ensures
        (*final(client), out) == escalated(*old(client), api_key, status),
{
    let dropped = status == 401;
    if dropped {
        client.cfg.api_key = None;
    }
    let step = if client.silent {
        if dropped {
            GetStep::Fail(GetFailure::ApiKeyInvalid)
        } else {
            GetStep::Fail(GetFailure::ApiKeyScope)
        }
    } else if client.cfg.session_token.is_some() {
        GetStep::TrySession(api_key, status)
    } else {
        GetStep::Session(SessionUse::Escalated)
    };
    let save = if dropped {
        Save::BestEffort
    } else {
        Save::Keep
    };
    GetTurn { save, key_dropped: dropped, step }
}

/// Takes the reply to reading with the API key of the settings, and the error that
/// it names.
pub fn get_api_key_decided(
    client: &mut Client,
    api_key: String,
    reply: Reply,
    error: Option<String>,
) -> (out: GetTurn)
    ensures
        (*final(client), out) == after_api_key(*old(client), api_key, reply, setting(error)),
        reply.status != 200 && reply.status != 401 && reply.status != 403 ==> out.step
            == GetStep::Fail(GetFailure::UnexpectedStatus(reply.status)) && *final(client)
            == *old(client),
        reply.status == 200 ==> out.step == GetStep::Emit(reply.body) && *final(client) == *old(
            client,
        ),
{
    if reply.status == 200 {
        return GetTurn {
            save: Save::Keep,
            key_dropped: false,
            step: GetStep::Emit(reply.body),
        };
    }
    if reply.status != 401 && reply.status != 403 {
        return GetTurn {
            save: Save::Keep,
            key_dropped: false,
            step: GetStep::Fail(GetFailure::UnexpectedStatus(reply.status)),
        };
    }
    if pending_approval(&error) {
        return GetTurn { save: Save::Keep, key_dropped: false, step: GetStep::Token(api_key) };
    }
    if device_encrypted(&error) {
        return GetTurn { save: Save::Keep, key_dropped: false, step: GetStep::Device };
    }
    escalate(client, api_key, reply.status)
}

/// Takes the reply to reading with the API key of the settings.
pub fn get_api_key_replied(client: &mut Client, api_key: String, reply: Reply) -> (out: GetTurn)
    ensures
        (*final(client), out) == after_api_key(*old(client), api_key, reply, error_in(reply.body@)),
{
    let error = error_member(&reply.body);
    get_api_key_decided(client, api_key, reply, error)
}

/// What follows from the reply to reading with the session token at hand.
pub open spec fn after_try_session(
    client: Client,
    api_key: String,
    key_status: u16,
    reply: Reply,
    error: Option<Seq<char>>,
) -> (Client, GetTurn) {
    if reply.status == 401 {
        (
            client.without_token(),
            GetTurn {
                save: Save::BestEffort,
                key_dropped: false,
                step: if key_status == 403 {
                    GetStep::Token(api_key)
                } else {
                    GetStep::Session(SessionUse::Escalated)
                },
            },
        )
    } else {
        (
            client,
            GetTurn {
                save: Save::Keep,
                key_dropped: false,
                step: if reply.status == 403 && is_device_encrypted(error) {
                    GetStep::Device
                } else if is_success(reply.status) {
                    GetStep::Emit(reply.body)
                } else {
                    GetStep::Fail(GetFailure::Server(reply))
                },
            },
        )
    }
}

/// Takes the reply to reading with the session token at hand, and the error that it
/// names. A refused token is dropped; the API key is used again if only its scope
/// was at fault.
pub fn get_try_session_decided(
    client: &mut Client,
    api_key: String,
    key_status: u16,
    reply: Reply,
    error: Option<String>,
) -> (out: GetTurn)
    ensures
        (*final(client), out) == after_try_session(
            *old(client),
            api_key,
            key_status,
            reply,
            setting(error),
        ),
{
    let (save, passed) = client.bearer_silent_replied(reply);
    let step = match passed {
        None => if key_status == 403 {
            GetStep::Token(api_key)
        } else {
            GetStep::Session(SessionUse::Escalated)
        },
        Some(reply) => if reply.status == 403 && device_encrypted(&error) {
            GetStep::Device
        } else if succeeded(reply.status) {
            GetStep::Emit(reply.body)
        } else {
            GetStep::Fail(GetFailure::Server(reply))
        },
    };
    GetTurn { save, key_dropped: false, step }
}

/// Takes the reply to reading with the session token at hand.
pub fn get_try_session_replied(
    client: &mut Client,
    api_key: String,
    key_status: u16,
    reply: Reply,
) -> (out: GetTurn)
    ensures
        (*final(client), out) == after_try_session(
            *old(client),
            api_key,
            key_status,
            reply,
            error_in(reply.body@),
        ),
{
    let error = error_member(&reply.body);
    get_try_session_decided(client, api_key, key_status, reply, error)
}

/// Whether `step` follows from the answer to reading with a session.
pub open spec fn is_after_session(
    how: SessionUse,
    reply: Reply,
    error: Option<Seq<char>>,
    step: GetStep,
) -> bool {
    if how == SessionUse::Direct && reply.status == 403 {
        if is_device_encrypted(error) {
            step == GetStep::Device
        } else {
            step matches GetStep::Fail(GetFailure::Refused(e)) && e@ == error_or(
                error,
                "forbidden"@,
            )
        }
    } else if is_success(reply.status) {
        step == GetStep::Emit(reply.body)
    } else {
        step == GetStep::Fail(GetFailure::Server(reply))
    }
}

/// Takes the answer to reading with a session, and the error that it names.
pub fn get_session_decided(how: SessionUse, reply: Reply, error: Option<String>) -> (out: GetStep)
    ensures
        is_after_session(how, reply, setting(error), out),
{
    if how == SessionUse::Direct && reply.status == 403 {
        if device_encrypted(&error) {
            return GetStep::Device;
        }
        return match error {
            Some(e) => GetStep::Fail(GetFailure::Refused(e)),
            None => GetStep::Fail(GetFailure::Refused("forbidden".to_owned())),
        };
    }
    match Client::expect_success(reply) {
        Ok(body) => GetStep::Emit(body),
        Err(reply) => GetStep::Fail(GetFailure::Server(reply)),
    }
}

/// Takes the answer to reading with a session.
pub fn get_session_replied(how: SessionUse, reply: Reply) -> (out: GetStep)
    ensures
        is_after_session(how, reply, error_in(reply.body@), out),
{
    let error = error_member(&reply.body);
    get_session_decided(how, reply, error)
}

// ── Reading with the approval of a key's owner ──────────────────────────────
/// What the first attempt to read with a token leads to.
pub enum TokenStep {
    /// Ask the owner of the key for access, then poll.
    RequestAccess,
    /// The read ends like this.
    End(GetStep),
}

/// Whether `step` follows from the reply to the first attempt.
pub open spec fn is_after_first_read(
    reply: Reply,
    error: Option<Seq<char>>,
    step: TokenStep,
) -> bool {
    if reply.status == 200 {
        step == TokenStep::End(GetStep::Emit(reply.body))
    } else if reply.status == 401 {
        step == TokenStep::End(GetStep::Fail(GetFailure::LinkUsed))
    } else if reply.status == 403 {
        if is_pending_approval(error) {
            step == TokenStep::RequestAccess
        } else {
            step matches TokenStep::End(GetStep::Fail(GetFailure::Refused(e))) && e@ == error_or(
                error,
                "access denied"@,
            )
        }
    } else {
        step == TokenStep::End(GetStep::Fail(GetFailure::UnexpectedStatus(reply.status)))
    }
}

/// Takes the reply to the first attempt to read with a token, and the error that it
/// names.
pub fn get_with_token_decided(reply: Reply, error: Option<String>) -> (out: TokenStep)
    ensures
        is_after_first_read(reply, setting(error), out),
{
    if reply.status == 200 {
        TokenStep::End(GetStep::Emit(reply.body))
    } else if reply.status == 401 {
        TokenStep::End(GetStep::Fail(GetFailure::LinkUsed))
    } else if reply.status == 403 {
        if pending_approval(&error) {
            TokenStep::RequestAccess
        } else {
            match error {
                Some(e) => TokenStep::End(GetStep::Fail(GetFailure::Refused(e))),
                None => TokenStep::End(
                    GetStep::Fail(GetFailure::Refused("access denied".to_owned())),
                ),
            }
        }
    } else {
        TokenStep::End(GetStep::Fail(GetFailure::UnexpectedStatus(reply.status)))
    }
}

/// Takes the reply to the first attempt to read with a token.
pub fn get_with_token(reply: Reply) -> (out: TokenStep)
    ensures
        is_after_first_read(reply, error_in(reply.body@), out),
{
    let error = error_member(&reply.body);
    get_with_token_decided(reply, error)
}

/// Asking the owner of a key for access.
pub fn call_request_access() -> (out: Call)
    ensures
        out.asks(Verb::Post, "/kv/request-access"@),
{
    Call { verb: Verb::Post, path: "/kv/request-access".to_owned() }
}

/// Takes the answer to the request for access: the emojis by which the owner knows
/// who asks. `confirm` is what the body gives, if it can be read.
pub fn access_requested(reply: Reply, confirm: Option<String>) -> (out: Result<String, GetFailure>)
    ensures
        out == if !is_success(reply.status) {
            Err::<String, GetFailure>(GetFailure::Server(reply))
        } else {
            match confirm {
                Some(c) => Ok(c),
                None => Err(GetFailure::UnexpectedResponse(reply.body)),
            }
        },
{
    match Client::expect_success(reply) {
        Err(reply) => Err(GetFailure::Server(reply)),
        Ok(body) => match confirm {
            Some(c) => Ok(c),
            None => Err(GetFailure::UnexpectedResponse(body)),
        },
    }
}

/// What a poll for the approval leads to.
pub enum ApprovalPoll {
    /// Poll again after five seconds.
    Wait,
    /// The read ends like this.
    End(GetStep),
}

/// Takes the reply to a poll for the approval.
pub fn approval_polled(reply: Reply) -> (out: ApprovalPoll)
    ensures
        out == if reply.status == 200 {
            ApprovalPoll::End(GetStep::Emit(reply.body))
        } else if reply.status == 401 {
            ApprovalPoll::End(GetStep::Fail(GetFailure::LinkUsed))
        } else {
            ApprovalPoll::Wait
        },
{
    if reply.status == 200 {
        ApprovalPoll::End(GetStep::Emit(reply.body))
    } else if reply.status == 401 {
        ApprovalPoll::End(GetStep::Fail(GetFailure::LinkUsed))
    } else {
        ApprovalPoll::Wait
    }
}

// ── Reading a value that is encrypted for this device ───────────────────────
/// The path of the envelope of a value for a device.
pub open spec fn envelope_path(device_id: Seq<char>, key: Seq<char>) -> Seq<char> {
    "/api/admin/devices/"@ + device_id + "/kv/"@ + path_text(key)
}

/// Asking for the envelope of a value for this client's device; `None` if it has no
/// device.
pub fn envelope_call(client: &Client, key: &str) -> (out: Option<Call>)
    ensures
        match out {
            Some(c) => client.cfg.device_id matches Some(d) && c.asks(
                Verb::Get,
                envelope_path(d@, key@),
            ),
            None => client.cfg.device_id is None,
        },
{
    match &client.cfg.device_id {
        Some(d) => {
            let mut path = join2("/api/admin/devices/", d);
            path.append("/kv/");
            path.append(&urlencoding(key));
            Some(Call { verb: Verb::Get, path })
        },
        None => None,
    }
}

/// An encrypted value, with the wrap of its key for one device.
pub struct DeviceKvResponse {
    pub nonce: String,
    pub ciphertext: String,
    pub aad: String,
    pub recipient: DeviceKvRecipient,
}

pub struct DeviceKvRecipient {
    pub ephemeral_pub: String,
    pub dek_nonce: String,
    pub encrypted_dek: String,
}

impl DeviceKvResponse {
    /// The wrapped key, with the private key to open it.
    pub open spec fn wrap(self, private_key: Seq<char>) -> WrapText {
        WrapText {
            private_key,
            ephemeral_pub: self.recipient.ephemeral_pub@,
            dek_nonce: self.recipient.dek_nonce@,
            encrypted_dek: self.recipient.encrypted_dek@,
        }
    }

    /// The encrypted body.
    pub open spec fn body(self) -> BodyText {
        BodyText { nonce: self.nonce@, ciphertext: self.ciphertext@, aad: self.aad@ }
    }
}

/// Opens an encrypted value. `None` if a key or a nonce in it does not have the
/// length that the cipher takes.
pub fn open_value(payload: &DeviceKvResponse, private_key_b64: &str) -> (out: Option<
    Result<Vec<u8>, DecryptError>,
>)
    ensures
        match out {
            Some(Ok(p)) => {
                &&& envelope_fits(payload.wrap(private_key_b64@), payload.body())
                &&& decrypted(payload.wrap(private_key_b64@), payload.body()) == Ok::<
                    Seq<u8>,
                    DecryptError,
                >(p@)
            },
            Some(Err(e)) => {
                &&& envelope_fits(payload.wrap(private_key_b64@), payload.body())
                &&& decrypted(payload.wrap(private_key_b64@), payload.body()) == Err::<
                    Seq<u8>,
                    DecryptError,
                >(e)
            },
            None => !envelope_fits(payload.wrap(private_key_b64@), payload.body()),
        },
{
    open_device_kv(
        private_key_b64,
        &payload.recipient.ephemeral_pub,
        &payload.recipient.dek_nonce,
        &payload.recipient.encrypted_dek,
        &payload.nonce,
        &payload.ciphertext,
        &payload.aad,
    )
}

/// The text of an encrypted value, as it is printed: what is not UTF-8 in it is
/// replaced. `None` if a key or a nonce in it does not have the length that the
/// cipher takes.
pub fn fetch_and_decrypt(payload: &DeviceKvResponse, private_key_b64: &str) -> (out: Option<
    Result<String, DecryptError>,
>)
    ensures
        match out {
            Some(Ok(s)) => {
                &&& envelope_fits(payload.wrap(private_key_b64@), payload.body())
                &&& decrypted(payload.wrap(private_key_b64@), payload.body()) matches Ok(p)
                &&& s@ == utf8_lossy(p)
                &&& valid_utf8(p) ==> s@ == decode_utf8(p)
            },
            Some(Err(e)) => {
                &&& envelope_fits(payload.wrap(private_key_b64@), payload.body())
                &&& decrypted(payload.wrap(private_key_b64@), payload.body()) == Err::<
                    Seq<u8>,
                    DecryptError,
                >(e)
            },
            None => !envelope_fits(payload.wrap(private_key_b64@), payload.body()),
        },
{
    match open_value(payload, private_key_b64) {
        None => None,
        Some(Err(e)) => Some(Err(e)),
        Some(Ok(p)) => Some(Ok(text_lossy(&p))),
    }
}

/// How a read ends that found an encrypted value: with its text, or with the reason why
/// it does not open. `None` if a key or a nonce in it does not have the length that the
/// cipher takes.
pub fn envelope_read(payload: &DeviceKvResponse, private_key_b64: &str) -> (out: Option<GetStep>)
    ensures
        match out {
            Some(step) => {
                &&& envelope_fits(payload.wrap(private_key_b64@), payload.body())
                &&& match decrypted(payload.wrap(private_key_b64@), payload.body()) {
                    Ok(p) => step matches GetStep::Emit(s) && s@ == utf8_lossy(p) && (valid_utf8(p)
                        ==> s@ == decode_utf8(p)),
                    Err(e) => step == GetStep::Fail(GetFailure::Decrypt(e)),
                }
            },
            None => !envelope_fits(payload.wrap(private_key_b64@), payload.body()),
        },
{
    match fetch_and_decrypt(payload, private_key_b64) {
        None => None,
        Some(Ok(s)) => Some(GetStep::Emit(s)),
        Some(Err(e)) => Some(GetStep::Fail(GetFailure::Decrypt(e))),
    }
}

// ── Printing a value that was read ──────────────────────────────────────────
/// Why reading a value printed nothing.
pub enum GetError {
    /// The value could not be read.
    Failed(GetFailure),
    /// The value was read, but it may not be printed.
    Reveal(RevealError),
}

/// What a read that has ended prints, or the error that it ends with; `None` if the read
/// goes on. `answer` is what the operator typed where a question was put.
pub fn get_ended(step: GetStep, gate: Gate, answer: &str) -> (out: Option<
    Result<String, GetError>,
>)
    ensures
        match step {
            GetStep::Emit(value) => match out {
                Some(Ok(text)) => is_shown(Ok(text), value@, gate, answer@),
                Some(Err(GetError::Reveal(e))) => is_shown(Err(e), value@, gate, answer@),
                _ => false,
            },
            GetStep::Fail(f) => out == Some(Err::<String, GetError>(GetError::Failed(f))),
            _ => out is None,
        },
        step is Emit && !gate.wants_fingerprint() && !gate.is_interactive() ==> out == Some(
            Err::<String, GetError>(GetError::Reveal(RevealError::Refused)),
        ),
{
    match step {
        GetStep::Emit(value) => match show_secret(&value, gate, answer) {
            Ok(text) => Some(Ok(text)),
            Err(e) => Some(Err(GetError::Reveal(e))),
        },
        GetStep::Fail(f) => Some(Err(GetError::Failed(f))),
        _ => None,
    }
}

// ── Writing a value ─────────────────────────────────────────────────────────
/// A value to write. `N` is the type of a number of hours.
pub struct KvUpsertRequest<N> {
    pub value: String,
    pub ttl_hours: Option<N>,
    pub ttl_sliding: bool,
    pub open_access: bool,
}

/// A value to write under a scope.
pub struct AdminKvWriteRequest<N> {
    pub key: String,
    pub value: String,
    pub scope: Option<String>,
    pub ttl_hours: Option<N>,
    pub ttl_sliding: bool,
    pub open_access: bool,
}

/// How a value is written.
pub enum SetStep<N> {
    /// Encrypted for devices.
    Encrypt { value: String, scope: Option<String> },
    /// Under a scope.
    Scoped { call: Call, write: AdminKvWriteRequest<N> },
    /// Under the key.
    Plain { call: Call, upsert: KvUpsertRequest<N> },
}

/// Whether `step` writes the value as asked for: for devices if `device` is given,
/// else under the scope if there is one, else under the path of the key.
pub open spec fn is_set_step<N>(
    step: SetStep<N>,
    key: Seq<char>,
    value: String,
    scope: Option<String>,
    ttl_hours: Option<N>,
    sliding: bool,
    open: bool,
    device: bool,
) -> bool {
    if device {
        step == SetStep::<N>::Encrypt { value, scope }
    } else if scope is Some {
        &&& step matches SetStep::Scoped { call, write }
        &&& call.asks(Verb::Put, "/api/admin/kv"@)
        &&& write.key@ == key
        &&& write.value == value
        &&& write.scope == scope
        &&& write.ttl_hours == ttl_hours
        &&& write.ttl_sliding == sliding
        &&& write.open_access == open
    } else {
        &&& step matches SetStep::Plain { call, upsert }
        &&& call.asks(Verb::Put, value_path(key))
        &&& upsert == (KvUpsertRequest {
            value,
            ttl_hours,
            ttl_sliding: sliding,
            open_access: open,
        })
    }
}

/// Begins to write a value.
pub fn set<N>(
    key: &str,
    value: String,
    scope: Option<String>,
    ttl_hours: Option<N>,
    sliding: bool,
    open: bool,
    device: bool,
) -> (out: SetStep<N>)
    ensures
        is_set_step(out, key@, value, scope, ttl_hours, sliding, open, device),
        out is Encrypt <==> device,
        out is Scoped <==> !device && scope is Some,
        match out {
            SetStep::Encrypt { value: v, scope: s } => v == value && s == scope,
            SetStep::Scoped { call, write } => {
                &&& call.verb == Verb::Put && call.path@ == "/api/admin/kv"@
                &&& write.key@ == key@ && write.value == value && write.scope == scope
                &&& write.ttl_hours == ttl_hours
                &&& write.ttl_sliding == sliding && write.open_access == open
            },
            SetStep::Plain { call, upsert } => {
                &&& call.verb == Verb::Put && call.path@ == value_path(key@)
                &&& upsert.value == value && upsert.ttl_hours == ttl_hours
                &&& upsert.ttl_sliding == sliding && upsert.open_access == open
            },
        },
{
    if device {
        return SetStep::Encrypt { value, scope };
    }
    if scope.is_some() {
        SetStep::Scoped {
            call: Call { verb: Verb::Put, path: "/api/admin/kv".to_owned() },
            write: AdminKvWriteRequest {
                key: key.to_owned(),
                value,
                scope,
                ttl_hours,
                ttl_sliding: sliding,
                open_access: open,
            },
        }
    } else {
        SetStep::Plain {
            call: Call { verb: Verb::Put, path: kv_path(key) },
            upsert: KvUpsertRequest { value, ttl_hours, ttl_sliding: sliding, open_access: open },
        }
    }
}

/// An encrypted value to write.
pub struct DeviceKvWriteRequest {
    pub key: String,
    pub scope: Option<String>,
    pub payload: DevicePayload,
}

/// Writing an encrypted value.
pub fn device_write_call() -> (out: Call)
    ensures
        out.asks(Verb::Post, "/api/admin/kv/device"@),
{
    Call { verb: Verb::Post, path: "/api/admin/kv/device".to_owned() }
}

/// Why a value could not be encrypted for devices.
#[derive(Debug, Clone, Copy, PartialEq, Eq, Structural)]
pub enum DeviceSetError {
    /// There are no devices.
    NoDevices,
    Encrypt(EncryptError),
}

/// Encrypts a value for the chosen devices, with the key as the associated data.
pub fn set_device_encrypted(
    key: &str,
    plaintext: &[u8],
    scope: Option<String>,
    devices: &Vec<DeviceListEntry>,
    chosen: &Vec<usize>,
) -> (out: Result<DeviceKvWriteRequest, DeviceSetError>)
    requires
        forall|k: int| 0 <= k < chosen@.len() ==> #[trigger] chosen@[k] < devices@.len(),
    ensures
        match out {
            Ok(w) => {
                &&& devices@.len() > 0
                &&& w.key@ == key@
                &&& w.scope == scope
                &&& is_encrypted_for(w.payload, key@, plaintext@, devices@, chosen@)
            },
            Err(DeviceSetError::NoDevices) => devices@.len() == 0,
            Err(DeviceSetError::Encrypt(e)) => devices@.len() > 0 && encryption_fails(
                key@,
                plaintext@,
                devices@,
                chosen@,
                e,
            ),
        },
{
    if devices.len() == 0 {
        return Err(DeviceSetError::NoDevices);
    }
    match encrypt_for_chosen(key, plaintext, devices, chosen) {
        Ok(payload) => Ok(DeviceKvWriteRequest { key: key.to_owned(), scope, payload }),
        Err(e) => Err(DeviceSetError::Encrypt(e)),
    }
}

// ── Listing, choosing and deleting ──────────────────────────────────────────
/// A stored key, as the server lists it.
pub struct KvEntry<N> {
    pub key: String,
    pub scope: Option<String>,
    pub ttl_hours: Option<N>,
    pub expires_at: Option<String>,
    pub open_access: bool,
}

/// The text of a setting in a table.
pub open spec fn cell(v: Option<String>) -> Seq<char> {
    match v {
        Some(s) => s@,
        None => "-"@,
    }
}

/// The text of a setting in a table: a dash where there is none.
pub fn opt_str(v: &Option<String>) -> (out: String)
    ensures
        out@ == cell(*v),
{
    match v {
        Some(s) => s.clone(),
        None => "-".to_owned(),
    }
}

/// The path of the list of keys that begin with `prefix`.
pub open spec fn list_path_of(prefix: Option<Seq<char>>) -> Seq<char> {
    match prefix {
        Some(p) => "/kv?prefix="@ + path_text(p),
        None => "/kv"@,
    }
}

/// Asking for the list of keys that begin with `prefix`.
pub fn list(prefix: &Option<String>) -> (out: Call)
    ensures
        out.asks(Verb::Get, list_path_of(setting(*prefix))),
{
    let path = match prefix {
        Some(p) => join2("/kv?prefix=", &urlencoding(p)),
        None => "/kv".to_owned(),
    };
    Call { verb: Verb::Get, path }
}

/// Asking to delete a key.
pub fn delete(key: &str) -> (out: Call)
    ensures
        out.asks(Verb::Delete, value_path(key@)),
{
    Call { verb: Verb::Delete, path: kv_path(key) }
}

/// The line that stands for a key in the picker.
pub open spec fn entry_line<N>(e: KvEntry<N>) -> Seq<char> {
    match e.scope {
        Some(s) => (e.key@ + " [scope:"@ + s@).push(']'),
        None => e.key@,
    }
}

/// The lines of the keys for the picker; `None` if there are no keys.
pub fn entry_lines<N>(entries: &Vec<KvEntry<N>>) -> (out: Option<Vec<String>>)
    ensures
        match out {
            Some(lines) => entries@.len() > 0 && views(lines@) == entries@.map_values(
                |e: KvEntry<N>| entry_line(e),
            ),
            None => entries@.len() == 0,
        },
{
    let n: usize = entries.len();
    if n == 0 {
        return None;
    }
    let mut out: Vec<String> = Vec::new();
    for i in 0..n
        invariant
            n == entries@.len(),
            views(out@) == entries@.take(i as int).map_values(|e: KvEntry<N>| entry_line(e)),
    {
        let line = match &entries[i].scope {
            Some(scope) => {
                let mut line = join2(&entries[i].key, " [scope:");
                line.append(scope);
                line.push(']');
                line
            },
            None => entries[i].key.clone(),
        };
        let ghost before = out@;
        out.push(line);
        assert(views(out@) =~= views(before).push(line@));
        assert(entries@.take(i + 1).map_values(|e: KvEntry<N>| entry_line(e)) =~= entries@.take(
            i as int,
        ).map_values(|e: KvEntry<N>| entry_line(e)).push(line@));
    }
    assert(entries@.take(n as int) =~= entries@);
    Some(out)
}

/// The key that was chosen first.
pub fn pick_key<N>(entries: &Vec<KvEntry<N>>, chosen: &Vec<usize>) -> (out: String)
    requires
        chosen@.len() > 0,
        chosen@[0] < entries@.len(),
    ensures
        out@ == entries@[chosen@[0] as int].key@,
{
    entries[chosen[0]].key.clone()
}

// ── What holds of every read ────────────────────────────────────────────────
/// How many more steps reading a value can take at most, before it is handed over to
/// the approval flow, the device's envelope, or the end.
pub open spec fn reads_left(step: GetStep) -> nat {
    match step {
        GetStep::ApiKey(_) => 3,
        GetStep::TrySession(_, _) => 2,
        GetStep::Session(_) => 1,
        GetStep::Token(_) | GetStep::Device | GetStep::Emit(_) | GetStep::Fail(_) => 0,
    }
}

/// Whether `next` can follow `step`, where `client` becomes `after`: there is a reply
/// that leads there.
pub open spec fn follows(client: Client, step: GetStep, after: Client, next: GetStep) -> bool {
    match step {
        GetStep::ApiKey(api_key) => exists|reply: Reply, error: Option<Seq<char>>|
            {
                let (c, turn) = #[trigger] after_api_key(client, api_key, reply, error);
                c == after && turn.step == next
            },
        GetStep::TrySession(api_key, key_status) => exists|
            reply: Reply,
            error: Option<Seq<char>>,
        |
            {
                let (c, turn) = #[trigger] after_try_session(
                    client,
                    api_key,
                    key_status,
                    reply,
                    error,
                );
                c == after && turn.step == next
            },
        GetStep::Session(how) => after.silent == client.silent && exists|
            reply: Reply,
            error: Option<Seq<char>>,
        | #[trigger]
            is_after_session(how, reply, error, next),
        GetStep::Token(_) | GetStep::Device | GetStep::Emit(_) | GetStep::Fail(_) => false,
    }
}

/// Whether these are the client and the step at each turn of reading a value.
pub open spec fn is_read(turns: Seq<(Client, GetStep)>, token: Option<String>) -> bool
    decreases turns.len(),
{
    if turns.len() <= 1 {
        turns.len() == 1 && turns[0].1 == get_first(turns[0].0, token)
    } else {
        let before = turns.drop_last();
        is_read(before, token) && follows(
            before.last().0,
            before.last().1,
            turns.last().0,
            turns.last().1,
        )
    }
}

/// Reading a value tries each credential once: whatever is answered, it is handed over
/// or at its end after three replies at most.
pub proof fn law_read_ends(turns: Seq<(Client, GetStep)>, token: Option<String>)
    requires
        is_read(turns, token),
    ensures
        turns.len() + reads_left(turns.last().1) <= 4,
    decreases turns.len(),
{
    if turns.len() > 1 {
        law_read_ends(turns.drop_last(), token);
    }
}

/// A silent client with an API key never falls back to a session, nor to its session
/// token.
pub proof fn law_silent_read_never_escalates(turns: Seq<(Client, GetStep)>, token: Option<String>)
    requires
        is_read(turns, token),
        turns[0].0.silent,
        turns[0].0.cfg.api_key is Some,
    ensures
        !(turns.last().1 is TrySession),
        !(turns.last().1 is Session),
        turns.last().0.silent,
    decreases turns.len(),
{
    if turns.len() > 1 {
        let before = turns.drop_last();
        assert(before[0] == turns[0]);
        law_silent_read_never_escalates(before, token);
    }
}

/// A token given on the command line is the only credential that a read with it
/// begins with, whatever the settings hold.
pub proof fn law_given_token_is_used(client: Client, token: String)
    ensures
        get_first(client, Some(token)) == GetStep::Token(token),
{
}

/// The API key leaves the settings exactly if the server refused it as invalid and
/// named no other way to read the value; nothing else in the settings changes.
pub proof fn law_invalid_key_is_dropped(
    client: Client,
    api_key: String,
    reply: Reply,
    error: Option<Seq<char>>,
)
    requires
        client.cfg.api_key is Some,
    ensures
        ({
            let (after, turn) = after_api_key(client, api_key, reply, error);
            &&& after.cfg.api_key is None <==> reply.status == 401 && !is_pending_approval(error)
                && !is_device_encrypted(error)
            &&& turn.key_dropped <==> after.cfg.api_key is None
            &&& turn.save == Save::Keep <==> after == client
            &&& after.cfg == (Config { api_key: after.cfg.api_key, ..client.cfg })
        }),
{
}

/// The session token at hand leaves the settings exactly if the server refused it;
/// nothing else in the settings changes.
pub proof fn law_refused_session_is_dropped(
    client: Client,
    api_key: String,
    key_status: u16,
    reply: Reply,
    error: Option<Seq<char>>,
)
    requires
        client.cfg.session_token is Some,
    ensures
        ({
            let (after, turn) = after_try_session(client, api_key, key_status, reply, error);
            &&& after.cfg.session_token is None <==> reply.status == 401
            &&& turn.save == Save::Keep <==> after == client
            &&& after.cfg == (Config { session_token: after.cfg.session_token, ..client.cfg })
        }),
{
}

/// A value is printed only out of a reply that the server gave as a success.
pub proof fn law_only_answers_are_printed(
    client: Client,
    api_key: String,
    key_status: u16,
    how: SessionUse,
    reply: Reply,
    error: Option<Seq<char>>,
    step: GetStep,
)
    requires
        is_after_session(how, reply, error, step),
    ensures
        after_api_key(client, api_key, reply, error).1.step matches GetStep::Emit(v) ==> is_success(
            reply.status,
        ) && v == reply.body,
        after_try_session(client, api_key, key_status, reply, error).1.step matches GetStep::Emit(v)
            ==> is_success(reply.status) && v == reply.body,
        step matches GetStep::Emit(v) ==> is_success(reply.status) && v == reply.body,
{
}

/// Whether `response` is what `payload` holds for its recipient at position `k`.
pub open spec fn is_handed_out(response: DeviceKvResponse, payload: DevicePayload, k: int) -> bool {
    &&& response.recipient.ephemeral_pub@ == payload.recipients@[k].ephemeral_pub@
    &&& response.recipient.dek_nonce@ == payload.recipients@[k].dek_nonce@
    &&& response.recipient.encrypted_dek@ == payload.recipients@[k].encrypted_dek@
    &&& response.nonce@ == payload.nonce@
    &&& response.ciphertext@ == payload.ciphertext@
    &&& response.aad@ == payload.aad@
}

/// What was written for a device is what the device reads: if the server hands out
/// one of the wraps of an encrypted value, the owner of the device's private key
/// opens it to the value that was written.
pub proof fn law_read_gives_back_write(
    payload: DevicePayload,
    key: Seq<char>,
    value: Seq<u8>,
    devices: Seq<DeviceListEntry>,
    chosen: Seq<usize>,
    k: int,
    private_key: Seq<char>,
    response: DeviceKvResponse,
)
    requires
        is_encrypted_for(payload, key, value, devices, chosen),
        0 <= k < chosen.len(),
        device_key(private_key) matches Ok(secret) && base64_bytes(
            devices[chosen[k] as int].public_key@,
        ) == Some(x25519_public(secret)),
        is_handed_out(response, payload, k),
    ensures
        envelope_fits(response.wrap(private_key), response.body()),
        decrypted(response.wrap(private_key), response.body()) == Ok::<Seq<u8>, DecryptError>(
            value,
        ),
{
    assert(opens_for(
        payload.recipients@[k],
        payload,
        devices[chosen[k] as int].public_key@,
        value,
    ));
}

// ── What is asked, answered and written ─────────────────────────────────────
/// Whichever way a value is written, what is sent is what was given: the value, when it ends,
/// whether reading it puts the end off, whether it is open, and the scope. The way is the one
/// asked for: encrypted if that was asked for, else under the scope if there is one, else
/// under the path on which the key is read.
pub proof fn law_written_as_given<N>(
    step: SetStep<N>,
    key: Seq<char>,
    value: String,
    scope: Option<String>,
    ttl_hours: Option<N>,
    sliding: bool,
    open: bool,
    device: bool,
)
    requires
        is_set_step(step, key, value, scope, ttl_hours, sliding, open, device),
    ensures
        step is Encrypt <==> device,
        step is Scoped <==> !device && scope is Some,
        step is Plain <==> !device && scope is None,
        match step {
            SetStep::Encrypt { value: v, scope: s } => v == value && s == scope,
            SetStep::Scoped { call, write } => {
                &&& call.verb == Verb::Put && call.path@ == "/api/admin/kv"@
                &&& write.key@ == key && write.value == value && write.scope == scope
                &&& write.ttl_hours == ttl_hours
                &&& write.ttl_sliding == sliding && write.open_access == open
            },
            SetStep::Plain { call, upsert } => {
                &&& call.verb == Verb::Put && call.path@ == value_path(key)
                &&& upsert.value == value && upsert.ttl_hours == ttl_hours
                &&& upsert.ttl_sliding == sliding && upsert.open_access == open
            },
        },
{
}

/// A read with the API key leaves the key only where the server refused it: a reply of 200 is
/// the value, one that is neither that nor a refusal (401, 403) ends the read with its status
/// and changes nothing, and of the refusals one that awaits the owner goes to the approval
/// with the same key, one of an encrypted value to the device, and any other to a session,
/// with the token at hand if there is one, unless the client is silent: then it fails, with
/// the key as the reason if that was invalid, else with its scope.
pub proof fn law_read_with_api_key(
    client: Client,
    api_key: String,
    reply: Reply,
    error: Option<Seq<char>>,
)
    ensures
        ({
            let (after, turn) = after_api_key(client, api_key, reply, error);
            let refused = reply.status == 401 || reply.status == 403;
            let awaits = refused && error == Some("pending approval"@);
            let sealed = refused && !awaits && (error matches Some(e)
                && "device-encrypted"@.is_prefix_of(e));
            let lost = refused && !awaits && !sealed;
            &&& reply.status == 200 ==> turn.step == GetStep::Emit(reply.body)
            &&& reply.status != 200 && !refused ==> turn.step == GetStep::Fail(
                GetFailure::UnexpectedStatus(reply.status),
            )
            &&& !refused || awaits || sealed ==> after == client && turn.save == Save::Keep
                && !turn.key_dropped
            &&& awaits ==> turn.step == GetStep::Token(api_key)
            &&& sealed ==> turn.step == GetStep::Device
            &&& lost && client.silent && reply.status == 401 ==> turn.step == GetStep::Fail(
                GetFailure::ApiKeyInvalid,
            )
            &&& lost && client.silent && reply.status == 403 ==> turn.step == GetStep::Fail(
                GetFailure::ApiKeyScope,
            )
            &&& lost && !client.silent && client.cfg.session_token is Some ==> turn.step
                == GetStep::TrySession(api_key, reply.status)
            &&& lost && !client.silent && client.cfg.session_token is None ==> turn.step
                == GetStep::Session(SessionUse::Escalated)
            &&& lost && reply.status == 401 ==> {
                &&& turn.key_dropped && turn.save == Save::BestEffort
                &&& after.cfg.api_key is None
            }
            &&& lost && reply.status == 403 ==> after == client && turn.save == Save::Keep
                && !turn.key_dropped
            &&& after.cfg.session_token == client.cfg.session_token
            &&& after.cfg.device_id == client.cfg.device_id
            &&& after.cfg.base_url == client.cfg.base_url
            &&& after.cfg.pending_session_request == client.cfg.pending_session_request
            &&& after.base_url == client.base_url && after.silent == client.silent
        }),
{
}

/// A read with the session token at hand ends with it unless the server refuses the token: a
/// success is the value, an encrypted value goes to the device, and any other reply is the
/// error. Where the token is refused it is dropped; then the owner of the API key is asked if
/// the key was only refused for its scope (403), and a session is asked for otherwise.
pub proof fn law_read_with_token_at_hand(
    client: Client,
    api_key: String,
    key_status: u16,
    reply: Reply,
    error: Option<Seq<char>>,
)
    ensures
        ({
            let (after, turn) = after_try_session(client, api_key, key_status, reply, error);
            let sealed = reply.status == 403 && (error matches Some(e)
                && "device-encrypted"@.is_prefix_of(e));
            &&& !turn.key_dropped
            &&& reply.status == 401 ==> after.cfg.session_token is None && turn.save
                == Save::BestEffort
            &&& reply.status == 401 && key_status == 403 ==> turn.step == GetStep::Token(api_key)
            &&& reply.status == 401 && key_status != 403 ==> turn.step == GetStep::Session(
                SessionUse::Escalated,
            )
            &&& reply.status != 401 ==> after == client && turn.save == Save::Keep
            &&& sealed ==> turn.step == GetStep::Device
            &&& 200 <= reply.status <= 299 ==> turn.step == GetStep::Emit(reply.body)
            &&& reply.status != 401 && !sealed && !(200 <= reply.status <= 299) ==> turn.step
                == GetStep::Fail(GetFailure::Server(reply))
            &&& after.cfg.api_key == client.cfg.api_key
            &&& after.cfg.device_id == client.cfg.device_id
            &&& after.cfg.base_url == client.cfg.base_url
            &&& after.cfg.pending_session_request == client.cfg.pending_session_request
            &&& after.base_url == client.base_url && after.silent == client.silent
        }),
{
}

/// A read with a session is the value if it succeeds. Where there was no API key, a refusal
/// (403) of an encrypted value goes to the device, and any other ends with the error that the
/// server names, or with the word `forbidden`. Everything else ends with the reply.
pub proof fn law_read_with_session(
    how: SessionUse,
    reply: Reply,
    error: Option<Seq<char>>,
    step: GetStep,
)
    requires
        is_after_session(how, reply, error, step),
    ensures
        ({
            let direct = how == SessionUse::Direct && reply.status == 403;
            let sealed = error matches Some(e) && "device-encrypted"@.is_prefix_of(e);
            &&& 200 <= reply.status <= 299 ==> step == GetStep::Emit(reply.body)
            &&& direct && sealed ==> step == GetStep::Device
            &&& direct && !sealed ==> (step matches GetStep::Fail(GetFailure::Refused(text))
                && match error {
                Some(e) => text@ == e,
                None => text@ == "forbidden"@,
            })
            &&& !direct && !(200 <= reply.status <= 299) ==> step == GetStep::Fail(
                GetFailure::Server(reply),
            )
        }),
{
}

/// The first read with a token: 200 is the value, 401 is a link that was used, 403 leads to
/// the owner if the key awaits approval and is refused with the server's words otherwise, and
/// any other status ends the read with that status.
pub proof fn law_first_read_with_token(reply: Reply, error: Option<Seq<char>>, step: TokenStep)
    requires
        is_after_first_read(reply, error, step),
    ensures
        step is RequestAccess <==> reply.status == 403 && error == Some("pending approval"@),
        reply.status == 200 ==> step == TokenStep::End(GetStep::Emit(reply.body)),
        reply.status == 401 ==> step == TokenStep::End(GetStep::Fail(GetFailure::LinkUsed)),
        reply.status == 403 && error != Some("pending approval"@) ==> (
        step matches TokenStep::End(GetStep::Fail(GetFailure::Refused(text))) && match error {
            Some(e) => text@ == e,
            None => text@ == "access denied"@,
        }),
        reply.status != 200 && reply.status != 401 && reply.status != 403 ==> step
            == TokenStep::End(GetStep::Fail(GetFailure::UnexpectedStatus(reply.status))),
{
}

/// A read begins with the token that is given; without one with the API key that is set; and
/// without that with a session.
pub proof fn law_read_begins(client: Client, token: Option<String>)
    ensures
        get_first(client, token) matches GetStep::Token(t) ==> token == Some(t),
        get_first(client, token) matches GetStep::ApiKey(k) ==> token is None && client.cfg.api_key
            == Some(k),
        get_first(client, token) matches GetStep::Session(how) ==> token is None
            && client.cfg.api_key is None && how == SessionUse::Direct,
        get_first(client, token) is Token || get_first(client, token) is ApiKey || get_first(
            client,
            token,
        ) is Session,
{
}

/// In a path a character that is a letter, a number or one of `-_.~` stands for itself, and
/// any other as a percent sign and its code point in two upper case hexadecimal digits or
/// more, which can be read back.
pub proof fn law_path_char(c: char, alphanumeric: bool)
    ensures
        ({
            let kept = alphanumeric || c == '-' || c == '_' || c == '.' || c == '~';
            let out = path_char(c, alphanumeric);
            &&& kept ==> out == seq![c]
            &&& !kept ==> {
                &&& out.len() >= 3
                &&& out[0] == '%'
                &&& crate::text::hexadecimal_value(out.skip(1)) == c as nat
                &&& forall|i: int|
                    1 <= i < out.len() ==> '0' <= #[trigger] out[i] <= '9' || 'A' <= out[i] <= 'F'
                &&& out.len() > 3 ==> out[1] != '0'
            }
        }),
{
    let kept = alphanumeric || c == '-' || c == '_' || c == '.' || c == '~';
    if !kept {
        let n = c as nat;
        let h = hexadecimal(n);
        let out = path_char(c, alphanumeric);
        crate::text::law_hexadecimal(n);
        reveal_strlit("%0");
        reveal_strlit("%");
        if (c as u32) < 16 {
            reveal_with_fuel(hexadecimal, 2);
            reveal_with_fuel(crate::text::hexadecimal_value, 3);
            assert(h.len() == 1);
            let tail = out.skip(1);
            assert(tail =~= seq!['0'] + h);
            assert(tail.drop_last() =~= seq!['0']);
            assert(seq!['0'].drop_last() =~= Seq::empty());
            assert(h.drop_last() =~= Seq::empty());
        } else {
            reveal_with_fuel(hexadecimal, 2);
            assert(out.skip(1) =~= h);
            assert(h.len() >= 2);
        }
    }
}

/// A text stands in a path character by character.
pub proof fn law_path_text(a: Seq<char>, b: Seq<char>, c: char)
    ensures
        path_text(a + b) == path_text(a) + path_text(b),
        path_text(seq![c]) == path_char(c, unicode_alphanumeric(c)),
        path_text(Seq::empty()) == Seq::<char>::empty(),
    decreases b.len(),
{
    reveal_with_fuel(path_text, 2);
    assert(seq![c].drop_last() =~= Seq::empty());
    assert(path_text(seq![c]) =~= path_char(c, unicode_alphanumeric(c)));
    if b.len() == 0 {
        assert(a + b =~= a);
        assert(path_text(a) + path_text(b) =~= path_text(a));
    } else {
        law_path_text(a, b.drop_last(), c);
        assert((a + b).drop_last() =~= a + b.drop_last());
        assert(path_text(a + b) =~= path_text(a) + path_text(b));
    }
}

/// Nothing stands in a path but letters, numbers, `-_.~` and `%`: a key adds no segment and
/// no parameter.
pub proof fn law_path_alphabet(s: Seq<char>)
    ensures
        forall|i: int|
            0 <= i < path_text(s).len() ==> {
                ||| unicode_alphanumeric(#[trigger] path_text(s)[i])
                ||| path_text(s)[i] == '-' || path_text(s)[i] == '_' || path_text(s)[i] == '.'
                ||| path_text(s)[i] == '~' || path_text(s)[i] == '%'
                ||| '0' <= path_text(s)[i] <= '9' || 'A' <= path_text(s)[i] <= 'F'
            },
    decreases s.len(),
{
    if s.len() > 0 {
        let c = s.last();
        law_path_alphabet(s.drop_last());
        law_path_char(c, unicode_alphanumeric(c));
        let head = path_text(s.drop_last());
        let tail = path_char(c, unicode_alphanumeric(c));
        assert forall|i: int| 0 <= i < path_text(s).len() implies {
            ||| unicode_alphanumeric(#[trigger] path_text(s)[i])
            ||| path_text(s)[i] == '-' || path_text(s)[i] == '_' || path_text(s)[i] == '.'
            ||| path_text(s)[i] == '~' || path_text(s)[i] == '%'
            ||| '0' <= path_text(s)[i] <= '9' || 'A' <= path_text(s)[i] <= 'F'
        } by {
            if i < head.len() {
                assert(path_text(s)[i] == head[i]);
            } else {
                assert(path_text(s)[i] == tail[i - head.len()]);
            }
        }
    }
}

/// A value is read, written and deleted under `/kv/` and its key; its envelope for a device
/// under the device and the key; and the keys with a prefix are listed under that prefix. Of
/// each path the key is what stands behind the fixed part.
pub proof fn law_paths_of_keys(key: Seq<char>, device_id: Seq<char>)
    ensures
        "/kv/"@.is_prefix_of(value_path(key)),
        value_path(key).skip(4) == path_text(key),
        envelope_path(device_id, key) == "/api/admin/devices/"@ + device_id + value_path(key),
        list_path_of(None) == "/kv"@,
        "/kv?prefix="@.is_prefix_of(list_path_of(Some(key))),
        list_path_of(Some(key)).skip(11) == path_text(key),
{
    reveal_strlit("/kv/");
    reveal_strlit("/kv?prefix=");
    assert(value_path(key).take(4) =~= "/kv/"@);
    assert(value_path(key).skip(4) =~= path_text(key));
    assert(list_path_of(Some(key)).take(11) =~= "/kv?prefix="@);
    assert(list_path_of(Some(key)).skip(11) =~= path_text(key));
    assert(envelope_path(device_id, key) =~= "/api/admin/devices/"@ + device_id + value_path(key));
}

/// The line of a key begins with the whole key, and is nothing else if the key has no scope;
/// if it has one, the whole scope stands behind it in brackets.
pub proof fn law_entry_line<N>(e: KvEntry<N>)
    ensures
        e.key@.is_prefix_of(entry_line(e)),
        e.scope is None ==> entry_line(e) == e.key@,
        e.scope matches Some(scope) ==> {
            let tail = entry_line(e).skip(e.key@.len() as int);
            &&& tail.len() == scope@.len() + 9
            &&& tail.take(8) == " [scope:"@
            &&& tail.subrange(8, (8 + scope@.len()) as int) == scope@
            &&& tail.last() == ']'
        },
{
    reveal_strlit(" [scope:");
    assert(entry_line(e).take(e.key@.len() as int) =~= e.key@);
    if let Some(scope) = e.scope {
        let tail = entry_line(e).skip(e.key@.len() as int);
        assert(tail =~= (" [scope:"@ + scope@).push(']'));
        assert(tail.take(8) =~= " [scope:"@);
        assert(tail.subrange(8, (8 + scope@.len()) as int) =~= scope@);
    }
}

/// A cell of a table is the whole setting, and a dash where there is none.
pub proof fn law_cell(v: Option<String>)
    ensures
        v matches Some(s) ==> cell(v) == s@,
        v is None ==> cell(v) == seq!['-'],
{
    reveal_strlit("-");
    assert(v is None ==> cell(v) =~= seq!['-']);
}

/// The parts of an envelope that is handed out go where they belong: the ephemeral key, the
/// nonce and the wrapped key into the wrap, and nonce, ciphertext and associated data into
/// the body.
pub proof fn law_envelope_parts(response: DeviceKvResponse, private_key: Seq<char>)
    ensures
        response.wrap(private_key).private_key == private_key,
        response.wrap(private_key).ephemeral_pub == response.recipient.ephemeral_pub@,
        response.wrap(private_key).dek_nonce == response.recipient.dek_nonce@,
        response.wrap(private_key).encrypted_dek == response.recipient.encrypted_dek@,
        response.body().nonce == response.nonce@,
        response.body().ciphertext == response.ciphertext@,
        response.body().aad == response.aad@,
{
}

/// The error of a reply is the text of the member `error` of its body, and a body without one
/// names none.
pub proof fn law_error_in(body: Seq<char>, said: Seq<char>)
    ensures
        error_in(body) == Some(said) <==> json_text(body, "error"@) == Some(said),
        error_in(body) is None <==> json_text(body, "error"@) is None,
        error_or(error_in(body), said) == match json_text(body, "error"@) {
            Some(e) => e,
            None => said,
        },
{
}

} // verus!
