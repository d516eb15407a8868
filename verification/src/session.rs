//! Asking for a session, waiting for its approval, and reading its token.

use vstd::prelude::*;
use vstd::utf8::*;
use crate::cipher::x25519_public;
use crate::client::{is_success, succeeded, Client, Failure, Outgoing, Save, Verb};
use crate::crypto::{
    decrypted, device_key, envelope_fits, open_device_kv, opens_for, BodyText, DecryptError,
    DevicePayload, DeviceWrap, WrapText,
};
use crate::encoding::{base64_bytes, text_strict, utf8_error, Utf8Error};
use crate::text::{join2, same_text};
use crate::urlencode::{law_path_is_unambiguous, percent_encoded, urlencode};

verus! {

// ── Session requests ────────────────────────────────────────────────────────
/// Tells that a command stopped because a session awaits approval, and that the
/// operator has already been told what to do.
#[derive(Debug, Clone, Copy)]
pub struct SessionApprovalPending;

impl SessionApprovalPending {
    pub fn message(&self) -> (out: &'static str)
        ensures
            out@ == "session approval required"@,
    {
        "session approval required"
    }
}

/// Why a session is asked for.
#[derive(Debug, Clone, Copy, PartialEq, Eq, Structural)]
pub enum SessionReason {
    NoSession,
    TimedOut,
}

/// The headline above the approval link.
pub open spec fn headline_of(reason: SessionReason) -> Seq<char> {
    match reason {
        SessionReason::TimedOut => "session timed out — please approve a new session:"@,
        SessionReason::NoSession => "no active session — please approve one:"@,
    }
}

/// The headline above the approval link.
pub fn headline(reason: SessionReason) -> (out: &'static str)
    ensures
        out@ == headline_of(reason),
{
    match reason {
        SessionReason::TimedOut => "session timed out — please approve a new session:",
        SessionReason::NoSession => "no active session — please approve one:",
    }
}

/// The body of a request for a session.
pub struct SessionRequestBody {
    pub label: Option<String>,
    pub requested_duration_hours: Option<i64>,
    /// The device that the token will be encrypted for.
    pub device_id: String,
}

/// What is wrong with the answer to a request for a session.
#[derive(Debug, Clone, Copy, PartialEq, Eq, Structural)]
pub enum CreateFailure {
    /// The server does not know the device.
    UnknownDevice,
    /// The server refused for another reason.
    Refused,
}

impl Client {
    /// The request for a session.
    pub fn create_session_request(&self) -> (out: Outgoing)
        ensures
            out.is_request(Verb::Post, self.base_url@ + "/api/session-request"@, None),
    {
        self.http_post_unauthenticated(&join2(&self.base_url, "/api/session-request"))
    }
}

/// Whether a request for a session was accepted.
pub fn session_request_accepted(status: u16) -> (out: Result<(), CreateFailure>)
    ensures
        out == if is_success(status) {
            Ok::<(), CreateFailure>(())
        } else if status == 404 {
            Err(CreateFailure::UnknownDevice)
        } else {
            Err(CreateFailure::Refused)
        },
{
    if succeeded(status) {
        Ok(())
    } else if status == 404 {
        Err(CreateFailure::UnknownDevice)
    } else {
        Err(CreateFailure::Refused)
    }
}

/// The path on which the state of a session request is read.
pub open spec fn session_status_path(id: Seq<char>, poll_secret: Seq<char>) -> Seq<char> {
    "/api/session-request/"@ + percent_encoded(id) + "/status?secret="@ + percent_encoded(
        poll_secret,
    )
}

/// The path on which the state of a session request is read.
pub fn status_path(id: &str, poll_secret: &str) -> (out: String)
    ensures
        out@ == session_status_path(id@, poll_secret@),
{
    let mut out = join2("/api/session-request/", &urlencode(id));
    out.append("/status?secret=");
    out.append(&urlencode(poll_secret));
    out
}

/// Different session requests, and different secrets, have different paths.
pub proof fn law_status_path_is_unambiguous(
    id: Seq<char>,
    poll_secret: Seq<char>,
    other_id: Seq<char>,
    other_secret: Seq<char>,
)
    requires
        session_status_path(id, poll_secret) == session_status_path(other_id, other_secret),
    ensures
        id == other_id,
        poll_secret == other_secret,
{
    reveal_strlit("/status?secret=");
    law_path_is_unambiguous(
        "/api/session-request/"@,
        "/status?secret="@,
        id,
        poll_secret,
        other_id,
        other_secret,
    );
}

/// A session token, encrypted for this client's device.
pub struct Envelope {
    pub nonce: String,
    pub ciphertext: String,
    pub aad: String,
    pub recipient: EnvelopeRecipient,
}

pub struct EnvelopeRecipient {
    pub key_type: String,
    pub ephemeral_pub: String,
    pub dek_nonce: String,
    pub encrypted_dek: String,
}

/// The state of a session request.
pub struct SessionRequestStatus {
    pub status: String,
    /// Present once: on the first poll after the approval.
    pub envelope: Option<Envelope>,
}

/// What a poll of a session request found.
pub enum PollVerdict {
    /// The server does not know the request.
    NotFound,
    /// Nothing decided yet, or an answer that says nothing.
    Waiting,
    /// Approved, with the token.
    Approved(Envelope),
    /// Approved, without a token.
    NoEnvelope,
    /// The token was handed out before.
    Delivered,
    Rejected,
    Expired,
}

/// What the answer to a poll says: its status, and its body where that is the state
/// of a session request.
pub open spec fn verdict_of(code: u16, state: Option<SessionRequestStatus>) -> PollVerdict {
    if code == 404 {
        PollVerdict::NotFound
    } else if code != 200 {
        PollVerdict::Waiting
    } else {
        match state {
            None => PollVerdict::Waiting,
            Some(s) => if s.status@ == "approved"@ {
                match s.envelope {
                    Some(e) => PollVerdict::Approved(e),
                    None => PollVerdict::NoEnvelope,
                }
            } else if s.status@ == "delivered"@ {
                PollVerdict::Delivered
            } else if s.status@ == "rejected"@ {
                PollVerdict::Rejected
            } else if s.status@ == "expired"@ {
                PollVerdict::Expired
            } else {
                PollVerdict::Waiting
            },
        }
    }
}

/// What the answer to a poll says.
pub fn poll_verdict(code: u16, state: Option<SessionRequestStatus>) -> (out: PollVerdict)
    ensures
        out == verdict_of(code, state),
{
    if code == 404 {
        return PollVerdict::NotFound;
    }
    if code != 200 {
        return PollVerdict::Waiting;
    }
    match state {
        None => PollVerdict::Waiting,
        Some(s) => {
            if same_text(&s.status, "approved") {
                match s.envelope {
                    Some(e) => PollVerdict::Approved(e),
                    None => PollVerdict::NoEnvelope,
                }
            } else if same_text(&s.status, "delivered") {
                PollVerdict::Delivered
            } else if same_text(&s.status, "rejected") {
                PollVerdict::Rejected
            } else if same_text(&s.status, "expired") {
                PollVerdict::Expired
            } else {
                PollVerdict::Waiting
            }
        },
    }
}

/// Why the token in an envelope could not be read.
#[derive(Debug, Clone, Copy, PartialEq, Eq, Structural)]
pub enum EnvelopeError {
    /// The envelope is for a key of another type than this client's.
    KeyType,
    /// A key or a nonce in the envelope does not have the length that the cipher
    /// takes.
    Malformed,
    Decrypt(DecryptError),
    /// The plaintext is not UTF-8.
    NotUtf8(Utf8Error),
}

impl Envelope {
    /// The wrapped key of the envelope, with the private key to open it.
    pub open spec fn wrap(self, private_key: Seq<char>) -> WrapText {
        WrapText {
            private_key,
            ephemeral_pub: self.recipient.ephemeral_pub@,
            dek_nonce: self.recipient.dek_nonce@,
            encrypted_dek: self.recipient.encrypted_dek@,
        }
    }

    /// The body of the envelope.
    pub open spec fn body(self) -> BodyText {
        BodyText { nonce: self.nonce@, ciphertext: self.ciphertext@, aad: self.aad@ }
    }

    /// The text that the envelope holds for the owner of the private key.
    pub open spec fn content(self, private_key: Seq<char>) -> Result<Seq<char>, EnvelopeError> {
        if self.recipient.key_type@ != "x25519"@ {
            Err(EnvelopeError::KeyType)
        } else if !envelope_fits(self.wrap(private_key), self.body()) {
            Err(EnvelopeError::Malformed)
        } else {
            match decrypted(self.wrap(private_key), self.body()) {
                Err(e) => Err(EnvelopeError::Decrypt(e)),
                Ok(plaintext) => if valid_utf8(plaintext) {
                    Ok(decode_utf8(plaintext))
                } else {
                    Err(EnvelopeError::NotUtf8(utf8_error(plaintext)))
                },
            }
        }
    }

    /// Whether the envelope is for a key of this client's type.
    pub fn is_for_x25519(&self) -> (r: bool)
        ensures
            r == (self.recipient.key_type@ == "x25519"@),
    {
        same_text(&self.recipient.key_type, "x25519")
    }
}

/// Opens an envelope with the private key of this client's device.
pub fn decrypt_envelope(envelope: &Envelope, private_key_b64: &str) -> (out: Result<
    String,
    EnvelopeError,
>)
    ensures
        match out {
            Ok(s) => envelope.content(private_key_b64@) == Ok::<Seq<char>, EnvelopeError>(s@),
            Err(e) => envelope.content(private_key_b64@) == Err::<Seq<char>, EnvelopeError>(e),
        },
{
    if !envelope.is_for_x25519() {
        return Err(EnvelopeError::KeyType);
    }
    match open_device_kv(
        private_key_b64,
        &envelope.recipient.ephemeral_pub,
        &envelope.recipient.dek_nonce,
        &envelope.recipient.encrypted_dek,
        &envelope.nonce,
        &envelope.ciphertext,
        &envelope.aad,
    ) {
        None => Err(EnvelopeError::Malformed),
        Some(Err(e)) => Err(EnvelopeError::Decrypt(e)),
        Some(Ok(plaintext)) => match text_strict(plaintext) {
            Ok(s) => Ok(s),
            Err(e) => Err(EnvelopeError::NotUtf8(e)),
        },
    }
}

/// A token that was encrypted for this client's device is what its envelope holds.
pub proof fn law_sealed_token_is_read(
    token: Seq<char>,
    payload: DevicePayload,
    wrap: DeviceWrap,
    public_key: Seq<char>,
    private_key: Seq<char>,
    envelope: Envelope,
)
    requires
        opens_for(wrap, payload, public_key, encode_utf8(token)),
        device_key(private_key) matches Ok(secret) && base64_bytes(public_key) == Some(
            x25519_public(secret),
        ),
        envelope.recipient.key_type@ == "x25519"@,
        envelope.recipient.ephemeral_pub@ == wrap.ephemeral_pub@,
        envelope.recipient.dek_nonce@ == wrap.dek_nonce@,
        envelope.recipient.encrypted_dek@ == wrap.encrypted_dek@,
        envelope.body() == (BodyText {
            nonce: payload.nonce@,
            ciphertext: payload.ciphertext@,
            aad: payload.aad@,
        }),
    ensures
        envelope.content(private_key) == Ok::<Seq<char>, EnvelopeError>(token),
{
    encode_utf8_valid_utf8(token);
    encode_utf8_decode_utf8(token);
}

/// The result of polling a session request once.
pub enum ClaimOutcome {
    /// Approved, and the token read.
    Claimed(String),
    StillPending,
    /// Nothing will come of the request any more.
    Dead,
}

/// What a single poll leads to.
pub enum PollOnce {
    Outcome(ClaimOutcome),
    /// Open this envelope; its content is the claimed token.
    Open(Envelope),
    /// The server approved but sent no token.
    NoEnvelope,
}

/// What a single poll leads to.
pub open spec fn poll_once_of(verdict: PollVerdict) -> PollOnce {
    match verdict {
        PollVerdict::Approved(e) => PollOnce::Open(e),
        PollVerdict::NoEnvelope => PollOnce::NoEnvelope,
        PollVerdict::Waiting => PollOnce::Outcome(ClaimOutcome::StillPending),
        PollVerdict::NotFound | PollVerdict::Delivered | PollVerdict::Rejected
        | PollVerdict::Expired => PollOnce::Outcome(ClaimOutcome::Dead),
    }
}

/// What the answer to a single poll leads to.
pub fn poll_session_once(code: u16, state: Option<SessionRequestStatus>) -> (out: PollOnce)
    ensures
        out == poll_once_of(verdict_of(code, state)),
{
    match poll_verdict(code, state) {
        PollVerdict::Approved(e) => PollOnce::Open(e),
        PollVerdict::NoEnvelope => PollOnce::NoEnvelope,
        PollVerdict::Waiting => PollOnce::Outcome(ClaimOutcome::StillPending),
        PollVerdict::NotFound => PollOnce::Outcome(ClaimOutcome::Dead),
        PollVerdict::Delivered => PollOnce::Outcome(ClaimOutcome::Dead),
        PollVerdict::Rejected => PollOnce::Outcome(ClaimOutcome::Dead),
        PollVerdict::Expired => PollOnce::Outcome(ClaimOutcome::Dead),
    }
}

impl Client {
    /// The device that a session token is encrypted for: the given one, or else the
    /// one of the settings.
    pub open spec fn session_device(self, device_override: Option<String>) -> Option<String> {
        match device_override {
            Some(d) => Some(d),
            None => self.cfg.device_id,
        }
    }

    /// The device that a session token is encrypted for.
    pub fn resolve_device_id(&self, device_override: Option<String>) -> (out: Result<
        String,
        Failure,
    >)
        ensures
            match out {
                Ok(d) => self.session_device(device_override) == Some(d),
                Err(e) => e == Failure::NoDevice && self.session_device(device_override) is None,
            },
    {
        match device_override {
            Some(d) => Ok(d),
            None => match &self.cfg.device_id {
                Some(d) => Ok(d.clone()),
                None => Err(Failure::NoDevice),
            },
        }
    }
}

// ── Waiting for a session ───────────────────────────────────────────────────
/// Why waiting for a session ended without one.
#[derive(Debug, Clone, Copy, PartialEq, Eq, Structural)]
pub enum AcquireFailure {
    NotFound,
    NoEnvelope,
    Delivered,
    Rejected,
    Expired,
}

/// What waiting for a session does next.
pub enum AcquireStep {
    /// Poll again after five seconds.
    Wait,
    /// Open this envelope; its content is the token.
    Open(Envelope),
    Fail(AcquireFailure),
}

/// What a poll means to who waits for the session.
pub open spec fn acquire_step_of(verdict: PollVerdict) -> AcquireStep {
    match verdict {
        PollVerdict::Waiting => AcquireStep::Wait,
        PollVerdict::Approved(e) => AcquireStep::Open(e),
        PollVerdict::NotFound => AcquireStep::Fail(AcquireFailure::NotFound),
        PollVerdict::NoEnvelope => AcquireStep::Fail(AcquireFailure::NoEnvelope),
        PollVerdict::Delivered => AcquireStep::Fail(AcquireFailure::Delivered),
        PollVerdict::Rejected => AcquireStep::Fail(AcquireFailure::Rejected),
        PollVerdict::Expired => AcquireStep::Fail(AcquireFailure::Expired),
    }
}

/// Takes the answer to a poll while waiting for a session.
pub fn acquire_polled(code: u16, state: Option<SessionRequestStatus>) -> (out: AcquireStep)
    ensures
        out == acquire_step_of(verdict_of(code, state)),
{
    match poll_verdict(code, state) {
        PollVerdict::Waiting => AcquireStep::Wait,
        PollVerdict::Approved(e) => AcquireStep::Open(e),
        PollVerdict::NotFound => AcquireStep::Fail(AcquireFailure::NotFound),
        PollVerdict::NoEnvelope => AcquireStep::Fail(AcquireFailure::NoEnvelope),
        PollVerdict::Delivered => AcquireStep::Fail(AcquireFailure::Delivered),
        PollVerdict::Rejected => AcquireStep::Fail(AcquireFailure::Rejected),
        PollVerdict::Expired => AcquireStep::Fail(AcquireFailure::Expired),
    }
}

impl Client {
    /// Begins to wait for a session: the request to make.
    pub fn acquire_session_token(
        &self,
        label: Option<String>,
        duration_hours: Option<i64>,
        device_override: Option<String>,
    ) -> (out: Result<SessionRequestBody, Failure>)
        ensures
            match out {
                Ok(body) => {
                    &&& self.session_device(device_override) == Some(body.device_id)
                    &&& body.label == label
                    &&& body.requested_duration_hours == duration_hours
                },
                Err(e) => e == Failure::NoDevice && self.session_device(device_override) is None,
            },
    {
        match self.resolve_device_id(device_override) {
            Ok(device_id) => Ok(
                SessionRequestBody { label, requested_duration_hours: duration_hours, device_id },
            ),
            Err(e) => Err(e),
        }
    }

    /// Takes the token that waiting for a session gave.
    pub fn session_acquired(&mut self, token: String) -> (save: Save)
        ensures
            *final(self) == old(self).with_token(token),
            save == Save::Required,
    {
        self.cfg.session_token = Some(token);
        Save::Required
    }
}

/// Who waits for a session and who polls once agree: what opens for the one opens
/// for the other, and what is dead for the one fails for the other.
pub proof fn law_polls_agree(code: u16, state: Option<SessionRequestStatus>)
    ensures
        ({
            let once = poll_once_of(verdict_of(code, state));
            let wait = acquire_step_of(verdict_of(code, state));
            &&& once is Open <==> wait is Open
            &&& once is Open ==> once->Open_0 == wait->Open_0
            &&& wait is Wait <==> once == PollOnce::Outcome(ClaimOutcome::StillPending)
            &&& once == PollOnce::Outcome(ClaimOutcome::Dead) ==> wait is Fail
        }),
{
}

// ── What a poll says ────────────────────────────────────────────────────────
/// A session request is unknown if the server says so (404). Only a reply of 200 whose body is
/// a state decides anything: `approved` hands over the envelope in it, and only that word does;
/// `delivered`, `rejected` and `expired` end the wait; and every other reply leaves it
/// undecided.
pub proof fn law_poll(code: u16, state: Option<SessionRequestStatus>)
    ensures
        ({
            let verdict = verdict_of(code, state);
            let said = |word: Seq<char>| code == 200 && state is Some && state->0.status@ == word;
            &&& verdict is NotFound <==> code == 404
            &&& verdict is Approved <==> said("approved"@) && state->0.envelope is Some
            &&& verdict matches PollVerdict::Approved(e) ==> state->0.envelope == Some(e)
            &&& verdict is NoEnvelope <==> said("approved"@) && state->0.envelope is None
            &&& verdict is Delivered <==> said("delivered"@)
            &&& verdict is Rejected <==> said("rejected"@)
            &&& verdict is Expired <==> said("expired"@)
            &&& verdict is Waiting <==> code != 404 && !said("approved"@) && !said("delivered"@)
                && !said("rejected"@) && !said("expired"@)
        }),
{
    reveal_strlit("approved");
    reveal_strlit("delivered");
    reveal_strlit("rejected");
    reveal_strlit("expired");
    assert("approved"@[0] == 'a' && "delivered"@[0] == 'd' && "rejected"@[0] == 'r'
        && "expired"@[0] == 'e');
}

/// What follows a poll. An approval is opened, by who waits and by who polls once. Who waits
/// goes on while nothing is decided, and fails otherwise, each decision with its own reason; to
/// who polls once an undecided request is pending, and one that is unknown, delivered, rejected
/// or expired is dead.
pub proof fn law_after_poll(verdict: PollVerdict)
    ensures
        match acquire_step_of(verdict) {
            AcquireStep::Wait => verdict is Waiting,
            AcquireStep::Open(e) => verdict == PollVerdict::Approved(e),
            AcquireStep::Fail(AcquireFailure::NotFound) => verdict is NotFound,
            AcquireStep::Fail(AcquireFailure::NoEnvelope) => verdict is NoEnvelope,
            AcquireStep::Fail(AcquireFailure::Delivered) => verdict is Delivered,
            AcquireStep::Fail(AcquireFailure::Rejected) => verdict is Rejected,
            AcquireStep::Fail(AcquireFailure::Expired) => verdict is Expired,
        },
        match poll_once_of(verdict) {
            PollOnce::Open(e) => verdict == PollVerdict::Approved(e),
            PollOnce::NoEnvelope => verdict is NoEnvelope,
            PollOnce::Outcome(ClaimOutcome::StillPending) => verdict is Waiting,
            PollOnce::Outcome(ClaimOutcome::Dead) => verdict is NotFound || verdict is Delivered
                || verdict is Rejected || verdict is Expired,
            PollOnce::Outcome(ClaimOutcome::Claimed(_)) => false,
        },
{
}

/// The headline tells a session that timed out from one that never was.
pub proof fn law_headlines(reason: SessionReason)
    ensures
        reason == SessionReason::TimedOut <==> "session timed out"@.is_prefix_of(
            headline_of(reason),
        ),
        reason == SessionReason::NoSession <==> "no active session"@.is_prefix_of(
            headline_of(reason),
        ),
        reason == SessionReason::TimedOut <==> headline_of(reason)
            == "session timed out — please approve a new session:"@,
        reason == SessionReason::NoSession <==> headline_of(reason)
            == "no active session — please approve one:"@,
{
    reveal_strlit("session timed out — please approve a new session:");
    reveal_strlit("no active session — please approve one:");
    reveal_strlit("session timed out");
    reveal_strlit("no active session");
    let out = headline_of(SessionReason::TimedOut);
    assert(out.take(17) =~= "session timed out"@);
    assert(out[0] == 's' && "no active session"@[0] == 'n');
    let out = headline_of(SessionReason::NoSession);
    assert(out.take(17) =~= "no active session"@);
    assert(out[0] == 'n' && "session timed out"@[0] == 's');
}

/// The path on which a session request is polled begins with a fixed part, behind which its
/// number is encoded; and it ends with the encoded secret.
pub proof fn law_status_path(id: Seq<char>, poll_secret: Seq<char>)
    ensures
        session_status_path(id, poll_secret).take(21) == "/api/session-request/"@,
        percent_encoded(id).is_prefix_of(session_status_path(id, poll_secret).skip(21)),
        session_status_path(id, poll_secret).skip(21 + percent_encoded(id).len() as int)
            == "/status?secret="@ + percent_encoded(poll_secret),
{
    reveal_strlit("/api/session-request/");
    let path = session_status_path(id, poll_secret);
    let e = percent_encoded(id);
    assert(path.take(21) =~= "/api/session-request/"@);
    assert(path.skip(21).take(e.len() as int) =~= e);
    assert(path.skip(21 + e.len() as int) =~= "/status?secret="@ + percent_encoded(poll_secret));
}

/// The device that is given goes before the one in the settings.
pub proof fn law_session_device(client: Client, given: String)
    ensures
        client.session_device(Some(given)) == Some(given),
        client.session_device(None) == client.cfg.device_id,
{
}

/// A token that is read from an envelope is the text whose UTF-8 the envelope holds for a key
/// of this client's type. An envelope for another type is not opened at all.
pub proof fn law_token_is_the_plaintext(envelope: Envelope, private_key: Seq<char>)
    ensures
        match envelope.content(private_key) {
            Ok(text) => {
                &&& envelope.recipient.key_type@ == "x25519"@
                &&& envelope_fits(envelope.wrap(private_key), envelope.body())
                &&& decrypted(envelope.wrap(private_key), envelope.body()) == Ok::<
                    Seq<u8>,
                    DecryptError,
                >(encode_utf8(text))
            },
            Err(EnvelopeError::KeyType) => envelope.recipient.key_type@ != "x25519"@,
            Err(EnvelopeError::Malformed) => !envelope_fits(
                envelope.wrap(private_key),
                envelope.body(),
            ),
            Err(EnvelopeError::Decrypt(e)) => decrypted(
                envelope.wrap(private_key),
                envelope.body(),
            ) == Err::<Seq<u8>, DecryptError>(e),
            Err(EnvelopeError::NotUtf8(e)) => decrypted(
                envelope.wrap(private_key),
                envelope.body(),
            ) matches Ok(p) && !valid_utf8(p) && e == utf8_error(p),
        },
        envelope.content(private_key) == Err::<Seq<char>, EnvelopeError>(EnvelopeError::KeyType)
            <==> envelope.recipient.key_type@ != "x25519"@,
{
    if let Ok(p) = decrypted(envelope.wrap(private_key), envelope.body()) {
        if valid_utf8(p) {
            decode_utf8_encode_utf8(p);
        }
    }
}

/// The parts of an envelope go where they belong: the ephemeral key, the nonce and the wrapped
/// key into the wrap, and nonce, ciphertext and associated data into the body.
pub proof fn law_token_envelope_parts(envelope: Envelope, private_key: Seq<char>)
    ensures
        envelope.wrap(private_key).private_key == private_key,
        envelope.wrap(private_key).ephemeral_pub == envelope.recipient.ephemeral_pub@,
        envelope.wrap(private_key).dek_nonce == envelope.recipient.dek_nonce@,
        envelope.wrap(private_key).encrypted_dek == envelope.recipient.encrypted_dek@,
        envelope.body().nonce == envelope.nonce@,
        envelope.body().ciphertext == envelope.ciphertext@,
        envelope.body().aad == envelope.aad@,
{
}

} // verus!
