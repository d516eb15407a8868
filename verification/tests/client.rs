//! Sessions and requests.

use base64::engine::general_purpose::STANDARD;
use base64::Engine;
use kv_cli::bearer::{BearerStep, Notice, SendStage};
use kv_cli::client::{Client, Failure, Reply, Save, Verb};
use kv_cli::encoding::Utf8Error;
use kv_cli::session::{
    acquire_polled, decrypt_envelope, headline, poll_session_once, session_request_accepted,
    status_path, AcquireFailure, AcquireStep, ClaimOutcome, CreateFailure, Envelope, EnvelopeError,
    EnvelopeRecipient, PollOnce, SessionApprovalPending, SessionReason, SessionRequestStatus,
};
use kv_cli::commands::device::public_key_b64;
use kv_cli::config::{Config, PendingSessionRequest};
use kv_cli::crypto::{encrypt_for_devices, DecryptError, Recipient};

fn client(token: Option<&str>, pending: bool, device: bool, silent: bool) -> Client {
    let cfg = Config {
        session_token: token.map(|t| t.to_string()),
        device_id: if device { Some("dev-1".to_string()) } else { None },
        pending_session_request: if pending { Some(request("old")) } else { None },
        ..Config::default()
    };
    Client::new(cfg, None, silent)
}

fn request(id: &str) -> PendingSessionRequest {
    PendingSessionRequest {
        id: id.to_string(),
        poll_secret: "ps".to_string(),
        url: format!("https://kv.osmosis.page/approve/{id}"),
        expires_at: "soon".to_string(),
    }
}

fn envelope(plaintext: &[u8]) -> (Envelope, String) {
    let secret: Vec<u8> = (1u8..33).collect();
    let device = Recipient {
        device_id: "dev-1".to_string(),
        key_type: "x25519".to_string(),
        public_key: public_key_b64(&secret),
    };
    let Ok(p) = encrypt_for_devices("session", plaintext, &vec![device]) else {
        panic!("the device can be encrypted for");
    };
    let w = &p.recipients[0];
    let e = Envelope {
        nonce: p.nonce.clone(),
        ciphertext: p.ciphertext.clone(),
        aad: p.aad.clone(),
        recipient: EnvelopeRecipient {
            key_type: w.key_type.clone(),
            ephemeral_pub: w.ephemeral_pub.clone(),
            dek_nonce: w.dek_nonce.clone(),
            encrypted_dek: w.encrypted_dek.clone(),
        },
    };
    (e, STANDARD.encode(&secret))
}

fn state(status: &str, with_envelope: bool) -> Option<SessionRequestStatus> {
    Some(SessionRequestStatus {
        status: status.to_string(),
        envelope: if with_envelope { Some(envelope(b"tok").0) } else { None },
    })
}

#[test]
fn the_address_loses_its_slashes() {
    let c = Client::new(Config::default(), Some("http://localhost:8080//".to_string()), false);
    assert_eq!(c.base_url, "http://localhost:8080");
    assert!(!c.in_cleartext());
    let c = Client::new(Config::default(), None, true);
    assert_eq!(c.base_url, "https://kv.osmosis.page");
    assert!(c.silent);
    assert!(!c.in_cleartext());
    let cfg = Config { base_url: Some("http://kv.example/".to_string()), ..Config::default() };
    assert_eq!(cfg.base_url(), "http://kv.example/");
    let c = Client::new(cfg, None, false);
    assert_eq!(c.base_url, "http://kv.example");
    assert!(c.in_cleartext());
    let c = Client::new(Config::default(), Some("http://127.0.0.1:3000".to_string()), false);
    assert!(!c.in_cleartext());
}

#[test]
fn requests_carry_their_credentials() {
    let c = client(Some("tok"), false, false, false);
    let r = c.send_with_auth(Verb::Put, "/kv/a");
    assert_eq!(r.verb, Verb::Put);
    assert_eq!(r.url, "https://kv.osmosis.page/kv/a");
    assert_eq!(r.header, Some(("Authorization".to_string(), "Bearer tok".to_string())));
    let r = client(None, false, false, false).send_with_auth(Verb::Get, "/kv");
    assert_eq!(r.header, None);
    let r = c.send_unauthenticated(Verb::Get, "/x");
    assert_eq!(r.header, None);
    assert_eq!(r.url, "https://kv.osmosis.page/x");
    let r = c.get_with_api_key("/kv/a", "k");
    assert_eq!(r.verb, Verb::Get);
    assert_eq!(r.header, Some(("X-Api-Key".to_string(), "k".to_string())));
    let r = c.post_with_api_key("/kv/request-access", "k");
    assert_eq!(r.verb, Verb::Post);
    assert_eq!(r.header, Some(("X-Api-Key".to_string(), "k".to_string())));
    let r = c.create_session_request();
    assert_eq!(r.verb, Verb::Post);
    assert_eq!(r.url, "https://kv.osmosis.page/api/session-request");
    assert_eq!(r.header, None);
    let r = c.http_post_unauthenticated("https://elsewhere/x");
    assert_eq!(r.url, "https://elsewhere/x");
}

#[test]
fn success_is_a_status_in_the_two_hundreds() {
    for (status, good) in [(199, false), (200, true), (204, true), (299, true), (300, false), (404, false)] {
        let reply = Reply { status, body: "b".to_string() };
        match Client::expect_success(reply) {
            Ok(body) => assert!(good && body == "b"),
            Err(r) => assert!(!good && r.status == status && r.body == "b"),
        }
    }
}

#[test]
fn a_session_is_valid_unless_refused() {
    let c = client(Some("tok"), false, false, false);
    assert!(c.session_probe().is_some());
    assert!(c.is_session_valid(Some(200)));
    assert!(c.is_session_valid(Some(500)));
    assert!(!c.is_session_valid(Some(401)));
    assert!(!c.is_session_valid(None));
    let c = client(None, false, false, false);
    assert!(c.session_probe().is_none());
    assert!(!c.is_session_valid(Some(200)));
}

#[test]
fn a_silent_client_never_escalates() {
    let c = client(None, true, true, true);
    assert!(matches!(c.request_bearer(), BearerStep::Fail(Failure::NoSessionToken)));
    let mut c = client(Some("tok"), true, true, true);
    assert!(matches!(c.request_bearer(), BearerStep::Send(SendStage::Silent)));
    let t = c.bearer_replied(SendStage::Silent, 401);
    assert!(matches!(t.step, BearerStep::Fail(Failure::SessionTimedOut)));
    assert_eq!(t.save, Save::Keep);
    assert_eq!(c.cfg.session_token, Some("tok".to_string()));
    let t = c.bearer_replied(SendStage::Silent, 200);
    assert!(matches!(t.step, BearerStep::Finish));
}

#[test]
fn a_good_token_answers_at_once() {
    let mut c = client(Some("tok"), false, false, false);
    assert!(matches!(c.request_bearer(), BearerStep::Send(SendStage::First)));
    let t = c.bearer_replied(SendStage::First, 404);
    assert!(matches!(t.step, BearerStep::Finish));
    assert_eq!(t.save, Save::Keep);
}

#[test]
fn a_stale_token_is_dropped_and_a_session_asked_for() {
    let mut c = client(Some("tok"), false, true, false);
    let t = c.bearer_replied(SendStage::First, 401);
    assert_eq!(t.save, Save::BestEffort);
    assert_eq!(c.cfg.session_token, None);
    let BearerStep::Create(reason, body) = t.step else {
        panic!("a session is asked for");
    };
    assert_eq!(reason, SessionReason::TimedOut);
    assert_eq!(body.device_id, "dev-1");
    assert_eq!(body.label, None);
    assert_eq!(body.requested_duration_hours, None);

    let t = c.bearer_created(reason, request("new"));
    assert_eq!(t.save, Save::Required);
    let BearerStep::Await(Notice::Requested { reason, url, expires_at }) = t.step else {
        panic!("the approval is awaited");
    };
    assert_eq!(reason, SessionReason::TimedOut);
    assert_eq!(url, "https://kv.osmosis.page/approve/new");
    assert_eq!(expires_at, "soon");

    // The next run claims that session.
    let BearerStep::Claim(SessionReason::NoSession, pending) = c.request_bearer() else {
        panic!("the session is claimed");
    };
    assert_eq!(pending.id, "new");
    let t = c.bearer_claimed(
        SessionReason::NoSession,
        pending,
        ClaimOutcome::Claimed("fresh".to_string()),
    );
    assert_eq!(t.save, Save::Required);
    assert!(matches!(t.step, BearerStep::Send(SendStage::First)));
    assert_eq!(c.cfg.session_token, Some("fresh".to_string()));
    assert!(c.cfg.pending_session_request.is_none());
}

#[test]
fn a_pending_session_is_claimed_after_a_stale_token() {
    let mut c = client(Some("tok"), true, true, false);
    let t = c.bearer_replied(SendStage::First, 401);
    let BearerStep::Claim(reason, pending) = t.step else {
        panic!("the session is claimed");
    };
    assert_eq!(reason, SessionReason::TimedOut);
    let t = c.bearer_claimed(reason, pending, ClaimOutcome::Claimed("fresh".to_string()));
    assert!(matches!(t.step, BearerStep::Send(SendStage::Second)));
    let t = c.bearer_replied(SendStage::Second, 401);
    assert!(matches!(t.step, BearerStep::Fail(Failure::AuthenticationFailed)));
    assert_eq!(c.cfg.session_token, Some("fresh".to_string()));
}

#[test]
fn an_undecided_session_is_awaited() {
    let mut c = client(None, true, true, false);
    let BearerStep::Claim(reason, pending) = c.request_bearer() else {
        panic!("the session is claimed");
    };
    let t = c.bearer_claimed(reason, pending, ClaimOutcome::StillPending);
    assert_eq!(t.save, Save::Keep);
    let BearerStep::Await(Notice::StillPending { url }) = t.step else {
        panic!("the approval is awaited");
    };
    assert_eq!(url, "https://kv.osmosis.page/approve/old");
    assert!(c.cfg.pending_session_request.is_some());
}

#[test]
fn a_dead_session_is_replaced() {
    let mut c = client(None, true, true, false);
    let t = c.bearer_claimed(SessionReason::NoSession, request("old"), ClaimOutcome::Dead);
    assert_eq!(t.save, Save::Required);
    assert!(c.cfg.pending_session_request.is_none());
    assert!(matches!(t.step, BearerStep::Create(SessionReason::NoSession, _)));
}

#[test]
fn without_a_device_no_session_is_asked_for() {
    let c = client(None, false, false, false);
    assert!(matches!(c.request_bearer(), BearerStep::Fail(Failure::NoDevice)));
    assert_eq!(c.resolve_device_id(None), Err(Failure::NoDevice));
    assert_eq!(c.resolve_device_id(Some("d".to_string())), Ok("d".to_string()));
    let c = client(None, false, true, false);
    assert_eq!(c.resolve_device_id(None), Ok("dev-1".to_string()));
    assert_eq!(c.resolve_device_id(Some("d".to_string())), Ok("d".to_string()));
}

#[test]
fn a_session_token_is_tried_without_asking() {
    let c = client(None, false, false, false);
    assert!(c.try_bearer_silent(Verb::Get, "/kv/a").is_none());
    let mut c = client(Some("tok"), false, false, false);
    assert!(c.try_bearer_silent(Verb::Get, "/kv/a").is_some());
    let (save, reply) = c.bearer_silent_replied(Reply { status: 403, body: "no".to_string() });
    assert_eq!(save, Save::Keep);
    assert_eq!(reply.map(|r| r.status), Some(403));
    assert!(c.cfg.session_token.is_some());
    let (save, reply) = c.bearer_silent_replied(Reply { status: 401, body: "no".to_string() });
    assert_eq!(save, Save::BestEffort);
    assert!(reply.is_none());
    assert!(c.cfg.session_token.is_none());
}

#[test]
fn one_poll_sorts_the_states() {
    for (code, status) in [(200, "delivered"), (200, "rejected"), (200, "expired"), (404, "approved")] {
        assert!(matches!(
            poll_session_once(code, state(status, true)),
            PollOnce::Outcome(ClaimOutcome::Dead)
        ));
    }
    assert!(matches!(
        poll_session_once(200, state("pending", false)),
        PollOnce::Outcome(ClaimOutcome::StillPending)
    ));
    assert!(matches!(
        poll_session_once(500, state("approved", true)),
        PollOnce::Outcome(ClaimOutcome::StillPending)
    ));
    assert!(matches!(
        poll_session_once(200, None),
        PollOnce::Outcome(ClaimOutcome::StillPending)
    ));
    assert!(matches!(poll_session_once(200, state("approved", true)), PollOnce::Open(_)));
    assert!(matches!(poll_session_once(200, state("approved", false)), PollOnce::NoEnvelope));
}

#[test]
fn waiting_sorts_the_states() {
    assert!(matches!(acquire_polled(200, state("approved", true)), AcquireStep::Open(_)));
    assert!(matches!(acquire_polled(200, state("pending", false)), AcquireStep::Wait));
    assert!(matches!(acquire_polled(503, None), AcquireStep::Wait));
    for (code, status, failure) in [
        (404, "approved", AcquireFailure::NotFound),
        (200, "approved", AcquireFailure::NoEnvelope),
        (200, "delivered", AcquireFailure::Delivered),
        (200, "rejected", AcquireFailure::Rejected),
        (200, "expired", AcquireFailure::Expired),
    ] {
        let AcquireStep::Fail(f) = acquire_polled(code, state(status, false)) else {
            panic!("the wait is over");
        };
        assert_eq!(f, failure);
    }
}

#[test]
fn waiting_for_a_session_asks_and_keeps_the_token() {
    let mut c = client(None, true, true, false);
    let Ok(body) = c.acquire_session_token(Some("ci".to_string()), Some(168), None) else {
        panic!("there is a device");
    };
    assert_eq!(body.label, Some("ci".to_string()));
    assert_eq!(body.requested_duration_hours, Some(168));
    assert_eq!(body.device_id, "dev-1");
    assert_eq!(c.session_acquired("tok".to_string()), Save::Required);
    assert_eq!(c.cfg.session_token, Some("tok".to_string()));
    assert!(c.cfg.pending_session_request.is_some());
    let none = client(None, false, false, false);
    assert_eq!(none.acquire_session_token(None, None, None).err(), Some(Failure::NoDevice));
}

#[test]
fn the_status_path_is_encoded() {
    assert_eq!(
        status_path("a/b", "s&x=1"),
        "/api/session-request/a%2Fb/status?secret=s%26x%3D1"
    );
}

#[test]
fn no_id_passes_for_another_request() {
    let paths = [
        status_path("a", "b"),
        status_path("a/status?secret=b", ""),
        status_path("a", "b/status?secret="),
        status_path("", "a/status?secret=b"),
        status_path("a%2F", "b"),
        status_path("a/", "b"),
    ];
    for (i, a) in paths.iter().enumerate() {
        for (j, b) in paths.iter().enumerate() {
            assert_eq!(i == j, a == b);
        }
    }
}

#[test]
fn the_answer_to_a_session_request_is_sorted() {
    assert_eq!(session_request_accepted(201), Ok(()));
    assert_eq!(session_request_accepted(404), Err(CreateFailure::UnknownDevice));
    assert_eq!(session_request_accepted(500), Err(CreateFailure::Refused));
}

#[test]
fn an_envelope_gives_the_token() {
    let (e, key) = envelope(b"tok-123");
    assert!(e.is_for_x25519());
    assert_eq!(decrypt_envelope(&e, &key), Ok("tok-123".to_string()));
    let other = STANDARD.encode([5u8; 32]);
    assert_eq!(
        decrypt_envelope(&e, &other),
        Err(EnvelopeError::Decrypt(DecryptError::DekDecryption))
    );
}

#[test]
fn an_envelope_that_cannot_be_read_says_why() {
    let (mut e, key) = envelope(b"tok");
    e.recipient.key_type = "p256".to_string();
    assert!(!e.is_for_x25519());
    assert_eq!(decrypt_envelope(&e, &key), Err(EnvelopeError::KeyType));
    let (mut e, key) = envelope(b"tok");
    e.nonce = "aGk=".to_string();
    assert_eq!(decrypt_envelope(&e, &key), Err(EnvelopeError::Malformed));
    let (e, key) = envelope(&[0xff, 0xfe]);
    assert_eq!(decrypt_envelope(&e, &key), Err(EnvelopeError::NotUtf8(Utf8Error::Invalid(0, 1))));
}

#[test]
fn messages_of_the_session() {
    assert_eq!(SessionApprovalPending.message(), "session approval required");
    assert_eq!(
        headline(SessionReason::TimedOut),
        "session timed out — please approve a new session:"
    );
    assert_eq!(headline(SessionReason::NoSession), "no active session — please approve one:");
}
