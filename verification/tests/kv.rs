//! Reading and writing values.

use base64::engine::general_purpose::STANDARD;
use base64::Engine;
use kv_cli::client::{Client, Reply, Save, Verb};
use kv_cli::commands::device::public_key_b64;
use kv_cli::commands::kv::{
    access_requested, approval_polled, call_request_access, device_write_call, entry_lines,
    envelope_call, envelope_read, error_member, fetch_and_decrypt, get, get_api_key_decided,
    get_api_key_replied, get_ended, get_session_decided, get_session_replied,
    get_try_session_decided, get_try_session_replied, get_with_token, get_with_token_decided,
    open_value, opt_str, pick_key, set_device_encrypted, ApprovalPoll, DeviceKvRecipient,
    DeviceKvResponse, DeviceKvWriteRequest, DeviceSetError, GetError, GetFailure, GetStep, KvEntry,
    SessionUse, SetStep, TokenStep,
};
use kv_cli::config::Config;
use kv_cli::crypto::{DecryptError, EncryptError};
use kv_cli::recipients::{device_lines, DeviceListEntry};
use kv_cli::secret_display::{Gate, RevealError, SecretDisplay};

fn client(api_key: Option<&str>, token: Option<&str>, silent: bool) -> Client {
    let cfg = Config {
        api_key: api_key.map(|s| s.to_string()),
        session_token: token.map(|s| s.to_string()),
        ..Config::default()
    };
    Client::new(cfg, None, silent)
}

fn reply(status: u16, body: &str) -> Reply {
    Reply { status, body: body.to_string() }
}

fn device(id: &str, name: &str, secret: &Vec<u8>) -> DeviceListEntry {
    DeviceListEntry {
        id: id.to_string(),
        name: name.to_string(),
        key_type: "x25519".to_string(),
        public_key: public_key_b64(secret),
    }
}

fn handed_out(w: &DeviceKvWriteRequest, k: usize) -> DeviceKvResponse {
    let r = &w.payload.recipients[k];
    DeviceKvResponse {
        nonce: w.payload.nonce.clone(),
        ciphertext: w.payload.ciphertext.clone(),
        aad: w.payload.aad.clone(),
        recipient: DeviceKvRecipient {
            ephemeral_pub: r.ephemeral_pub.clone(),
            dek_nonce: r.dek_nonce.clone(),
            encrypted_dek: r.encrypted_dek.clone(),
        },
    }
}

const PENDING: &str = r#"{"error":"pending approval"}"#;
const ENCRYPTED: &str = r#"{"error":"device-encrypted value"}"#;
const SCOPE: &str = r#"{"error":"insufficient scope"}"#;

#[test]
fn a_read_begins_with_the_nearest_credential() {
    let c = client(Some("ak"), Some("st"), false);
    assert!(matches!(get(&c, Some("t".to_string())), GetStep::Token(t) if t == "t"));
    assert!(matches!(get(&c, None), GetStep::ApiKey(k) if k == "ak"));
    let c = client(None, Some("st"), false);
    assert!(matches!(get(&c, None), GetStep::Session(SessionUse::Direct)));
}

#[test]
fn the_error_of_a_reply_is_its_member() {
    assert_eq!(error_member(PENDING), Some("pending approval".to_string()));
    assert_eq!(error_member("not json"), None);
    assert_eq!(error_member(r#"{"error":7}"#), None);
    assert_eq!(error_member(r#"["error"]"#), None);
    assert_eq!(error_member(r#"{"message":"x"}"#), None);
}

#[test]
fn an_api_key_that_does_reads_the_value() {
    let mut c = client(Some("ak"), None, false);
    let t = get_api_key_replied(&mut c, "ak".to_string(), reply(200, "v"));
    assert!(matches!(t.step, GetStep::Emit(v) if v == "v"));
    assert_eq!(t.save, Save::Keep);
    assert!(!t.key_dropped);
}

#[test]
fn an_api_key_may_need_approval_or_the_device() {
    for status in [401, 403] {
        let mut c = client(Some("ak"), Some("st"), true);
        let t = get_api_key_replied(&mut c, "ak".to_string(), reply(status, PENDING));
        assert!(matches!(t.step, GetStep::Token(k) if k == "ak"));
        let t = get_api_key_replied(&mut c, "ak".to_string(), reply(status, ENCRYPTED));
        assert!(matches!(t.step, GetStep::Device));
        assert!(c.cfg.api_key.is_some());
    }
}

#[test]
fn an_invalid_api_key_is_dropped() {
    let mut c = client(Some("ak"), None, false);
    let t = get_api_key_replied(&mut c, "ak".to_string(), reply(401, "gone"));
    assert!(t.key_dropped);
    assert_eq!(t.save, Save::BestEffort);
    assert_eq!(c.cfg.api_key, None);
    assert!(matches!(t.step, GetStep::Session(SessionUse::Escalated)));
    let mut c = client(Some("ak"), Some("st"), false);
    let t = get_api_key_replied(&mut c, "ak".to_string(), reply(401, "gone"));
    assert!(matches!(t.step, GetStep::TrySession(k, 401) if k == "ak"));
    assert_eq!(c.cfg.session_token, Some("st".to_string()));
}

#[test]
fn a_scope_error_keeps_the_key() {
    let mut c = client(Some("ak"), Some("st"), false);
    let t = get_api_key_replied(&mut c, "ak".to_string(), reply(403, SCOPE));
    assert!(!t.key_dropped);
    assert_eq!(t.save, Save::Keep);
    assert_eq!(c.cfg.api_key, Some("ak".to_string()));
    assert!(matches!(t.step, GetStep::TrySession(_, 403)));
    let mut c = client(Some("ak"), None, false);
    let t = get_api_key_replied(&mut c, "ak".to_string(), reply(403, SCOPE));
    assert!(matches!(t.step, GetStep::Session(SessionUse::Escalated)));
}

#[test]
fn a_silent_read_stops_at_the_api_key() {
    let mut c = client(Some("ak"), Some("st"), true);
    let t = get_api_key_replied(&mut c, "ak".to_string(), reply(403, SCOPE));
    assert!(matches!(t.step, GetStep::Fail(GetFailure::ApiKeyScope)));
    assert!(c.cfg.api_key.is_some());
    let t = get_api_key_replied(&mut c, "ak".to_string(), reply(401, ""));
    assert!(matches!(t.step, GetStep::Fail(GetFailure::ApiKeyInvalid)));
    assert!(c.cfg.api_key.is_none());
}

#[test]
fn other_statuses_of_an_api_key_are_unexpected() {
    let mut c = client(Some("ak"), None, false);
    let t = get_api_key_decided(&mut c, "ak".to_string(), reply(500, PENDING), None);
    assert!(matches!(t.step, GetStep::Fail(GetFailure::UnexpectedStatus(500))));
}

#[test]
fn the_session_at_hand_is_tried() {
    let mut c = client(Some("ak"), Some("st"), false);
    let t = get_try_session_replied(&mut c, "ak".to_string(), 403, reply(200, "v"));
    assert!(matches!(t.step, GetStep::Emit(v) if v == "v"));
    let t = get_try_session_replied(&mut c, "ak".to_string(), 403, reply(403, ENCRYPTED));
    assert!(matches!(t.step, GetStep::Device));
    let t = get_try_session_replied(&mut c, "ak".to_string(), 403, reply(403, SCOPE));
    assert!(matches!(t.step, GetStep::Fail(GetFailure::Server(r)) if r.status == 403));
    let t = get_try_session_decided(&mut c, "ak".to_string(), 403, reply(404, "x"), None);
    assert!(matches!(t.step, GetStep::Fail(GetFailure::Server(r)) if r.body == "x"));
    assert!(c.cfg.session_token.is_some());
}

#[test]
fn a_refused_session_falls_back_by_what_the_key_lacked() {
    let mut c = client(Some("ak"), Some("st"), false);
    let t = get_try_session_replied(&mut c, "ak".to_string(), 403, reply(401, ""));
    assert!(matches!(t.step, GetStep::Token(k) if k == "ak"));
    assert_eq!(t.save, Save::BestEffort);
    assert_eq!(c.cfg.session_token, None);
    let mut c = client(None, Some("st"), false);
    let t = get_try_session_replied(&mut c, "ak".to_string(), 401, reply(401, ""));
    assert!(matches!(t.step, GetStep::Session(SessionUse::Escalated)));
}

#[test]
fn a_read_with_a_session() {
    let s = get_session_replied(SessionUse::Direct, reply(200, "v"));
    assert!(matches!(s, GetStep::Emit(v) if v == "v"));
    let s = get_session_replied(SessionUse::Direct, reply(403, ENCRYPTED));
    assert!(matches!(s, GetStep::Device));
    let s = get_session_replied(SessionUse::Direct, reply(403, SCOPE));
    assert!(matches!(s, GetStep::Fail(GetFailure::Refused(e)) if e == "insufficient scope"));
    let s = get_session_decided(SessionUse::Direct, reply(403, "?"), None);
    assert!(matches!(s, GetStep::Fail(GetFailure::Refused(e)) if e == "forbidden"));
    let s = get_session_replied(SessionUse::Escalated, reply(403, ENCRYPTED));
    assert!(matches!(s, GetStep::Fail(GetFailure::Server(r)) if r.status == 403));
    let s = get_session_replied(SessionUse::Direct, reply(404, "no"));
    assert!(matches!(s, GetStep::Fail(GetFailure::Server(r)) if r.body == "no"));
}

#[test]
fn a_read_with_a_token() {
    assert!(matches!(get_with_token(reply(200, "v")), TokenStep::End(GetStep::Emit(v)) if v == "v"));
    assert!(matches!(get_with_token(reply(401, "")), TokenStep::End(GetStep::Fail(GetFailure::LinkUsed))));
    assert!(matches!(get_with_token(reply(403, PENDING)), TokenStep::RequestAccess));
    let s = get_with_token(reply(403, SCOPE));
    assert!(matches!(s, TokenStep::End(GetStep::Fail(GetFailure::Refused(e))) if e == "insufficient scope"));
    let s = get_with_token_decided(reply(403, ""), None);
    assert!(matches!(s, TokenStep::End(GetStep::Fail(GetFailure::Refused(e))) if e == "access denied"));
    let s = get_with_token(reply(418, ""));
    assert!(matches!(s, TokenStep::End(GetStep::Fail(GetFailure::UnexpectedStatus(418)))));
}

#[test]
fn access_is_asked_for_and_polled() {
    assert!(matches!(
        access_requested(reply(200, "{}"), Some("🦩🦁🎠".to_string())),
        Ok(e) if e == "🦩🦁🎠"
    ));
    assert!(matches!(
        access_requested(reply(200, "{}"), None),
        Err(GetFailure::UnexpectedResponse(b)) if b == "{}"
    ));
    assert!(matches!(
        access_requested(reply(500, "x"), Some("e".to_string())),
        Err(GetFailure::Server(r)) if r.status == 500
    ));
    assert!(matches!(approval_polled(reply(200, "v")), ApprovalPoll::End(GetStep::Emit(v)) if v == "v"));
    assert!(matches!(
        approval_polled(reply(401, "")),
        ApprovalPoll::End(GetStep::Fail(GetFailure::LinkUsed))
    ));
    assert!(matches!(approval_polled(reply(403, PENDING)), ApprovalPoll::Wait));
    assert!(matches!(approval_polled(reply(500, "")), ApprovalPoll::Wait));
}

#[test]
fn a_write_goes_where_it_is_asked_to() {
    let SetStep::Plain { call, upsert: body } =
        kv_cli::commands::kv::set("a b", "v".to_string(), None, Some(1.5f64), true, false, false)
    else {
        panic!("a plain write");
    };
    assert_eq!((call.verb, call.path.as_str()), (Verb::Put, "/kv/a%20b"));
    assert_eq!(body.value, "v");
    assert_eq!(body.ttl_hours, Some(1.5));
    assert!(body.ttl_sliding);
    assert!(!body.open_access);
    let scope = Some("team".to_string());
    let SetStep::Scoped { call, write: body } =
        kv_cli::commands::kv::set("k", "v".to_string(), scope.clone(), None::<f64>, false, true, false)
    else {
        panic!("a write under a scope");
    };
    assert_eq!((call.verb, call.path.as_str()), (Verb::Put, "/api/admin/kv"));
    assert_eq!(body.key, "k");
    assert_eq!(body.scope, scope);
    assert_eq!(body.ttl_hours, None);
    assert!(body.open_access);
    let SetStep::Encrypt { value, scope } =
        kv_cli::commands::kv::set("k", "v".to_string(), scope, None::<f64>, false, false, true)
    else {
        panic!("an encrypted write");
    };
    assert_eq!(value, "v");
    assert_eq!(scope, Some("team".to_string()));
}

#[test]
fn what_a_device_was_written_it_reads() {
    let one: Vec<u8> = (1u8..33).collect();
    let two: Vec<u8> = (101u8..133).collect();
    let devices = vec![device("d1", "laptop", &one), device("d2", "phone", &two)];
    let Ok(w) = set_device_encrypted("entry", "wert ü".as_bytes(), None, &devices, &vec![1, 0])
    else {
        panic!("the devices can be encrypted for");
    };
    assert_eq!(w.key, "entry");
    assert_eq!(w.payload.aad, STANDARD.encode("entry"));
    assert_eq!(w.payload.recipients[0].device_id, "d2");
    assert_eq!(w.payload.recipients[1].device_id, "d1");
    for (k, secret) in [(0, &two), (1, &one)] {
        let key = STANDARD.encode(secret);
        let out = fetch_and_decrypt(&handed_out(&w, k), &key);
        assert_eq!(out, Some(Ok("wert ü".to_string())));
        assert_eq!(
            open_value(&handed_out(&w, 1 - k), &key),
            Some(Err(DecryptError::DekDecryption))
        );
    }
}

#[test]
fn a_value_that_is_no_text_is_mended() {
    let secret: Vec<u8> = (1u8..33).collect();
    let devices = vec![device("d1", "laptop", &secret)];
    let Ok(w) = set_device_encrypted("k", b"a\xffb", None, &devices, &vec![0]) else {
        panic!("the device can be encrypted for");
    };
    let key = STANDARD.encode(&secret);
    assert_eq!(
        fetch_and_decrypt(&handed_out(&w, 0), &key),
        Some(Ok("a\u{fffd}b".to_string()))
    );
    assert!(matches!(
        envelope_read(&handed_out(&w, 0), &key),
        Some(GetStep::Emit(v)) if v == "a\u{fffd}b"
    ));
    let other = STANDARD.encode([9u8; 32]);
    assert!(matches!(
        envelope_read(&handed_out(&w, 0), &other),
        Some(GetStep::Fail(GetFailure::Decrypt(DecryptError::DekDecryption)))
    ));
    let mut broken = handed_out(&w, 0);
    broken.nonce = "aGk=".to_string();
    assert_eq!(fetch_and_decrypt(&broken, &key), None);
    assert!(envelope_read(&broken, &key).is_none());
}

#[test]
fn encrypting_needs_devices_that_can() {
    let none: Vec<DeviceListEntry> = Vec::new();
    assert_eq!(
        set_device_encrypted("k", b"v", None, &none, &Vec::new()).err(),
        Some(DeviceSetError::NoDevices)
    );
    let secret: Vec<u8> = (1u8..33).collect();
    let mut other = device("d2", "phone", &secret);
    other.key_type = "p256".to_string();
    let devices = vec![device("d1", "laptop", &secret), other];
    assert_eq!(
        set_device_encrypted("k", b"v", None, &devices, &vec![0, 1]).err(),
        Some(DeviceSetError::Encrypt(EncryptError::KeyType(1)))
    );
}

#[test]
fn the_path_of_an_envelope() {
    let mut c = client(None, None, false);
    assert!(envelope_call(&c, "k").is_none());
    c.cfg.device_id = Some("d1".to_string());
    let Some(call) = envelope_call(&c, "a b") else {
        panic!("there is a device");
    };
    assert_eq!((call.verb, call.path.as_str()), (Verb::Get, "/api/admin/devices/d1/kv/a%20b"));
    let call = device_write_call();
    assert_eq!((call.verb, call.path.as_str()), (Verb::Post, "/api/admin/kv/device"));
    let call = call_request_access();
    assert_eq!((call.verb, call.path.as_str()), (Verb::Post, "/kv/request-access"));
}

#[test]
fn lines_and_cells() {
    let entry = |key: &str, scope: Option<&str>| KvEntry::<f64> {
        key: key.to_string(),
        scope: scope.map(|s| s.to_string()),
        ttl_hours: None,
        expires_at: None,
        open_access: false,
    };
    let entries = vec![entry("a", None), entry("b", Some("team"))];
    assert_eq!(
        entry_lines(&entries),
        Some(vec!["a".to_string(), "b [scope:team]".to_string()])
    );
    assert_eq!(entry_lines(&Vec::<KvEntry<f64>>::new()), None);
    assert_eq!(pick_key(&entries, &vec![1]), "b");
    assert_eq!(opt_str(&None), "-");
    assert_eq!(opt_str(&Some("x".to_string())), "x");
    let devices = vec![device("d1", "laptop", &(1u8..33).collect())];
    assert_eq!(
        device_lines(&devices),
        vec!["laptop                          [x25519]".to_string()]
    );
}

fn gate(last3: bool, stdin_is_terminal: bool, stdout_is_terminal: bool) -> Gate {
    Gate { mode: SecretDisplay { md5: false, last3 }, stdin_is_terminal, stdout_is_terminal }
}

#[test]
fn a_value_that_was_read_passes_the_gate() {
    let value = || GetStep::Emit("s3cret".to_string());
    for (stdin, stdout) in [(false, false), (false, true), (true, false)] {
        assert!(matches!(
            get_ended(value(), gate(false, stdin, stdout), "yes"),
            Some(Err(GetError::Reveal(RevealError::Refused)))
        ));
        assert!(matches!(
            get_ended(value(), gate(true, stdin, stdout), ""),
            Some(Ok(text)) if text == "...ret\n"
        ));
    }
    assert!(matches!(
        get_ended(value(), gate(false, true, true), "no"),
        Some(Err(GetError::Reveal(RevealError::Aborted)))
    ));
    assert!(matches!(
        get_ended(value(), gate(false, true, true), "yes\n"),
        Some(Ok(text)) if text == "s3cret"
    ));
}

#[test]
fn other_ends_of_a_read_print_nothing() {
    assert!(matches!(
        get_ended(GetStep::Fail(GetFailure::LinkUsed), gate(false, true, true), "yes"),
        Some(Err(GetError::Failed(GetFailure::LinkUsed)))
    ));
    assert!(get_ended(GetStep::Device, gate(false, true, true), "yes").is_none());
}
