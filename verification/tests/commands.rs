//! The smaller commands.

use kv_cli::client::{Client, Save, Verb};
use kv_cli::commands::device::{
    chosen_device, list, propose_polled, propose_status_path, propose_timed_out, row_lines,
    set_id, unregister, unregister_call, DeviceRow, ProposalStatus, ProposeFailure, ProposeStep,
};
use kv_cli::commands::keys::{
    add_api_token, create, create_call, create_shown, extract_key_from_response, key_among,
    key_shown, parse_scopes, revoke,
};
use kv_cli::commands::session::{check, device_line, status, whoami_call};
use kv_cli::commands::session_request::{parse_duration_hours, request, DurationError};
use kv_cli::config::{Config, PendingSessionRequest};
use kv_cli::secret_display::{Gate, RevealError, SecretDisplay};
use kv_cli::text::IntError;

fn client() -> Client {
    Client::new(Config::default(), None, false)
}

fn texts(list: &[&str]) -> Vec<String> {
    list.iter().map(|s| s.to_string()).collect()
}

#[test]
fn settings_are_empty_at_first() {
    let cfg = Config::default();
    assert!(cfg.base_url.is_none() && cfg.session_token.is_none() && cfg.api_key.is_none());
    assert!(cfg.device_id.is_none() && cfg.pending_session_request.is_none());
    assert_eq!(cfg.base_url(), "https://kv.osmosis.page");
    let p = PendingSessionRequest::default();
    assert_eq!((p.id.as_str(), p.url.as_str()), ("", ""));
    assert_eq!(p.clone().poll_secret, "");
}

#[test]
fn durations_in_days_and_hours() {
    for (text, hours) in [("24h", 24), ("7d", 168), ("365d", 8760), ("-1d", -24), ("+3h", 3)] {
        assert_eq!(parse_duration_hours(text), Ok(hours));
        assert_eq!(request(&Some(text.to_string())), Ok(Some(hours)));
    }
    assert_eq!(request(&None), Ok(None));
}

#[test]
fn the_session_is_asked_whose_it_is() {
    let c = whoami_call();
    assert_eq!((c.verb, c.path.as_str()), (Verb::Get, "/api/whoami"));
}

#[test]
fn a_day_has_24_hours() {
    for n in ["0", "1", "-7", "+30", "365"] {
        let days = parse_duration_hours(&format!("{n}d"));
        let hours = parse_duration_hours(&format!("{n}h"));
        assert_eq!(days, hours.map(|h| 24 * h));
    }
}

#[test]
fn durations_that_are_none() {
    for (text, error) in [
        ("7", DurationError::Unit),
        ("", DurationError::Unit),
        ("7w", DurationError::Unit),
        ("d", DurationError::Number(IntError::Empty)),
        ("x7h", DurationError::Number(IntError::InvalidDigit)),
        ("1.5h", DurationError::Number(IntError::InvalidDigit)),
        ("9223372036854775808h", DurationError::Number(IntError::TooLarge)),
        ("-9223372036854775809d", DurationError::Number(IntError::TooSmall)),
    ] {
        assert_eq!(parse_duration_hours(text), Err(error));
        assert_eq!(request(&Some(text.to_string())), Err(error));
    }
}

#[test]
fn durations_have_a_limit() {
    let most = "384307168202282325d".to_string();
    assert_eq!(request(&Some(most)), Ok(Some(9223372036854775800)));
    for text in ["384307168202282326d", "-384307168202282326d", "9223372036854775807d"] {
        assert_eq!(request(&Some(text.to_string())), Err(DurationError::OutOfRange));
    }
    assert_eq!(request(&Some("9223372036854775807h".to_string())), Ok(Some(i64::MAX)));
}

#[test]
fn scopes_are_split_at_the_first_colon() {
    let Ok(rules) = parse_scopes(&texts(&[" app/* : read, write ", "a:b:c", ":"])) else {
        panic!("every scope has a colon");
    };
    assert_eq!(rules.len(), 3);
    assert_eq!(rules[0].scope, "app/*");
    assert_eq!(rules[0].ops, vec!["read", "write"]);
    assert_eq!(rules[1].scope, "a");
    assert_eq!(rules[1].ops, vec!["b:c"]);
    assert_eq!(rules[2].scope, "");
    assert_eq!(rules[2].ops, vec![""]);
}

#[test]
fn a_scope_without_a_colon_is_named() {
    assert_eq!(parse_scopes(&texts(&["a:read", "b", "c"])).err(), Some(1));
    let label = "l".to_string();
    assert_eq!(create(label, "standard".to_string(), &texts(&["b"])).err(), Some(0));
}

#[test]
fn a_key_is_asked_for_with_its_scopes() {
    let Ok(r) = create("ci".to_string(), "one_time".to_string(), &texts(&["app:read"])) else {
        panic!("the scope has a colon");
    };
    assert_eq!(r.label, "ci");
    assert_eq!(r.key_type, "one_time");
    assert_eq!(r.expires_at, None);
    assert_eq!(r.scopes.len(), 1);
    let c = revoke("17");
    assert_eq!((c.verb, c.path.as_str()), (Verb::Delete, "/api/admin/keys/17"));
    let c = create_call();
    assert_eq!((c.verb, c.path.as_str()), (Verb::Post, "/api/admin/keys"));
    let c = kv_cli::commands::keys::list();
    assert_eq!((c.verb, c.path.as_str()), (Verb::Get, "/api/admin/keys"));
}

#[test]
fn the_new_key_is_found_in_the_reply() {
    assert_eq!(extract_key_from_response(r#"{"key":"k1","api_key":"k2"}"#), "k1");
    assert_eq!(extract_key_from_response(r#"{"api_key":"k2"}"#), "k2");
    assert_eq!(extract_key_from_response(r#"{"key":1,"api_key":"k2"}"#), "k2");
    assert_eq!(extract_key_from_response(r#" {"id":"x"} "#), r#"{"id":"x"}"#);
    assert_eq!(extract_key_from_response("  raw-key\n"), "raw-key");
    assert_eq!(key_among(None, Some("b".to_string()), "c"), "b");
    assert_eq!(key_among(Some("a".to_string()), Some("b".to_string()), "c"), "a");
}

#[test]
fn a_new_key_passes_the_gate() {
    let body = r#"{"key":"ak-12345"}"#;
    let gate = |last3, terminal| Gate {
        mode: SecretDisplay { md5: false, last3 },
        stdin_is_terminal: terminal,
        stdout_is_terminal: terminal,
    };
    assert_eq!(create_shown(body, gate(false, false), "yes"), Err(RevealError::Refused));
    assert_eq!(create_shown(body, gate(false, true), ""), Err(RevealError::Aborted));
    assert_eq!(create_shown(body, gate(false, true), "yes"), Ok("ak-12345\n".to_string()));
    assert_eq!(key_shown("raw", gate(false, true), " yes\n"), Ok("raw\n".to_string()));
    assert_eq!(key_shown("raw-key", gate(true, true), ""), Ok("...key\n".to_string()));
    assert_eq!(create_shown(body, gate(true, false), ""), Ok("...345\n".to_string()));
}

#[test]
fn an_api_key_is_stored_without_whitespace() {
    let mut c = client();
    c.cfg.device_id = Some("d".to_string());
    assert_eq!(add_api_token(&mut c, " ak \n"), Save::Required);
    assert_eq!(c.cfg.api_key, Some("ak".to_string()));
    assert_eq!(c.cfg.device_id, Some("d".to_string()));
}

#[test]
fn the_session_is_reported() {
    let mut c = client();
    assert!(!check(&c, Some(200)));
    assert_eq!(status(&c, None), Err("session: invalid or missing"));
    c.cfg.session_token = Some("t".to_string());
    assert!(check(&c, Some(200)));
    assert!(!check(&c, Some(401)));
    assert_eq!(status(&c, Some(200)), Ok("session: valid"));
    let id = Some("d1".to_string());
    let name = Some("laptop".to_string());
    assert_eq!(device_line(&id, &name), "device: laptop (d1)");
    assert_eq!(device_line(&id, &None), "device: no device bound");
    assert_eq!(device_line(&None, &name), "device: no device bound");
}

fn proposal(status: &str, id: Option<&str>) -> Option<ProposalStatus> {
    Some(ProposalStatus {
        status: status.to_string(),
        device_id: id.map(|s| s.to_string()),
    })
}

#[test]
fn a_confirmed_proposal_gives_the_device() {
    let mut c = client();
    let s = propose_polled(&mut c, proposal("confirmed", Some("d9")));
    assert!(matches!(s, ProposeStep::Confirmed(id) if id == "d9"));
    assert_eq!(c.cfg.device_id, Some("d9".to_string()));
}

#[test]
fn other_proposals_change_nothing() {
    let mut c = client();
    assert!(matches!(propose_polled(&mut c, None), ProposeStep::Wait));
    assert!(matches!(
        propose_polled(&mut c, proposal("pending", Some("d9"))),
        ProposeStep::Wait
    ));
    for (text, failure) in [
        ("confirmed", ProposeFailure::NoDeviceId),
        ("rejected", ProposeFailure::Rejected),
        ("expired", ProposeFailure::Expired),
    ] {
        let ProposeStep::Fail(f) = propose_polled(&mut c, proposal(text, None)) else {
            panic!("the proposal failed");
        };
        assert_eq!(f, failure);
    }
    assert_eq!(c.cfg.device_id, None);
}

#[test]
fn a_proposal_is_polled_for_half_an_hour() {
    assert!(!propose_timed_out(0));
    assert!(!propose_timed_out(1_800_000_000_000));
    assert!(propose_timed_out(1_800_000_000_001));
    assert_eq!(
        propose_status_path("p 1", "s/2"),
        "/api/devices/propose/p%201/status?secret=s%2F2"
    );
}

fn row(id: &str, name: &str) -> DeviceRow {
    DeviceRow {
        id: id.to_string(),
        name: name.to_string(),
        created_at: "2026-01-01".to_string(),
        last_seen_at: None,
    }
}

#[test]
fn a_device_is_chosen_from_the_list() {
    let rows = vec![row("d1", "laptop"), row("d2", "a name that is longer than thirty characters")];
    let Some(lines) = row_lines(&rows) else {
        panic!("there are devices");
    };
    assert_eq!(lines[0], "laptop                          registered: 2026-01-01");
    assert_eq!(
        lines[1],
        "a name that is longer than thirty characters  registered: 2026-01-01"
    );
    assert!(row_lines(&Vec::new()).is_none());
    assert_eq!(chosen_device(&rows, &vec![1]), Some("d2".to_string()));
    assert_eq!(chosen_device(&rows, &vec![2]), None);
    assert_eq!(chosen_device(&rows, &Vec::new()), None);
    let c = unregister_call("d1");
    assert_eq!((c.verb, c.path.as_str()), (Verb::Delete, "/api/admin/devices/d1"));
    let c = list();
    assert_eq!((c.verb, c.path.as_str()), (Verb::Get, "/api/admin/devices"));
}

#[test]
fn only_the_own_device_is_forgotten() {
    let mut c = client();
    assert_eq!(set_id(&mut c, "d1".to_string()), Save::Required);
    assert_eq!(unregister(&mut c, "d2"), Save::Keep);
    assert_eq!(c.cfg.device_id, Some("d1".to_string()));
    assert_eq!(unregister(&mut c, "d1"), Save::Required);
    assert_eq!(c.cfg.device_id, None);
    assert_eq!(unregister(&mut c, "d1"), Save::Keep);
}
