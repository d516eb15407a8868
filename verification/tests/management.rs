//! Management keys and provisioned keys.

use base64::engine::general_purpose::STANDARD;
use base64::Engine;
use kv_cli::client::{Call, Client, Verb};
use kv_cli::session::EnvelopeError;
use kv_cli::commands::device::public_key_b64;
use kv_cli::commands::kv::{DeviceKvRecipient, DeviceKvResponse, SetStep};
use kv_cli::config::Config;
use kv_cli::crypto::{DecryptError, DevicePayload, EncryptError};
use kv_cli::management_keys::plan::{Plan, PlanFailure, Run, Task};
use kv_cli::management_keys::providers::openrouter::{
    create_body, created, listed, reset_body, CreateResponse, KeyData, OpenRouterProvider,
};
use kv_cli::management_keys::providers::{
    provider_for, ManagementKeyProvider, ProviderKeyCreated, ProviderKeyInfo,
};
use kv_cli::management_keys::{
    add, add_call, add_checked, created_notice, created_shown, decrypt_management_key,
    delete_local_provisioned_key, entered_secret, envelope_call, keys_create, keys_list,
    keys_rotate, keys_show, list, local_device_id, management_key_row, named_devices,
    provisioned_list, provisioned_shown, publish, revoke, rotated_notice, set_defaults,
    set_defaults_call, store_call, store_provisioned_key, validate_limit_reset, AddError,
    ManagementKeyRow, ProvisionedKeyRow, ShowError,
};
use kv_cli::recipients::DeviceListEntry;
use kv_cli::secret_display::{Gate, RevealError, SecretDisplay};

fn text(s: &str) -> Option<String> {
    Some(s.to_string())
}

fn row(id: &str, limit: Option<f64>, reset: Option<&str>) -> ManagementKeyRow<f64> {
    ManagementKeyRow {
        id: id.to_string(),
        provider: "openrouter".to_string(),
        label: format!("label of {id}"),
        status: "active".to_string(),
        created_at: "2026-01-01".to_string(),
        last_used_at: None,
        default_limit: limit,
        default_limit_reset: reset.map(|s| s.to_string()),
    }
}

fn device(id: &str, name: &str, secret: &Vec<u8>) -> DeviceListEntry {
    DeviceListEntry {
        id: id.to_string(),
        name: name.to_string(),
        key_type: "x25519".to_string(),
        public_key: public_key_b64(secret),
    }
}

fn handed_out(p: &DevicePayload, k: usize) -> DeviceKvResponse {
    let r = &p.recipients[k];
    DeviceKvResponse {
        nonce: p.nonce.clone(),
        ciphertext: p.ciphertext.clone(),
        aad: p.aad.clone(),
        recipient: DeviceKvRecipient {
            ephemeral_pub: r.ephemeral_pub.clone(),
            dek_nonce: r.dek_nonce.clone(),
            encrypted_dek: r.encrypted_dek.clone(),
        },
    }
}

#[test]
fn limits_are_reset_daily_weekly_or_monthly() {
    for good in [None, text("daily"), text("weekly"), text("monthly")] {
        assert!(validate_limit_reset(&good));
    }
    for bad in ["", "yearly", "Daily", "daily "] {
        assert!(!validate_limit_reset(&text(bad)));
    }
}

#[test]
fn the_provider_is_checked_before_the_limit() {
    assert_eq!(add_checked("openrouter", &text("daily")), Ok(()));
    assert_eq!(add_checked("openrouter", &text("hourly")), Err(AddError::LimitReset));
    assert_eq!(add_checked("other", &text("hourly")), Err(AddError::Provider));
    assert_eq!(provider_for("openrouter").map(|p| p.id()), Some("openrouter"));
    assert!(provider_for("OpenRouter").is_none());
}

#[test]
fn an_entered_secret_must_hold_something() {
    assert_eq!(entered_secret(" sk-1 \n"), text("sk-1"));
    assert_eq!(entered_secret(" \n"), None);
}

#[test]
fn a_management_key_is_recovered_by_its_devices() {
    let secret: Vec<u8> = (1u8..33).collect();
    let devices = vec![device("d1", "laptop", &secret)];
    let Ok(r) = add(
        "openrouter".to_string(),
        "team".to_string(),
        "sk-mgmt",
        Some(5.0),
        text("weekly"),
        &devices,
        &vec![0],
    ) else {
        panic!("the device can be encrypted for");
    };
    assert_eq!(r.provider, "openrouter");
    assert_eq!(r.label, "team");
    assert_eq!(r.default_limit, Some(5.0));
    assert_eq!(r.default_limit_reset, text("weekly"));
    assert_eq!(r.payload.aad, STANDARD.encode("mgmt-key:team"));
    let key = STANDARD.encode(&secret);
    let envelope = handed_out(&r.payload, 0);
    assert_eq!(decrypt_management_key(&envelope, &key), Ok("sk-mgmt".to_string()));
    assert_eq!(
        decrypt_management_key(&envelope, "aGk="),
        Err(EnvelopeError::Decrypt(DecryptError::PrivateKeyLength))
    );
    let mut broken = handed_out(&r.payload, 0);
    broken.nonce = "aGk=".to_string();
    assert_eq!(decrypt_management_key(&broken, &key), Err(EnvelopeError::Malformed));
}

#[test]
fn a_provisioned_key_is_stored_under_its_name() {
    let secret: Vec<u8> = (1u8..33).collect();
    let mut devices = vec![device("d1", "laptop", &secret)];
    let new = ProviderKeyCreated {
        provider_key_id: "pk1".to_string(),
        label: "app".to_string(),
        plaintext_secret: "sk-new".to_string(),
    };
    let Ok(r) = store_provisioned_key(&new, &devices, &vec![0]) else {
        panic!("the device can be encrypted for");
    };
    assert_eq!(r.provider_key_id, "pk1");
    assert_eq!(r.label, "app");
    assert_eq!(r.payload.aad, STANDARD.encode("provisioned-key:pk1"));
    let key = STANDARD.encode(&secret);
    assert_eq!(
        decrypt_management_key(&handed_out(&r.payload, 0), &key),
        Ok("sk-new".to_string())
    );
    let gate = |last3, terminal| Gate {
        mode: SecretDisplay { md5: false, last3 },
        stdin_is_terminal: terminal,
        stdout_is_terminal: terminal,
    };
    let envelope = handed_out(&r.payload, 0);
    assert_eq!(
        provisioned_shown(&envelope, &key, gate(false, false), "yes"),
        Some(Err(ShowError::Reveal(RevealError::Refused)))
    );
    assert_eq!(
        provisioned_shown(&envelope, &key, gate(false, true), "yes"),
        Some(Ok("sk-new".to_string()))
    );
    assert_eq!(
        provisioned_shown(&envelope, &key, gate(true, false), ""),
        Some(Ok("...new\n".to_string()))
    );
    assert_eq!(
        provisioned_shown(&envelope, "aGk=", gate(true, false), ""),
        Some(Err(ShowError::Decrypt(DecryptError::PrivateKeyLength)))
    );
    let at_reveal = Run { plan: Plan::Create, done: 3 };
    assert_eq!(
        created_shown(&at_reveal, &new, gate(false, false), "yes"),
        Some(Err(RevealError::Refused))
    );
    assert_eq!(
        created_shown(&at_reveal, &new, gate(false, true), "yes"),
        Some(Ok("sk-new".to_string()))
    );
    assert_eq!(created_shown(&Run::start(Plan::Create), &new, gate(false, true), "yes"), None);
    let republish = Run { plan: Plan::Republish, done: 5 };
    assert_eq!(created_shown(&republish, &new, gate(false, true), "yes"), None);
    assert_eq!(
        created_notice("Created", "openrouter", "app", "pk1", "r1"),
        "Created openrouter key 'app' (provider id: pk1)\nStored encrypted as r1"
    );
    assert_eq!(
        rotated_notice("openrouter", "app", "pk2", "r2"),
        "Rotated openrouter key 'app' (new provider id: pk2)\nStored encrypted as r2"
    );
    let SetStep::Plain { call, upsert } = publish::<u64>("app/KEY", &new) else {
        panic!("a new key is published as a plain value");
    };
    assert_eq!((call.verb, call.path.as_str()), (Verb::Put, "/kv/app%2FKEY"));
    assert_eq!(upsert.value, "sk-new");
    assert_eq!((upsert.ttl_hours, upsert.ttl_sliding, upsert.open_access), (None, false, false));
    devices[0].public_key = "?".to_string();
    assert_eq!(
        store_provisioned_key(&new, &devices, &vec![0]).err(),
        Some(EncryptError::PublicKeyEncoding(0))
    );
}

#[test]
fn a_row_is_found_by_its_id() {
    let rows = vec![row("a", None, None), row("b", Some(1.0), None), row("b", Some(2.0), None)];
    assert_eq!(management_key_row(rows, "b").and_then(|r| r.default_limit), Some(1.0));
    assert!(management_key_row(vec![row("a", None, None)], "b").is_none());
}

#[test]
fn defaults_are_cleared_replaced_or_kept() {
    let d = set_defaults(row("a", Some(1.0), Some("daily")), None, false, None, false);
    assert_eq!((d.default_limit, d.default_limit_reset), (Some(1.0), text("daily")));
    let d = set_defaults(row("a", Some(1.0), None), Some(2.0), false, text("weekly"), false);
    assert_eq!((d.default_limit, d.default_limit_reset), (Some(2.0), text("weekly")));
    let d = set_defaults(row("a", Some(1.0), Some("daily")), Some(2.0), true, text("weekly"), true);
    assert_eq!((d.default_limit, d.default_limit_reset), (None, None));
}

#[test]
fn given_limits_override_the_defaults() {
    let label = "app".to_string();
    let Some((_, k)) =
        keys_create(row("a", Some(1.0), Some("daily")), label.clone(), Some(3.0), None)
    else {
        panic!("the provider is known");
    };
    assert_eq!(k.label, "app");
    assert_eq!((k.limit, k.limit_reset), (Some(3.0), text("daily")));
    let Some((_, k)) =
        keys_create(row("a", Some(1.0), Some("daily")), label.clone(), None, text("monthly"))
    else {
        panic!("the provider is known");
    };
    assert_eq!((k.limit, k.limit_reset), (Some(1.0), text("monthly")));
    let mut other = row("a", None, None);
    other.provider = "elsewhere".to_string();
    assert!(keys_create(other, label, None, None).is_none());
}

#[test]
fn a_replacement_takes_after_the_old_key() {
    let k = keys_rotate(ProviderKeyInfo {
        provider_key_id: "h1".to_string(),
        label: "app".to_string(),
        disabled: true,
        limit: Some(4.0),
        limit_reset: text("weekly"),
    });
    assert_eq!(k.label, "app");
    assert_eq!((k.limit, k.limit_reset), (Some(4.0), text("weekly")));
}

#[test]
fn the_record_of_a_key_is_found() {
    let record = |id: &str, key: &str| ProvisionedKeyRow {
        id: id.to_string(),
        provider_key_id: key.to_string(),
        label: String::new(),
        status: String::new(),
        created_at: String::new(),
        revoked_at: None,
    };
    let rows = vec![record("r1", "k1"), record("r2", "k2"), record("r3", "k2")];
    let Some(c) = delete_local_provisioned_key("m1", &rows, "k2") else {
        panic!("there is a record");
    };
    assert_eq!(c.verb, Verb::Delete);
    assert_eq!(c.path, "/api/admin/management-keys/m1/provisioned-keys/r2");
    assert!(delete_local_provisioned_key("m1", &rows, "k3").is_none());
}

#[test]
fn devices_are_found_by_name_or_id() {
    let secret: Vec<u8> = (1u8..33).collect();
    let devices = vec![
        device("d1", "laptop", &secret),
        device("d2", "phone", &secret),
        device("laptop", "other", &secret),
    ];
    let wanted: Vec<String> = ["phone", "d1", "laptop"].iter().map(|s| s.to_string()).collect();
    assert_eq!(named_devices(&devices, &wanted), Ok(vec![1, 0, 0]));
    let wanted: Vec<String> = ["phone", "tablet"].iter().map(|s| s.to_string()).collect();
    assert_eq!(named_devices(&devices, &wanted), Err(1));
}

fn asks(c: Call, verb: Verb, path: &str) {
    assert_eq!(c.verb, verb);
    assert_eq!(c.path, path);
}

#[test]
fn calls_about_management_keys() {
    asks(list(), Verb::Get, "/api/admin/management-keys");
    asks(add_call(), Verb::Post, "/api/admin/management-keys");
    asks(set_defaults_call("m"), Verb::Patch, "/api/admin/management-keys/m");
    asks(revoke("m"), Verb::Post, "/api/admin/management-keys/m/revoke");
    asks(envelope_call("m", "d"), Verb::Get, "/api/admin/management-keys/m/devices/d");
    asks(provisioned_list("m"), Verb::Get, "/api/admin/management-keys/m/provisioned-keys");
    asks(store_call("m"), Verb::Post, "/api/admin/management-keys/m/provisioned-keys");
    asks(
        keys_show("m", "p", "d"),
        Verb::Get,
        "/api/admin/management-keys/m/provisioned-keys/p/devices/d",
    );
    let mut c = Client::new(Config::default(), None, false);
    assert_eq!(local_device_id(&c), None);
    c.cfg.device_id = text("d");
    assert_eq!(local_device_id(&c), text("d"));
}

#[test]
fn requests_to_the_provider_carry_the_management_key() {
    let p = OpenRouterProvider::new();
    let all = "https://openrouter.ai/api/v1/keys";
    let one = "https://openrouter.ai/api/v1/keys/h1";
    for (r, verb, url) in [
        (p.list_keys("mk"), Verb::Get, all),
        (p.get_key("mk", "h1"), Verb::Get, one),
        (p.create_key("mk"), Verb::Post, all),
        (p.reset_limit("mk", "h1"), Verb::Patch, one),
        (p.revoke_key("mk", "h1"), Verb::Delete, one),
    ] {
        assert_eq!(r.verb, verb);
        assert_eq!(r.url, url);
        assert_eq!(r.header, Some(("Authorization".to_string(), "Bearer mk".to_string())));
    }
    assert_eq!(p.id(), "openrouter");
    let body = create_body("app".to_string(), Some(2.5));
    assert_eq!((body.name.as_str(), body.limit), ("app", Some(2.5)));
    assert!(reset_body(None).is_none());
    assert_eq!(reset_body(text("daily")).map(|b| b.limit_reset), text("daily"));
}

#[test]
fn answers_of_the_provider() {
    let data = |hash: &str| KeyData {
        hash: hash.to_string(),
        name: format!("name {hash}"),
        disabled: hash == "h2",
        limit: Some(1.0),
        limit_reset: text("daily"),
    };
    let infos = listed(vec![data("h1"), data("h2")]);
    assert_eq!(infos.len(), 2);
    assert_eq!(infos[0].provider_key_id, "h1");
    assert_eq!(infos[1].label, "name h2");
    assert!(!infos[0].disabled && infos[1].disabled);
    assert_eq!(infos[0].limit, Some(1.0));
    assert_eq!(infos[1].limit_reset, text("daily"));
    let new = created(CreateResponse { data: data("h3"), key: "sk".to_string() });
    assert_eq!(new.provider_key_id, "h3");
    assert_eq!(new.label, "name h3");
    assert_eq!(new.plaintext_secret, "sk");
}

#[test]
fn a_disabled_key_is_marked() {
    let info = |disabled| ProviderKeyInfo::<f64> {
        provider_key_id: "h1".to_string(),
        label: "app".to_string(),
        disabled,
        limit: None,
        limit_reset: None,
    };
    assert_eq!(
        keys_list(&vec![info(false), info(true)]),
        vec!["h1                        app", "h1                        app  [disabled]"]
    );
}

fn tasks_of(plan: Plan) -> Vec<Task> {
    let mut run = Run::start(plan);
    let mut out = Vec::new();
    while let Some(task) = run.task() {
        out.push(task);
        assert_eq!(run.report(true), Ok(true));
    }
    assert_eq!(run.report(false), Ok(true));
    out
}

#[test]
fn plans_have_their_order() {
    assert_eq!(
        tasks_of(Plan::Create),
        vec![Task::CreateNew, Task::SetReset, Task::Store, Task::Reveal]
    );
    assert_eq!(tasks_of(Plan::Revoke), vec![Task::RevokeOld, Task::DeleteRecord]);
    assert_eq!(
        tasks_of(Plan::Rotate),
        vec![
            Task::FetchInfo,
            Task::RevokeOld,
            Task::DeleteRecord,
            Task::CreateNew,
            Task::SetReset,
            Task::Store,
            Task::Reveal
        ]
    );
    assert_eq!(
        tasks_of(Plan::Republish),
        vec![
            Task::FetchInfo,
            Task::CreateNew,
            Task::SetReset,
            Task::Store,
            Task::Publish,
            Task::RevokeOld
        ]
    );
}

#[test]
fn a_failure_says_what_is_left() {
    for (plan, failures) in [
        (
            Plan::Create,
            vec![
                Some(PlanFailure::NothingChanged),
                Some(PlanFailure::ResetNotSet),
                Some(PlanFailure::NotStored),
                Some(PlanFailure::NotRevealed),
            ],
        ),
        (Plan::Revoke, vec![Some(PlanFailure::NothingChanged), Some(PlanFailure::RecordLeft)]),
        (
            Plan::Rotate,
            vec![
                Some(PlanFailure::NothingChanged),
                Some(PlanFailure::NothingChanged),
                None,
                Some(PlanFailure::NoActiveKey),
                Some(PlanFailure::ResetNotSet),
                Some(PlanFailure::NotStored),
                Some(PlanFailure::NotRevealed),
            ],
        ),
        (
            Plan::Republish,
            vec![
                Some(PlanFailure::NothingChanged),
                Some(PlanFailure::NothingChanged),
                Some(PlanFailure::ResetNotSet),
                Some(PlanFailure::NotStored),
                Some(PlanFailure::NotPublished),
                Some(PlanFailure::OldKeyActive),
            ],
        ),
    ] {
        for (done, failure) in failures.into_iter().enumerate() {
            let mut run = Run { plan, done };
            match failure {
                Some(f) => {
                    assert_eq!(run.report(false), Err(f));
                    assert_eq!(run.done, done);
                }
                None => {
                    assert_eq!(run.report(false), Ok(false));
                    assert_eq!(run.done, done + 1);
                }
            }
        }
    }
}
