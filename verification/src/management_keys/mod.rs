//! Management keys, which are stored encrypted for devices, and the keys that are
//! provisioned with them at a provider.
//!
//! A management key is decrypted on this machine, to call its provider, and never
//! printed.

pub mod plan;
pub mod providers;

use vstd::prelude::*;
use vstd::utf8::*;
use crate::cipher::x25519_public;
use crate::client::{Call, Client, Verb};
use crate::commands::kv::{
    fetch_and_decrypt, is_handed_out, is_set_step, law_read_gives_back_write, open_value,
    value_path, DeviceKvResponse, SetStep,
};
use crate::config::{copy_setting, setting};
use crate::crypto::{
    decrypted, device_key, envelope_fits, DecryptError, DevicePayload, EncryptError,
};
use crate::encoding::{base64_bytes, text_strict, utf8_error, utf8_lossy};
use crate::management_keys::plan::{Run, Task};
use crate::management_keys::providers::openrouter::OpenRouterProvider;
use crate::management_keys::providers::{
    is_provider, provider_for, ProviderKeyCreated, ProviderKeyInfo,
};
use crate::recipients::{
    encrypt_for_chosen, encryption_fails, is_encrypted_for, DeviceListEntry,
};
use crate::secret_display::{is_shown, show_secret, Gate, RevealError};
use crate::session::EnvelopeError;
use crate::text::{join2, occurs, pad_right, padded, same_text, trim, trimmed, views};

verus! {

// ── What is stored ──────────────────────────────────────────────────────────
/// A management key to store. `N` is the type of an amount of money.
pub struct CreateManagementKeyRequest<N> {
    pub provider: String,
    pub label: String,
    pub payload: DevicePayload,
    pub default_limit: Option<N>,
    pub default_limit_reset: Option<String>,
}

/// The new defaults of a management key.
pub struct UpdateManagementKeyDefaultsRequest<N> {
    pub default_limit: Option<N>,
    pub default_limit_reset: Option<String>,
}

/// A management key, as the server lists it.
pub struct ManagementKeyRow<N> {
    pub id: String,
    pub provider: String,
    pub label: String,
    pub status: String,
    pub created_at: String,
    pub last_used_at: Option<String>,
    pub default_limit: Option<N>,
    pub default_limit_reset: Option<String>,
}

/// A provisioned key to store.
pub struct CreateProvisionedKeyRequest {
    pub provider_key_id: String,
    pub label: String,
    pub payload: DevicePayload,
}

/// A provisioned key, as the server lists it.
pub struct ProvisionedKeyRow {
    pub id: String,
    pub provider_key_id: String,
    pub label: String,
    pub status: String,
    pub created_at: String,
    pub revoked_at: Option<String>,
}

// ── Paths ───────────────────────────────────────────────────────────────────
/// The path of a management key.
pub open spec fn management_key_path_of(id: Seq<char>) -> Seq<char> {
    "/api/admin/management-keys/"@ + id
}

/// The path of the keys that a management key provisioned.
pub open spec fn provisioned_keys_path_of(id: Seq<char>) -> Seq<char> {
    management_key_path_of(id) + "/provisioned-keys"@
}

fn management_key_path(id: &str) -> (out: String)
    ensures
        out@ == management_key_path_of(id@),
{
    join2("/api/admin/management-keys/", id)
}

fn provisioned_key_path(id: &str, provisioned_id: &str) -> (out: String)
    ensures
        out@ == provisioned_keys_path_of(id@).push('/') + provisioned_id@,
{
    let mut out = join2(&management_key_path(id), "/provisioned-keys");
    out.push('/');
    out.append(provisioned_id);
    out
}

/// Asking for the list of management keys.
pub fn list() -> (out: Call)
    ensures
        out.asks(Verb::Get, "/api/admin/management-keys"@),
{
    Call { verb: Verb::Get, path: "/api/admin/management-keys".to_owned() }
}

/// Storing a management key.
pub fn add_call() -> (out: Call)
    ensures
        out.asks(Verb::Post, "/api/admin/management-keys"@),
{
    Call { verb: Verb::Post, path: "/api/admin/management-keys".to_owned() }
}

/// Changing the defaults of a management key.
pub fn set_defaults_call(id: &str) -> (out: Call)
    ensures
        out.asks(Verb::Patch, management_key_path_of(id@)),
{
    Call { verb: Verb::Patch, path: management_key_path(id) }
}

/// Asking to revoke a management key.
pub fn revoke(id: &str) -> (out: Call)
    ensures
        out.asks(Verb::Post, management_key_path_of(id@) + "/revoke"@),
{
    Call { verb: Verb::Post, path: join2(&management_key_path(id), "/revoke") }
}

/// Asking for the envelope of a management key for a device.
pub fn envelope_call(id: &str, device_id: &str) -> (out: Call)
    ensures
        out.asks(Verb::Get, management_key_path_of(id@) + "/devices/"@ + device_id@),
{
    let mut path = join2(&management_key_path(id), "/devices/");
    path.append(device_id);
    Call { verb: Verb::Get, path }
}

/// Asking for the list of keys that a management key provisioned.
pub fn provisioned_list(id: &str) -> (out: Call)
    ensures
        out.asks(Verb::Get, provisioned_keys_path_of(id@)),
{
    Call { verb: Verb::Get, path: join2(&management_key_path(id), "/provisioned-keys") }
}

/// Storing a key that a management key provisioned.
pub fn store_call(id: &str) -> (out: Call)
    ensures
        out.asks(Verb::Post, provisioned_keys_path_of(id@)),
{
    Call { verb: Verb::Post, path: join2(&management_key_path(id), "/provisioned-keys") }
}

/// Asking for the envelope of a provisioned key for a device.
pub fn keys_show(id: &str, provisioned_id: &str, device_id: &str) -> (out: Call)
    ensures
        out.asks(
            Verb::Get,
            provisioned_keys_path_of(id@).push('/') + provisioned_id@ + "/devices/"@ + device_id@,
        ),
{
    let mut path = provisioned_key_path(id, provisioned_id);
    path.append("/devices/");
    path.append(device_id);
    Call { verb: Verb::Get, path }
}

// ── Reading what is stored ──────────────────────────────────────────────────
/// The device of this client; `None` if it has none.
pub fn local_device_id(client: &Client) -> (out: Option<String>)
    ensures
        out == client.cfg.device_id,
{
    copy_setting(&client.cfg.device_id)
}

/// Whether the first row with the given id is at position `i`.
pub open spec fn first_row<N>(rows: Seq<ManagementKeyRow<N>>, id: Seq<char>, i: int) -> bool {
    &&& 0 <= i < rows.len()
    &&& rows[i].id@ == id
    &&& forall|j: int| 0 <= j < i ==> (#[trigger] rows[j]).id@ != id
}

/// The first management key with the given id.
pub fn management_key_row<N>(rows: Vec<ManagementKeyRow<N>>, id: &str) -> (out: Option<
    ManagementKeyRow<N>,
>)
    ensures
        match out {
            Some(r) => {
                &&& exists|i: int| #[trigger] first_row(rows@, id@, i) && r == rows@[i]
                &&& r.id@ == id@
                &&& rows@.contains(r)
            },
            None => forall|i: int| 0 <= i < rows@.len() ==> (#[trigger] rows@[i]).id@ != id@,
        },
{
    let ghost all = rows@;
    for r in iter: rows
        invariant
            iter.seq() == all,
            forall|j: int| 0 <= j < iter.index() ==> (#[trigger] all[j]).id@ != id@,
    {
        if same_text(&r.id, id) {
            assert(first_row(all, id@, iter.index() as int));
            return Some(r);
        }
    }
    None
}

/// The management key in an envelope, opened with the private key of this client's
/// device.
pub open spec fn management_key_of(envelope: DeviceKvResponse, private_key: Seq<char>) -> Result<
    Seq<char>,
    EnvelopeError,
> {
    if !envelope_fits(envelope.wrap(private_key), envelope.body()) {
        Err(EnvelopeError::Malformed)
    } else {
        match decrypted(envelope.wrap(private_key), envelope.body()) {
            Err(e) => Err(EnvelopeError::Decrypt(e)),
            Ok(plaintext) => if valid_utf8(plaintext) {
                Ok(decode_utf8(plaintext))
            } else {
                Err(EnvelopeError::NotUtf8(utf8_error(plaintext)))
            },
        }
    }
}

/// Opens the envelope of a management key.
pub fn decrypt_management_key(envelope: &DeviceKvResponse, private_key_b64: &str) -> (out: Result<
    String,
    EnvelopeError,
>)
    ensures
        match out {
            Ok(s) => management_key_of(*envelope, private_key_b64@) == Ok::<
                Seq<char>,
                EnvelopeError,
            >(s@),
            Err(e) => management_key_of(*envelope, private_key_b64@) == Err::<
                Seq<char>,
                EnvelopeError,
            >(e),
        },
{
    match open_value(envelope, private_key_b64) {
        None => Err(EnvelopeError::Malformed),
        Some(Err(e)) => Err(EnvelopeError::Decrypt(e)),
        Some(Ok(plaintext)) => match text_strict(plaintext) {
            Ok(s) => Ok(s),
            Err(e) => Err(EnvelopeError::NotUtf8(e)),
        },
    }
}

/// A management key that was encrypted for this client's device is what is read from
/// its envelope.
pub proof fn law_management_key_is_recovered(
    payload: DevicePayload,
    aad: Seq<char>,
    secret: Seq<char>,
    devices: Seq<DeviceListEntry>,
    chosen: Seq<usize>,
    k: int,
    private_key: Seq<char>,
    envelope: DeviceKvResponse,
)
    requires
        is_encrypted_for(payload, aad, encode_utf8(secret), devices, chosen),
        0 <= k < chosen.len(),
        device_key(private_key) matches Ok(own) && base64_bytes(
            devices[chosen[k] as int].public_key@,
        ) == Some(x25519_public(own)),
        is_handed_out(envelope, payload, k),
    ensures
        management_key_of(envelope, private_key) == Ok::<Seq<char>, EnvelopeError>(secret),
{
    law_read_gives_back_write(
        payload,
        aad,
        encode_utf8(secret),
        devices,
        chosen,
        k,
        private_key,
        envelope,
    );
    encode_utf8_valid_utf8(secret);
    encode_utf8_decode_utf8(secret);
}

// ── Management keys ─────────────────────────────────────────────────────────
/// Whether a limit can be reset this often.
pub open spec fn is_limit_reset(value: Option<Seq<char>>) -> bool {
    match value {
        None => true,
        Some(v) => v == "daily"@ || v == "weekly"@ || v == "monthly"@,
    }
}

/// Whether a limit can be reset this often: never, daily, weekly or monthly.
pub fn validate_limit_reset(value: &Option<String>) -> (r: bool)
    ensures
        r == is_limit_reset(setting(*value)),
{
    match value {
        None => true,
        Some(v) => same_text(v, "daily") || same_text(v, "weekly") || same_text(v, "monthly"),
    }
}

/// Why a management key cannot be added.
#[derive(Debug, Clone, Copy, PartialEq, Eq, Structural)]
pub enum AddError {
    /// The provider is not known.
    Provider,
    /// A limit cannot be reset this often.
    LimitReset,
}

/// Checks what is given with a management key before the key itself is asked for.
pub fn add_checked(provider: &str, default_limit_reset: &Option<String>) -> (out: Result<
    (),
    AddError,
>)
    ensures
        out == if !is_provider(provider@) {
            Err::<(), AddError>(AddError::Provider)
        } else if !is_limit_reset(setting(*default_limit_reset)) {
            Err(AddError::LimitReset)
        } else {
            Ok(())
        },
{
    if provider_for(provider).is_none() {
        return Err(AddError::Provider);
    }
    if !validate_limit_reset(default_limit_reset) {
        return Err(AddError::LimitReset);
    }
    Ok(())
}

/// The management key that was typed, without the whitespace around it; `None` if
/// there is nothing else.
pub fn entered_secret(typed: &str) -> (out: Option<String>)
    ensures
        match out {
            Some(s) => s@ == trimmed(typed@) && s@.len() > 0,
            None => trimmed(typed@).len() == 0,
        },
{
    let secret = trim(typed);
    if secret.as_str().is_empty() {
        None
    } else {
        Some(secret)
    }
}

/// Encrypts a management key for the chosen devices, with its label in the associated
/// data.
pub fn add<N>(
    provider: String,
    label: String,
    secret: &str,
    default_limit: Option<N>,
    default_limit_reset: Option<String>,
    devices: &Vec<DeviceListEntry>,
    chosen: &Vec<usize>,
) -> (out: Result<CreateManagementKeyRequest<N>, EncryptError>)
    requires
        forall|k: int| 0 <= k < chosen@.len() ==> #[trigger] chosen@[k] < devices@.len(),
    ensures
        match out {
            Ok(r) => {
                &&& r.provider == provider
                &&& r.label == label
                &&& r.default_limit == default_limit
                &&& r.default_limit_reset == default_limit_reset
                &&& is_encrypted_for(
                    r.payload,
                    "mgmt-key:"@ + label@,
                    encode_utf8(secret@),
                    devices@,
                    chosen@,
                )
            },
            Err(e) => encryption_fails(
                "mgmt-key:"@ + label@,
                encode_utf8(secret@),
                devices@,
                chosen@,
                e,
            ),
        },
{
    match encrypt_for_chosen(&join2("mgmt-key:", &label), secret.as_bytes(), devices, chosen) {
        Ok(payload) => Ok(
            CreateManagementKeyRequest {
                provider,
                label,
                payload,
                default_limit,
                default_limit_reset,
            },
        ),
        Err(e) => Err(e),
    }
}

/// The value that is given, or else the one that is stored.
pub open spec fn given_or<T>(given: Option<T>, stored: Option<T>) -> Option<T> {
    if given is Some {
        given
    } else {
        stored
    }
}

fn or_stored<T>(given: Option<T>, stored: Option<T>) -> (out: Option<T>)
    ensures
        out == given_or(given, stored),
{
    match given {
        Some(v) => Some(v),
        None => stored,
    }
}

/// The new defaults of a management key: a default that is to be cleared is cleared, a
/// given one replaces the stored one, and what is not spoken of stays.
pub fn set_defaults<N>(
    current: ManagementKeyRow<N>,
    default_limit: Option<N>,
    clear_limit: bool,
    default_limit_reset: Option<String>,
    clear_limit_reset: bool,
) -> (out: UpdateManagementKeyDefaultsRequest<N>)
    ensures
        out.default_limit == (if clear_limit {
            None
        } else {
            given_or(default_limit, current.default_limit)
        }),
        out.default_limit_reset == (if clear_limit_reset {
            None
        } else {
            given_or(default_limit_reset, current.default_limit_reset)
        }),
        clear_limit ==> out.default_limit is None,
        !clear_limit && default_limit is Some ==> out.default_limit == default_limit,
        !clear_limit && default_limit is None ==> out.default_limit == current.default_limit,
        clear_limit_reset ==> out.default_limit_reset is None,
        !clear_limit_reset && default_limit_reset is Some ==> out.default_limit_reset
            == default_limit_reset,
        !clear_limit_reset && default_limit_reset is None ==> out.default_limit_reset
            == current.default_limit_reset,
{
    UpdateManagementKeyDefaultsRequest {
        default_limit: if clear_limit {
            None
        } else {
            or_stored(default_limit, current.default_limit)
        },
        default_limit_reset: if clear_limit_reset {
            None
        } else {
            or_stored(default_limit_reset, current.default_limit_reset)
        },
    }
}

// ── Provisioned keys ────────────────────────────────────────────────────────
/// The line of a key in the list of a provider's keys.
pub open spec fn key_line_of<N>(k: ProviderKeyInfo<N>) -> Seq<char> {
    padded(k.provider_key_id@, 24) + "  "@ + k.label@ + (if k.disabled {
        "  [disabled]"@
    } else {
        ""@
    })
}

/// The lines of the list of a provider's keys.
pub fn keys_list<N>(keys: &Vec<ProviderKeyInfo<N>>) -> (out: Vec<String>)
    ensures
        views(out@) == keys@.map_values(|k: ProviderKeyInfo<N>| key_line_of(k)),
        out@.len() == keys@.len(),
        forall|i: int|
            0 <= i < keys@.len() ==> keys@[i].provider_key_id@.is_prefix_of(
                (#[trigger] out@[i])@,
            ),
{
    let mut out: Vec<String> = Vec::new();
    let n: usize = keys.len();
    for i in 0..n
        invariant
            n == keys@.len(),
            out@.len() == i,
            forall|j: int| 0 <= j < i ==> (#[trigger] out@[j])@ == key_line_of(keys@[j]),
    {
        out.push(key_line(&keys[i]));
    }
    assert forall|i: int| 0 <= i < keys@.len() implies keys@[i].provider_key_id@.is_prefix_of(
        (#[trigger] out@[i])@,
    ) by {
        law_key_line(keys@[i]);
    }
    assert(views(out@) =~= keys@.map_values(|k: ProviderKeyInfo<N>| key_line_of(k)));
    out
}

fn key_line<N>(k: &ProviderKeyInfo<N>) -> (out: String)
    ensures
        out@ == key_line_of(*k),
{
    let mut out = pad_right(&k.provider_key_id, 24);
    out.append("  ");
    out.append(&k.label);
    out.append(
        if k.disabled {
            "  [disabled]"
        } else {
            ""
        },
    );
    out
}

/// A key to create at a provider.
pub struct NewKey<N> {
    pub label: String,
    pub limit: Option<N>,
    pub limit_reset: Option<String>,
}

/// The key to create: the limits that are given, or else the defaults of the management
/// key. `None` if its provider is not known.
pub fn keys_create<N>(
    row: ManagementKeyRow<N>,
    label: String,
    limit: Option<N>,
    limit_reset: Option<String>,
) -> (out: Option<(OpenRouterProvider, NewKey<N>)>)
    ensures
        match out {
            Some((_, k)) => {
                &&& is_provider(row.provider@)
                &&& k == (NewKey {
                    label,
                    limit: given_or(limit, row.default_limit),
                    limit_reset: given_or(limit_reset, row.default_limit_reset),
                })
                &&& k.label == label
                &&& k.limit == if limit is Some {
                    limit
                } else {
                    row.default_limit
                }
                &&& k.limit_reset == if limit_reset is Some {
                    limit_reset
                } else {
                    row.default_limit_reset
                }
            },
            None => !is_provider(row.provider@),
        },
{
    match provider_for(&row.provider) {
        Some(p) => Some(
            (
                p,
                NewKey {
                    label,
                    limit: or_stored(limit, row.default_limit),
                    limit_reset: or_stored(limit_reset, row.default_limit_reset),
                },
            ),
        ),
        None => None,
    }
}

/// The key that replaces the given one: with its label and with its limits as the
/// provider has them now.
pub fn keys_rotate<N>(old: ProviderKeyInfo<N>) -> (out: NewKey<N>)
    ensures
        out == (NewKey { label: old.label, limit: old.limit, limit_reset: old.limit_reset }),
{
    NewKey { label: old.label, limit: old.limit, limit_reset: old.limit_reset }
}

/// Encrypts a new key for the chosen devices, with the provider's name for it in the
/// associated data.
pub fn store_provisioned_key(
    created: &ProviderKeyCreated,
    devices: &Vec<DeviceListEntry>,
    chosen: &Vec<usize>,
) -> (out: Result<CreateProvisionedKeyRequest, EncryptError>)
    requires
        forall|k: int| 0 <= k < chosen@.len() ==> #[trigger] chosen@[k] < devices@.len(),
    ensures
        match out {
            Ok(r) => {
                &&& r.provider_key_id@ == created.provider_key_id@
                &&& r.label@ == created.label@
                &&& is_encrypted_for(
                    r.payload,
                    "provisioned-key:"@ + created.provider_key_id@,
                    encode_utf8(created.plaintext_secret@),
                    devices@,
                    chosen@,
                )
            },
            Err(e) => encryption_fails(
                "provisioned-key:"@ + created.provider_key_id@,
                encode_utf8(created.plaintext_secret@),
                devices@,
                chosen@,
                e,
            ),
        },
{
    let aad = join2("provisioned-key:", &created.provider_key_id);
    match encrypt_for_chosen(&aad, created.plaintext_secret.as_str().as_bytes(), devices, chosen) {
        Ok(payload) => Ok(
            CreateProvisionedKeyRequest {
                provider_key_id: created.provider_key_id.clone(),
                label: created.label.clone(),
                payload,
            },
        ),
        Err(e) => Err(e),
    }
}

/// What the end of a plan prints of a new key, or why it prints nothing. `answer` is what
/// the operator typed where a question was put. `None` if the plan has not come to the
/// reveal.
pub fn created_shown(run: &Run, created: &ProviderKeyCreated, gate: Gate, answer: &str) -> (out:
    Option<Result<String, RevealError>>)
    ensures
        match out {
            Some(r) => run.next() == Some(Task::Reveal) && is_shown(
                r,
                created.plaintext_secret@,
                gate,
                answer@,
            ),
            None => run.next() != Some(Task::Reveal),
        },
        out is Some && !gate.wants_fingerprint() && !gate.is_interactive() ==> out == Some(
            Err::<String, RevealError>(RevealError::Refused),
        ),
{
    match run.task() {
        Some(Task::Reveal) => Some(show_secret(&created.plaintext_secret, gate, answer)),
        _ => None,
    }
}

/// What is said of a new key beside its secret.
pub open spec fn created_notice_of(
    done: Seq<char>,
    provider: Seq<char>,
    label: Seq<char>,
    provider_key_id: Seq<char>,
    stored_id: Seq<char>,
) -> Seq<char> {
    done + " "@ + provider + " key '"@ + label + "' (provider id: "@ + provider_key_id
        + ")\nStored encrypted as "@ + stored_id
}

/// What is said of a new key beside its secret, which this does not get to see: that it
/// was created, and under which number its encrypted copy is stored.
pub fn created_notice(
    done: &str,
    provider: &str,
    label: &str,
    provider_key_id: &str,
    stored_id: &str,
) -> (out: String)
    ensures
        out@ == created_notice_of(done@, provider@, label@, provider_key_id@, stored_id@),
{
    let mut out = join2(done, " ");
    out.append(provider);
    out.append(" key '");
    out.append(label);
    out.append("' (provider id: ");
    out.append(provider_key_id);
    out.append(")\nStored encrypted as ");
    out.append(stored_id);
    out
}

/// What is said of a key that took the place of another, beside its secret.
pub open spec fn rotated_notice_of(
    provider: Seq<char>,
    label: Seq<char>,
    provider_key_id: Seq<char>,
    stored_id: Seq<char>,
) -> Seq<char> {
    "Rotated "@ + provider + " key '"@ + label + "' (new provider id: "@ + provider_key_id
        + ")\nStored encrypted as "@ + stored_id
}

/// What is said of a key that took the place of another, beside its secret, which this
/// does not get to see: what the provider calls it, and under which number its encrypted
/// copy is stored.
pub fn rotated_notice(provider: &str, label: &str, provider_key_id: &str, stored_id: &str) -> (out:
    String)
    ensures
        out@ == rotated_notice_of(provider@, label@, provider_key_id@, stored_id@),
{
    let mut out = join2("Rotated ", provider);
    out.append(" key '");
    out.append(label);
    out.append("' (new provider id: ");
    out.append(provider_key_id);
    out.append(")\nStored encrypted as ");
    out.append(stored_id);
    out
}

/// Writing a new key into its entry: as a plain value, under no scope, without an end.
pub fn publish<N>(entry: &str, created: &ProviderKeyCreated) -> (out: SetStep<N>)
    ensures
        is_set_step(out, entry@, created.plaintext_secret, None, None, false, false, false),
        out matches SetStep::Plain { call, upsert } && call.verb == Verb::Put && call.path@
            == value_path(entry@) && upsert.value == created.plaintext_secret && upsert.ttl_hours
            is None && !upsert.ttl_sliding && !upsert.open_access,
{
    crate::commands::kv::set(entry, created.plaintext_secret.clone(), None, None, false, false, false)
}

/// Why a stored key was not printed.
#[derive(Debug, Clone, Copy, PartialEq, Eq, Structural)]
pub enum ShowError {
    Decrypt(DecryptError),
    Reveal(RevealError),
}

/// What showing a stored key prints, or why it prints nothing. `answer` is what the operator
/// typed where a question was put. `None` if a key or a nonce in the envelope does not have
/// the length that the cipher takes.
pub fn provisioned_shown(
    envelope: &DeviceKvResponse,
    private_key_b64: &str,
    gate: Gate,
    answer: &str,
) -> (out: Option<Result<String, ShowError>>)
    ensures
        match out {
            None => !envelope_fits(envelope.wrap(private_key_b64@), envelope.body()),
            Some(r) => {
                &&& envelope_fits(envelope.wrap(private_key_b64@), envelope.body())
                &&& match decrypted(envelope.wrap(private_key_b64@), envelope.body()) {
                    Err(e) => r == Err::<String, ShowError>(ShowError::Decrypt(e)),
                    Ok(p) => match r {
                        Ok(text) => is_shown(Ok(text), utf8_lossy(p), gate, answer@),
                        Err(ShowError::Reveal(e)) => is_shown(
                            Err(e),
                            utf8_lossy(p),
                            gate,
                            answer@,
                        ),
                        Err(ShowError::Decrypt(_)) => false,
                    },
                }
            },
        },
        out matches Some(Ok(_)) ==> gate.wants_fingerprint() || gate.is_interactive(),
{
    match fetch_and_decrypt(envelope, private_key_b64) {
        None => None,
        Some(Err(e)) => Some(Err(ShowError::Decrypt(e))),
        Some(Ok(secret)) => match show_secret(&secret, gate, answer) {
            Ok(text) => Some(Ok(text)),
            Err(e) => Some(Err(ShowError::Reveal(e))),
        },
    }
}

/// Whether the first record of the provider's key is at position `i`.
pub open spec fn first_record(
    rows: Seq<ProvisionedKeyRow>,
    provider_key_id: Seq<char>,
    i: int,
) -> bool {
    &&& 0 <= i < rows.len()
    &&& rows[i].provider_key_id@ == provider_key_id
    &&& forall|j: int| 0 <= j < i ==> (#[trigger] rows[j]).provider_key_id@ != provider_key_id
}

/// Asking to delete the record of a key that is gone from its provider; `None` if
/// there is no record of it.
pub fn delete_local_provisioned_key(
    mgmt_key_id: &str,
    rows: &Vec<ProvisionedKeyRow>,
    provider_key_id: &str,
) -> (out: Option<Call>)
    ensures
        match out {
            Some(c) => exists|i: int| #[trigger]
                first_record(rows@, provider_key_id@, i) && c.asks(
                    Verb::Delete,
                    provisioned_keys_path_of(mgmt_key_id@).push('/') + rows@[i].id@,
                ),
            None => forall|i: int|
                0 <= i < rows@.len() ==> (#[trigger] rows@[i]).provider_key_id@ != provider_key_id@,
        },
{
    let n: usize = rows.len();
    for i in 0..n
        invariant
            n == rows@.len(),
            forall|j: int|
                0 <= j < i ==> (#[trigger] rows@[j]).provider_key_id@ != provider_key_id@,
    {
        if same_text(&rows[i].provider_key_id, provider_key_id) {
            assert(first_record(rows@, provider_key_id@, i as int));
            let path = provisioned_key_path(mgmt_key_id, &rows[i].id);
            return Some(Call { verb: Verb::Delete, path });
        }
    }
    None
}

/// Whether `d` is the device that `wanted` names, by its name or its id.
pub open spec fn is_named(d: DeviceListEntry, wanted: Seq<char>) -> bool {
    d.name@ == wanted || d.id@ == wanted
}

/// The numbers of the devices that are asked for by name or id: for each the first
/// that fits. Fails with the position of the first that none fits.
pub fn named_devices(devices: &Vec<DeviceListEntry>, wanted: &Vec<String>) -> (out: Result<
    Vec<usize>,
    usize,
>)
    ensures
        match out {
            Ok(chosen) => {
                &&& chosen@.len() == wanted@.len()
                &&& forall|k: int|
                    0 <= k < chosen@.len() ==> first_named(
                        devices@,
                        wanted@[k]@,
                        #[trigger] chosen@[k] as int,
                    )
                &&& forall|k: int| 0 <= k < chosen@.len() ==> #[trigger] chosen@[k] < devices@.len()
                &&& forall|k: int|
                    0 <= k < chosen@.len() ==> {
                        let d = devices@[#[trigger] chosen@[k] as int];
                        d.name@ == wanted@[k]@ || d.id@ == wanted@[k]@
                    }
                &&& forall|k: int, j: int|
                    0 <= k < chosen@.len() && 0 <= j < chosen@[k] ==> (
                    #[trigger] devices@[j]).name@ != (#[trigger] wanted@[k])@ && devices@[j].id@
                        != wanted@[k]@
            },
            Err(at) => {
                &&& at < wanted@.len()
                &&& !some_named(devices@, wanted@[at as int]@)
                &&& forall|j: int|
                    0 <= j < devices@.len() ==> (#[trigger] devices@[j]).name@
                        != wanted@[at as int]@ && devices@[j].id@ != wanted@[at as int]@
                &&& forall|k: int|
                    0 <= k < at ==> some_named(devices@, (#[trigger] wanted@[k])@)
            },
        },
{
    let n: usize = wanted.len();
    let mut chosen: Vec<usize> = Vec::new();
    for k in 0..n
        invariant
            n == wanted@.len(),
            chosen@.len() == k,
            forall|j: int|
                0 <= j < k ==> first_named(devices@, wanted@[j]@, #[trigger] chosen@[j] as int),
            forall|j: int| 0 <= j < k ==> some_named(devices@, (#[trigger] wanted@[j])@),
    {
        match find_named(devices, &wanted[k]) {
            Some(i) => {
                chosen.push(i);
            },
            None => {
                proof {
                    assert forall|j: int| 0 <= j < devices@.len() implies (
                    #[trigger] devices@[j]).name@ != wanted@[k as int]@ && devices@[j].id@
                        != wanted@[k as int]@ by {
                        assert(!is_named(devices@[j], wanted@[k as int]@));
                    }
                }
                return Err(k);
            },
        }
    }
    proof {
        assert forall|k: int| 0 <= k < chosen@.len() implies {
            let d = devices@[#[trigger] chosen@[k] as int];
            d.name@ == wanted@[k]@ || d.id@ == wanted@[k]@
        } by {
            assert(first_named(devices@, wanted@[k]@, chosen@[k] as int));
        }
        assert forall|k: int, j: int| 0 <= k < chosen@.len() && 0 <= j < chosen@[k] implies (
        #[trigger] devices@[j]).name@ != (#[trigger] wanted@[k])@ && devices@[j].id@
            != wanted@[k]@ by {
            assert(first_named(devices@, wanted@[k]@, chosen@[k] as int));
            assert(!is_named(devices@[j], wanted@[k]@));
        }
    }
    Ok(chosen)
}

/// Whether some device is named by `wanted`.
pub open spec fn some_named(devices: Seq<DeviceListEntry>, wanted: Seq<char>) -> bool {
    exists|i: int| 0 <= i < devices.len() && is_named(#[trigger] devices[i], wanted)
}

/// Whether the first device that `wanted` names is at position `i`.
pub open spec fn first_named(devices: Seq<DeviceListEntry>, wanted: Seq<char>, i: int) -> bool {
    &&& 0 <= i < devices.len()
    &&& is_named(devices[i], wanted)
    &&& forall|j: int| 0 <= j < i ==> !is_named(#[trigger] devices[j], wanted)
}

fn find_named(devices: &Vec<DeviceListEntry>, wanted: &str) -> (out: Option<usize>)
    ensures
        match out {
            Some(i) => first_named(devices@, wanted@, i as int) && some_named(devices@, wanted@),
            None => !some_named(devices@, wanted@),
        },
{
    let n: usize = devices.len();
    for i in 0..n
        invariant
            n == devices@.len(),
            forall|j: int| 0 <= j < i ==> !is_named(#[trigger] devices@[j], wanted@),
    {
        if same_text(&devices[i].name, wanted) || same_text(&devices[i].id, wanted) {
            return Some(i);
        }
    }
    None
}

// ── Laws ────────────────────────────────────────────────────────────────────
/// The first device that a text names has that text, and not only a part of it, as its name or
/// as its id, and no device before it has; and a text that no device has as its name or its id
/// names none.
pub proof fn law_named_device(devices: Seq<DeviceListEntry>, wanted: Seq<char>, i: int)
    ensures
        first_named(devices, wanted, i) ==> {
            &&& 0 <= i < devices.len()
            &&& devices[i].name@ == wanted || devices[i].id@ == wanted
            &&& forall|j: int|
                0 <= j < i ==> (#[trigger] devices[j]).name@ != wanted && devices[j].id@ != wanted
        },
        some_named(devices, wanted) <==> exists|j: int|
            0 <= j < devices.len() && ((#[trigger] devices[j]).name@ == wanted || devices[j].id@
                == wanted),
{
    if first_named(devices, wanted, i) {
        assert forall|j: int| 0 <= j < i implies (#[trigger] devices[j]).name@ != wanted
            && devices[j].id@ != wanted by {
            assert(!is_named(devices[j], wanted));
        }
    }
    if some_named(devices, wanted) {
        let j = choose|j: int| 0 <= j < devices.len() && is_named(#[trigger] devices[j], wanted);
        assert(devices[j].name@ == wanted || devices[j].id@ == wanted);
    }
    if exists|j: int|
        0 <= j < devices.len() && ((#[trigger] devices[j]).name@ == wanted || devices[j].id@
            == wanted) {
        let j = choose|j: int|
            0 <= j < devices.len() && ((#[trigger] devices[j]).name@ == wanted || devices[j].id@
                == wanted);
        assert(is_named(devices[j], wanted));
    }
}

/// The line of a key begins with the whole of its id, however long that is. At least a space
/// stands behind it, and behind the column of twenty-four characters and two more spaces the
/// whole of the label; a key that is disabled says so at the end, and no other does.
pub proof fn law_key_line<N>(k: ProviderKeyInfo<N>)
    ensures
        ({
            let line = key_line_of(k);
            let id = k.provider_key_id@;
            let column = if id.len() < 24 {
                24
            } else {
                id.len() as int
            };
            let tail = line.skip(column + 2);
            &&& id.is_prefix_of(line)
            &&& forall|i: int| id.len() <= i < column + 2 ==> #[trigger] line[i] == ' '
            &&& k.label@.is_prefix_of(tail)
            &&& tail.skip(k.label@.len() as int) == if k.disabled {
                "  [disabled]"@
            } else {
                Seq::empty()
            }
            &&& line.len() >= column + 2
        }),
{
    reveal_strlit("  ");
    reveal_strlit("");
    let id = k.provider_key_id@;
    let line = key_line_of(k);
    let head = padded(id, 24);
    crate::text::law_padded(id, 24);
    let column = head.len() as int;
    let end = if k.disabled {
        "  [disabled]"@
    } else {
        ""@
    };
    assert(line =~= head + "  "@ + k.label@ + end);
    assert(line.take(id.len() as int) =~= head.take(id.len() as int));
    assert(head.take(id.len() as int) =~= id);
    assert forall|i: int| id.len() <= i < column + 2 implies #[trigger] line[i] == ' ' by {
        if i < column {
            assert(line[i] == head[i]);
        }
    }
    let tail = line.skip(column + 2);
    assert(tail =~= k.label@ + end);
    assert(tail.take(k.label@.len() as int) =~= k.label@);
    assert(tail.skip(k.label@.len() as int) =~= end);
    assert(!k.disabled ==> end =~= Seq::empty());
}

/// Keys with different ids have different lines, of whatever length the ids are, if no id holds
/// a space.
pub proof fn law_key_lines_tell_keys_apart<N>(a: ProviderKeyInfo<N>, b: ProviderKeyInfo<N>)
    requires
        !a.provider_key_id@.contains(' '),
        !b.provider_key_id@.contains(' '),
        key_line_of(a) == key_line_of(b),
    ensures
        a.provider_key_id@ == b.provider_key_id@,
{
    law_key_line(a);
    law_key_line(b);
    let x = a.provider_key_id@;
    let y = b.provider_key_id@;
    let line = key_line_of(a);
    if x.len() < y.len() {
        assert(line[x.len() as int] == ' ');
        assert(y[x.len() as int] == line[x.len() as int]);
        assert(y.contains(y[x.len() as int]));
    }
    if y.len() < x.len() {
        assert(line[y.len() as int] == ' ');
        assert(x[y.len() as int] == line[y.len() as int]);
        assert(x.contains(x[y.len() as int]));
    }
    assert(x =~= y);
}

/// The first row with an id has that id, whole, and no row before it has.
pub proof fn law_first_row<N>(rows: Seq<ManagementKeyRow<N>>, id: Seq<char>, i: int)
    requires
        first_row(rows, id, i),
    ensures
        0 <= i < rows.len(),
        rows[i].id@ == id,
        forall|j: int| 0 <= j < i ==> (#[trigger] rows[j]).id@ != id,
{
}

/// The first record of a provider's key has that key's id, whole, and no record before it has.
pub proof fn law_first_record(rows: Seq<ProvisionedKeyRow>, provider_key_id: Seq<char>, i: int)
    requires
        first_record(rows, provider_key_id, i),
    ensures
        0 <= i < rows.len(),
        rows[i].provider_key_id@ == provider_key_id,
        forall|j: int| 0 <= j < i ==> (#[trigger] rows[j]).provider_key_id@ != provider_key_id,
{
}

/// The path of a management key is a fixed part and the whole of its id, and the keys that it
/// provisioned lie below it; so different management keys have different paths.
pub proof fn law_management_key_paths(id: Seq<char>, other: Seq<char>)
    ensures
        management_key_path_of(id).take(27) == "/api/admin/management-keys/"@,
        management_key_path_of(id).skip(27) == id,
        provisioned_keys_path_of(id) == management_key_path_of(id) + "/provisioned-keys"@,
        management_key_path_of(id) == management_key_path_of(other) ==> id == other,
        provisioned_keys_path_of(id) == provisioned_keys_path_of(other) ==> id == other,
{
    reveal_strlit("/api/admin/management-keys/");
    reveal_strlit("/provisioned-keys");
    assert(management_key_path_of(id).take(27) =~= "/api/admin/management-keys/"@);
    assert(management_key_path_of(id).skip(27) =~= id);
    assert(management_key_path_of(other).skip(27) =~= other);
    if provisioned_keys_path_of(id) == provisioned_keys_path_of(other) {
        let a = provisioned_keys_path_of(id);
        assert(a.subrange(27, a.len() - 17) =~= id);
        assert(provisioned_keys_path_of(other).subrange(27, a.len() - 17) =~= other);
    }
}

/// A management key that can be read is the text whose UTF-8 the envelope holds; and it cannot
/// be read for one of three reasons: the envelope does not fit the cipher, it does not open, or
/// what is in it is not UTF-8.
pub proof fn law_management_key_is_the_plaintext(
    envelope: DeviceKvResponse,
    private_key: Seq<char>,
)
    ensures
        match management_key_of(envelope, private_key) {
            Ok(text) => {
                &&& envelope_fits(envelope.wrap(private_key), envelope.body())
                &&& decrypted(envelope.wrap(private_key), envelope.body()) == Ok::<
                    Seq<u8>,
                    DecryptError,
                >(encode_utf8(text))
            },
            Err(EnvelopeError::Malformed) => !envelope_fits(
                envelope.wrap(private_key),
                envelope.body(),
            ),
            Err(EnvelopeError::Decrypt(e)) => decrypted(
                envelope.wrap(private_key),
                envelope.body(),
            ) == Err::<Seq<u8>, DecryptError>(e),
            Err(EnvelopeError::NotUtf8(e)) => decrypted(
                envelope.wrap(private_key),
                envelope.body(),
            ) matches Ok(p) && !valid_utf8(p) && e == utf8_error(p),
            Err(EnvelopeError::KeyType) => false,
        },
{
    if let Ok(p) = decrypted(envelope.wrap(private_key), envelope.body()) {
        if valid_utf8(p) {
            decode_utf8_encode_utf8(p);
        }
    }
}

/// A limit is reset daily, weekly, monthly or not at all, written just so.
pub proof fn law_limit_reset(value: Seq<char>)
    ensures
        is_limit_reset(None),
        is_limit_reset(Some(value)) <==> value == "daily"@ || value == "weekly"@ || value
            == "monthly"@,
{
}

/// What is given goes before what is stored, and what is stored is kept where nothing is given.
pub proof fn law_given_goes_first<T>(given: T, stored: Option<T>)
    ensures
        given_or(Some(given), stored) == Some(given),
        given_or(None, stored) == stored,
{
}

/// What is said of a new key names all that the operator needs of it, whole: what was done, the
/// provider, the label, the provider's id of the key, and at the end the number of the stored
/// copy.
pub proof fn law_notices_name_the_key(
    done: Seq<char>,
    provider: Seq<char>,
    label: Seq<char>,
    provider_key_id: Seq<char>,
    stored_id: Seq<char>,
)
    ensures
        ({
            let out = created_notice_of(done, provider, label, provider_key_id, stored_id);
            &&& (done + seq![' '] + provider + " key '"@ + label).is_prefix_of(out)
            &&& occurs(out, "(provider id: "@ + provider_key_id + seq![')'])
            &&& ("Stored encrypted as "@ + stored_id).is_suffix_of(out)
        }),
        ({
            let out = rotated_notice_of(provider, label, provider_key_id, stored_id);
            &&& ("Rotated "@ + provider + " key '"@ + label).is_prefix_of(out)
            &&& occurs(out, "(new provider id: "@ + provider_key_id + seq![')'])
            &&& ("Stored encrypted as "@ + stored_id).is_suffix_of(out)
        }),
{
    reveal_strlit(" ");
    reveal_strlit("' (provider id: ");
    reveal_strlit("(provider id: ");
    reveal_strlit("' (new provider id: ");
    reveal_strlit("(new provider id: ");
    reveal_strlit(")\nStored encrypted as ");
    reveal_strlit("Stored encrypted as ");
    let end = "Stored encrypted as "@ + stored_id;
    let quote = seq!['\'', ' '];
    let out = created_notice_of(done, provider, label, provider_key_id, stored_id);
    let head = done + seq![' '] + provider + " key '"@ + label;
    let part = "(provider id: "@ + provider_key_id + seq![')'];
    assert(out =~= head + quote + part + (seq!['\n'] + end));
    assert(out.take(head.len() as int) =~= head);
    assert(out.skip(out.len() - end.len()) =~= end);
    crate::text::law_occurs(out, part, head + quote, seq!['\n'] + end);
    let out = rotated_notice_of(provider, label, provider_key_id, stored_id);
    let head = "Rotated "@ + provider + " key '"@ + label;
    let part = "(new provider id: "@ + provider_key_id + seq![')'];
    assert(out =~= head + quote + part + (seq!['\n'] + end));
    assert(out.take(head.len() as int) =~= head);
    assert(out.skip(out.len() - end.len()) =~= end);
    crate::text::law_occurs(out, part, head + quote, seq!['\n'] + end);
}

} // verus!
