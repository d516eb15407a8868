//! This client's device: its key pair, and its enrolment with the server.
//!
//! The server enrols a device only with the signature of a passkey, which this
//! client cannot make. It proposes its public key and waits for somebody to confirm
//! it, or prints the key for somebody to enrol.

use vstd::prelude::*;
use crate::cipher::{public_key, random_secret, x25519_public};
use crate::client::{Call, Client, Save, Verb};
use crate::config::{setting, Config};
use crate::crypto::{device_key, read_device_key, recipient_key, DecryptError};
use crate::encoding::{
    base64_bytes, base64_encode, base64_text, is_base64_char, law_base64_alphabet,
    law_base64_decode_encode,
};
use crate::text::{join2, pad_right, padded, same_text, trim, trimmed, views};
use crate::urlencode::{law_path_is_unambiguous, percent_encoded, urlencode};

verus! {

// ── The key pair ────────────────────────────────────────────────────────────
/// A device's secret key, and the text to store it with if it is new.
pub struct DeviceSecret {
    pub secret: Vec<u8>,
    pub new_file: Option<String>,
}

proof fn lemma_trim_base64(b: Seq<u8>)
    ensures
        trimmed(base64_text(b)) == base64_text(b),
{
    let text = base64_text(b);
    law_base64_alphabet(b);
    if text.len() > 0 {
        assert(is_base64_char(text[0]));
        assert(is_base64_char(text[text.len() - 1]));
    }
}

/// A secret key that was stored is the one that is loaded again.
pub proof fn law_stored_key_is_loaded(secret: Seq<u8>)
    requires
        secret.len() == 32,
    ensures
        device_key(base64_text(secret)) == Ok::<Seq<u8>, DecryptError>(secret),
{
    lemma_trim_base64(secret);
    law_base64_decode_encode(secret);
}

/// The device's secret key: the one in the file if there is a file, else a new one.
/// What is to be stored of a new key gives the key back when it is loaded.
pub fn load_or_create_key(stored: Option<&str>) -> (out: Result<DeviceSecret, DecryptError>)
    ensures
        match stored {
            Some(text) => match out {
                Ok(s) => {
                    &&& device_key(text@) == Ok::<Seq<u8>, DecryptError>(s.secret@)
                    &&& s.new_file is None
                },
                Err(e) => device_key(text@) == Err::<Seq<u8>, DecryptError>(e),
            },
            None => {
                &&& out matches Ok(s)
                &&& setting(s.new_file) == Some(base64_text(s.secret@))
                &&& device_key(base64_text(s.secret@)) == Ok::<Seq<u8>, DecryptError>(s.secret@)
            },
        },
        out matches Ok(s) ==> s.secret@.len() == 32,
{
    match stored {
        Some(text) => match read_device_key(text) {
            Ok(secret) => Ok(DeviceSecret { secret, new_file: None }),
            Err(e) => Err(e),
        },
        None => {
            let secret = random_secret();
            proof {
                law_stored_key_is_loaded(secret@);
            }
            let text = base64_encode(&secret);
            Ok(DeviceSecret { secret, new_file: Some(text) })
        },
    }
}

/// The private key in the file, without the whitespace around it.
pub fn load_private_key_b64(stored: &str) -> (out: String)
    ensures
        out@ == trimmed(stored@),
{
    trim(stored)
}

/// The public key to a secret key. A device that is enrolled with it can be
/// encrypted for.
pub fn public_key_b64(secret: &Vec<u8>) -> (out: String)
    requires
        secret@.len() == 32,
    ensures
        out@ == base64_text(x25519_public(secret@)),
        base64_bytes(out@) == Some(x25519_public(secret@)),
        forall|i: usize| #[trigger] recipient_key("x25519"@, out@, i) is Ok,
{
    let public = public_key(secret);
    proof {
        law_base64_decode_encode(public@);
    }
    base64_encode(&public)
}

// ── Proposing the device ────────────────────────────────────────────────────
/// What the server must know of a device to enrol it.
pub struct DeviceProposal {
    pub name: String,
    pub public_key: String,
    pub key_type: String,
}

/// What somebody must enrol to register a device with the given secret key by hand.
pub fn register(name: String, secret: &Vec<u8>) -> (out: DeviceProposal)
    requires
        secret@.len() == 32,
    ensures
        out.name == name,
        out.key_type@ == "x25519"@,
        out.public_key@ == base64_text(x25519_public(secret@)),
        forall|i: usize| #[trigger] recipient_key(out.key_type@, out.public_key@, i) is Ok,
{
    DeviceProposal { name, public_key: public_key_b64(secret), key_type: "x25519".to_owned() }
}

/// The proposal of a device with the given secret key, to be posted without
/// credentials.
pub fn propose(name: String, secret: &Vec<u8>) -> (out: (Call, DeviceProposal))
    requires
        secret@.len() == 32,
    ensures
        out.0.asks(Verb::Post, "/api/devices/propose"@),
        out.1.name == name,
        out.1.key_type@ == "x25519"@,
        out.1.public_key@ == base64_text(x25519_public(secret@)),
        forall|i: usize| #[trigger] recipient_key(out.1.key_type@, out.1.public_key@, i) is Ok,
{
    let call = Call { verb: Verb::Post, path: "/api/devices/propose".to_owned() };
    (call, register(name, secret))
}

/// The path on which the state of a proposal is read.
pub open spec fn proposal_status_path(id: Seq<char>, poll_secret: Seq<char>) -> Seq<char> {
    "/api/devices/propose/"@ + percent_encoded(id) + "/status?secret="@ + percent_encoded(
        poll_secret,
    )
}

/// The path on which the state of a proposal is read.
pub fn propose_status_path(id: &str, poll_secret: &str) -> (out: String)
    ensures
        out@ == proposal_status_path(id@, poll_secret@),
{
    let mut out = join2("/api/devices/propose/", &urlencode(id));
    out.append("/status?secret=");
    out.append(&urlencode(poll_secret));
    out
}

/// Different proposals, and different secrets, have different paths.
pub proof fn law_proposal_path_is_unambiguous(
    id: Seq<char>,
    poll_secret: Seq<char>,
    other_id: Seq<char>,
    other_secret: Seq<char>,
)
    requires
        proposal_status_path(id, poll_secret) == proposal_status_path(other_id, other_secret),
    ensures
        id == other_id,
        poll_secret == other_secret,
{
    reveal_strlit("/status?secret=");
    law_path_is_unambiguous(
        "/api/devices/propose/"@,
        "/status?secret="@,
        id,
        poll_secret,
        other_id,
        other_secret,
    );
}

/// How long a proposal is polled, in nanoseconds: half an hour, after which the
/// server gives it up too.
pub const PROPOSAL_TIMEOUT: u128 = 1_800_000_000_000;

/// Whether a proposal has been polled for long enough.
pub fn propose_timed_out(elapsed_nanos: u128) -> (r: bool)
    ensures
        r == (elapsed_nanos > 1_800_000_000_000),
{
    elapsed_nanos > PROPOSAL_TIMEOUT
}

/// The state of a proposal.
pub struct ProposalStatus {
    pub status: String,
    pub device_id: Option<String>,
}

/// Why a proposal failed.
#[derive(Debug, Clone, Copy, PartialEq, Eq, Structural)]
pub enum ProposeFailure {
    /// The server confirmed it but named no device.
    NoDeviceId,
    Rejected,
    Expired,
}

/// What follows a poll of a proposal.
pub enum ProposeStep {
    /// Poll again after five seconds.
    Wait,
    /// Write the settings, which hold this device now.
    Confirmed(String),
    Fail(ProposeFailure),
}

/// This client with another device.
pub open spec fn with_device(client: Client, device_id: Option<String>) -> Client {
    Client { cfg: Config { device_id, ..client.cfg }, ..client }
}

/// The client, and what follows, after a poll that was answered with `state`, or not
/// answered at all.
pub open spec fn after_proposal_poll(client: Client, state: Option<ProposalStatus>) -> (
    Client,
    ProposeStep,
) {
    match state {
        None => (client, ProposeStep::Wait),
        Some(s) => if s.status@ == "confirmed"@ {
            match s.device_id {
                Some(id) => (with_device(client, Some(id)), ProposeStep::Confirmed(id)),
                None => (client, ProposeStep::Fail(ProposeFailure::NoDeviceId)),
            }
        } else if s.status@ == "rejected"@ {
            (client, ProposeStep::Fail(ProposeFailure::Rejected))
        } else if s.status@ == "expired"@ {
            (client, ProposeStep::Fail(ProposeFailure::Expired))
        } else {
            (client, ProposeStep::Wait)
        },
    }
}

/// Takes the answer to a poll of a proposal.
pub fn propose_polled(client: &mut Client, state: Option<ProposalStatus>) -> (out: ProposeStep)
    ensures
        (*final(client), out) == after_proposal_poll(*old(client), state),
{
    match state {
        None => ProposeStep::Wait,
        Some(s) => {
            if same_text(&s.status, "confirmed") {
                match s.device_id {
                    Some(id) => {
                        client.cfg.device_id = Some(id.clone());
                        ProposeStep::Confirmed(id)
                    },
                    None => ProposeStep::Fail(ProposeFailure::NoDeviceId),
                }
            } else if same_text(&s.status, "rejected") {
                ProposeStep::Fail(ProposeFailure::Rejected)
            } else if same_text(&s.status, "expired") {
                ProposeStep::Fail(ProposeFailure::Expired)
            } else {
                ProposeStep::Wait
            }
        },
    }
}

/// Records the device that the server assigned.
pub fn set_id(client: &mut Client, id: String) -> (save: Save)
    ensures
        *final(client) == with_device(*old(client), Some(id)),
        save == Save::Required,
{
    client.cfg.device_id = Some(id);
    Save::Required
}

// ── Removing a device ───────────────────────────────────────────────────────
/// A device, as the server lists it.
pub struct DeviceRow {
    pub id: String,
    pub name: String,
    pub created_at: String,
    pub last_seen_at: Option<String>,
}

/// The line that stands for a device in the picker.
pub open spec fn row_line(d: DeviceRow) -> Seq<char> {
    padded(d.name@, 30) + "  registered: "@ + d.created_at@
}

/// The lines of the devices for the picker; `None` if there are no devices.
pub fn row_lines(devices: &Vec<DeviceRow>) -> (out: Option<Vec<String>>)
    ensures
        match out {
            Some(lines) => devices@.len() > 0 && views(lines@) == devices@.map_values(
                |d: DeviceRow| row_line(d),
            ),
            None => devices@.len() == 0,
        },
{
    let n: usize = devices.len();
    if n == 0 {
        return None;
    }
    let mut out: Vec<String> = Vec::new();
    for i in 0..n
        invariant
            n == devices@.len(),
            views(out@) == devices@.take(i as int).map_values(|d: DeviceRow| row_line(d)),
    {
        let mut line = pad_right(&devices[i].name, 30);
        line.append("  registered: ");
        line.append(&devices[i].created_at);
        let ghost before = out@;
        out.push(line);
        assert(views(out@) =~= views(before).push(line@));
        assert(devices@.take(i + 1).map_values(|d: DeviceRow| row_line(d)) =~= devices@.take(
            i as int,
        ).map_values(|d: DeviceRow| row_line(d)).push(line@));
    }
    assert(devices@.take(n as int) =~= devices@);
    Some(out)
}

/// The device that was chosen first; `None` if there is none, or it is not in the list.
pub fn chosen_device(devices: &Vec<DeviceRow>, chosen: &Vec<usize>) -> (out: Option<String>)
    ensures
        match out {
            Some(id) => chosen@.len() > 0 && chosen@[0] < devices@.len() && id@
                == devices@[chosen@[0] as int].id@,
            None => chosen@.len() == 0 || chosen@[0] >= devices@.len(),
        },
{
    if chosen.len() == 0 || chosen[0] >= devices.len() {
        None
    } else {
        Some(devices[chosen[0]].id.clone())
    }
}

/// Asking for the list of devices.
pub fn list() -> (out: Call)
    ensures
        out.asks(Verb::Get, "/api/admin/devices"@),
{
    Call { verb: Verb::Get, path: "/api/admin/devices".to_owned() }
}

/// Asking to remove a device.
pub fn unregister_call(id: &str) -> (out: Call)
    ensures
        out.asks(Verb::Delete, "/api/admin/devices/"@ + id@),
{
    Call { verb: Verb::Delete, path: join2("/api/admin/devices/", id) }
}

/// Takes note that a device was removed from the server: the settings forget it if it
/// is this client's.
pub fn unregister(client: &mut Client, id: &str) -> (save: Save)
    ensures
        if setting(old(client).cfg.device_id) == Some(id@) {
            *final(client) == with_device(*old(client), None) && save == Save::Required
        } else {
            *final(client) == *old(client) && save == Save::Keep
        },
{
    let own = match &client.cfg.device_id {
        Some(d) => same_text(d, id),
        None => false,
    };
    if own {
        client.cfg.device_id = None;
        Save::Required
    } else {
        Save::Keep
    }
}

// ── Laws ────────────────────────────────────────────────────────────────────
/// A poll of a proposal is decided by the word that the server gives. `confirmed` records the
/// device that it names, and only that, and fails if it names none; `rejected` and `expired`
/// fail; anything else, and no answer, waits. Nothing but a confirmation changes the settings.
pub proof fn law_proposal_poll(client: Client, state: Option<ProposalStatus>)
    ensures
        ({
            let (after, step) = after_proposal_poll(client, state);
            let said = |word: Seq<char>| state is Some && state->0.status@ == word;
            &&& step matches ProposeStep::Confirmed(id) ==> said("confirmed"@)
                && state->0.device_id == Some(id) && after.cfg.device_id == Some(id)
            &&& said("confirmed"@) && state->0.device_id is Some ==> step is Confirmed
            &&& said("confirmed"@) && state->0.device_id is None <==> step == ProposeStep::Fail(
                ProposeFailure::NoDeviceId,
            )
            &&& said("rejected"@) <==> step == ProposeStep::Fail(ProposeFailure::Rejected)
            &&& said("expired"@) <==> step == ProposeStep::Fail(ProposeFailure::Expired)
            &&& !said("confirmed"@) && !said("rejected"@) && !said("expired"@) <==> step
                == ProposeStep::Wait
            &&& !(step is Confirmed) ==> after == client
            &&& after.cfg.session_token == client.cfg.session_token
            &&& after.cfg.api_key == client.cfg.api_key
            &&& after.cfg.base_url == client.cfg.base_url
            &&& after.cfg.pending_session_request == client.cfg.pending_session_request
            &&& after.base_url == client.base_url && after.silent == client.silent
        }),
{
    reveal_strlit("confirmed");
    reveal_strlit("rejected");
    reveal_strlit("expired");
    assert("confirmed"@[0] == 'c' && "rejected"@[0] == 'r' && "expired"@[0] == 'e');
}

/// Recording a device changes the device and nothing else.
pub proof fn law_with_device(client: Client, device_id: Option<String>)
    ensures
        with_device(client, device_id).cfg.device_id == device_id,
        with_device(with_device(client, device_id), client.cfg.device_id) == client,
{
}

/// The path on which a proposal is polled begins with a fixed part, behind which its number is
/// encoded; and it ends with the encoded secret.
pub proof fn law_proposal_path(id: Seq<char>, poll_secret: Seq<char>)
    ensures
        proposal_status_path(id, poll_secret).take(21) == "/api/devices/propose/"@,
        percent_encoded(id).is_prefix_of(proposal_status_path(id, poll_secret).skip(21)),
        proposal_status_path(id, poll_secret).skip(21 + percent_encoded(id).len() as int)
            == "/status?secret="@ + percent_encoded(poll_secret),
{
    reveal_strlit("/api/devices/propose/");
    let path = proposal_status_path(id, poll_secret);
    let e = percent_encoded(id);
    assert(path.take(21) =~= "/api/devices/propose/"@);
    assert(path.skip(21).take(e.len() as int) =~= e);
    assert(path.skip(21 + e.len() as int) =~= "/status?secret="@ + percent_encoded(poll_secret));
}

/// The line of a device begins with the whole of its name, filled up with spaces to thirty
/// characters, and ends with the whole time of its registration.
pub proof fn law_row_line(d: DeviceRow)
    ensures
        ({
            let line = row_line(d);
            let name = d.name@;
            let column = if name.len() < 30 {
                30
            } else {
                name.len() as int
            };
            &&& name.is_prefix_of(line)
            &&& forall|i: int| name.len() <= i < column ==> #[trigger] line[i] == ' '
            &&& line.skip(column) == "  registered: "@ + d.created_at@
        }),
{
    let line = row_line(d);
    let name = d.name@;
    let head = padded(name, 30);
    crate::text::law_padded(name, 30);
    assert(line.take(name.len() as int) =~= head.take(name.len() as int));
    assert(head.take(name.len() as int) =~= name);
    assert forall|i: int| name.len() <= i < head.len() implies #[trigger] line[i] == ' ' by {
        assert(line[i] == head[i]);
    }
    assert(line.skip(head.len() as int) =~= "  registered: "@ + d.created_at@);
}

} // verus!
