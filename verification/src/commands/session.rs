//! Whether there is a session, and whose it is.

use vstd::prelude::*;
use crate::client::{Call, Client, Verb};
use crate::config::setting;
use crate::text::join2;

verus! {

/// Whether the session token is valid, given the status with which the server
/// answered the probe, if it did.
pub fn check(client: &Client, probe: Option<u16>) -> (r: bool)
    ensures
        r == (client.cfg.session_token is Some && probe is Some && probe->0 != 401),
{
    client.is_session_valid(probe)
}

/// The line on the session: `Ok` if it is valid, `Err` if it is not.
pub fn status(client: &Client, probe: Option<u16>) -> (out: Result<&'static str, &'static str>)
    ensures
        match out {
            Ok(line) => {
                &&& client.cfg.session_token is Some && probe is Some && probe->0 != 401
                &&& line@ == "session: valid"@
            },
            Err(line) => {
                &&& !(client.cfg.session_token is Some && probe is Some && probe->0 != 401)
                &&& line@ == "session: invalid or missing"@
            },
        },
{
    if client.is_session_valid(probe) {
        Ok("session: valid")
    } else {
        Err("session: invalid or missing")
    }
}

/// Asking whose the session is.
pub fn whoami_call() -> (out: Call)
    ensures
        out.asks(Verb::Get, "/api/whoami"@),
{
    Call { verb: Verb::Get, path: "/api/whoami".to_owned() }
}

/// The line on the device of a session.
pub open spec fn device_line_of(id: Option<Seq<char>>, name: Option<Seq<char>>) -> Seq<char> {
    match (id, name) {
        (Some(id), Some(name)) => ("device: "@ + name + " ("@ + id).push(')'),
        _ => "device: no device bound"@,
    }
}

/// The line on the device of a session: its name and number, where the server gives
/// both.
pub fn device_line(id: &Option<String>, name: &Option<String>) -> (out: String)
    ensures
        out@ == device_line_of(setting(*id), setting(*name)),
{
    match (id, name) {
        (Some(id), Some(name)) => {
            let mut out = join2("device: ", name);
            out.append(" (");
            out.append(id);
            out.push(')');
            out
        },
        _ => "device: no device bound".to_owned(),
    }
}

/// The line on the device holds its name and, in brackets at the end, its number, both whole, if
/// the server gives both; and says that there is none if it does not.
pub proof fn law_device_line(id: Seq<char>, name: Seq<char>)
    ensures
        ({
            let line = device_line_of(Some(id), Some(name));
            &&& ("device: "@ + name).is_prefix_of(line)
            &&& line.skip(8 + name.len() as int) == seq![' ', '('] + id + seq![')']
        }),
        device_line_of(None, Some(name)) == "device: no device bound"@,
        device_line_of(Some(id), None) == "device: no device bound"@,
        device_line_of(None, None) == "device: no device bound"@,
{
    reveal_strlit("device: ");
    reveal_strlit(" (");
    let line = device_line_of(Some(id), Some(name));
    let head = "device: "@ + name;
    assert(line.take(head.len() as int) =~= head);
    assert(line.skip(8 + name.len() as int) =~= seq![' ', '('] + id + seq![')']);
}

} // verus!
