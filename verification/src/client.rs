//! Talking to the server: which requests are made, and with which credentials.
//!
//! Nothing in this library sends anything. Its functions say what to send next, or
//! take what came back and say what follows from it.

use vstd::prelude::*;
use crate::config::Config;
use crate::text::{chars_of, join2, starts_with, text_of};

verus! {

/// The client: its settings, the address of the server without a slash at its
/// end, and whether it must fail rather than ask for a session.
pub struct Client {
    pub cfg: Config,
    pub base_url: String,
    pub silent: bool,
}

// ── The address of the server ───────────────────────────────────────────────
/// `s` without the slashes at its end.
pub open spec fn without_slashes(s: Seq<char>) -> Seq<char>
    decreases s.len(),
{
    if s.len() > 0 && s.last() == '/' {
        without_slashes(s.drop_last())
    } else {
        s
    }
}

fn trim_slashes(s: &str) -> (out: String)
    ensures
        out@ == without_slashes(s@),
{
    let chars = chars_of(s);
    let mut to: usize = chars.len();
    assert(chars@.take(to as int) =~= chars@);
    while to > 0 && chars[to - 1] == '/'
        invariant
            to <= chars@.len(),
            without_slashes(chars@) == without_slashes(chars@.take(to as int)),
        decreases to,
    {
        assert(chars@.take(to as int).drop_last() =~= chars@.take(to - 1));
        to -= 1;
    }
    let out = text_of(&chars[0..to]);
    assert(out@ =~= chars@.take(to as int));
    out
}

/// Whether requests to `url` travel encrypted, or do not leave the machine.
pub open spec fn is_protected(url: Seq<char>) -> bool {
    ||| "https://"@.is_prefix_of(url)
    ||| "http://localhost"@.is_prefix_of(url)
    ||| "http://127.0.0.1"@.is_prefix_of(url)
}

// ── Requests and replies ────────────────────────────────────────────────────
#[derive(Debug, Clone, Copy, PartialEq, Eq, Structural)]
pub enum Verb {
    Get,
    Put,
    Post,
    Patch,
    Delete,
}

/// What is asked of the server: the method and the path, without the address and the
/// credentials.
pub struct Call {
    pub verb: Verb,
    pub path: String,
}

impl Call {
    /// Whether this asks for the given path with the given method.
    pub open spec fn asks(self, verb: Verb, path: Seq<char>) -> bool {
        self.verb == verb && self.path@ == path
    }
}

/// A request: where to, and the header that carries the credentials, if any.
pub struct Outgoing {
    pub verb: Verb,
    pub url: String,
    pub header: Option<(String, String)>,
}

impl Outgoing {
    /// Whether this is the request with the given parts.
    pub open spec fn is_request(
        self,
        verb: Verb,
        url: Seq<char>,
        header: Option<(Seq<char>, Seq<char>)>,
    ) -> bool {
        &&& self.verb == verb
        &&& self.url@ == url
        &&& match self.header {
            Some((name, value)) => header == Some((name@, value@)),
            None => header is None,
        }
    }
}

/// What the server answered.
pub struct Reply {
    pub status: u16,
    pub body: String,
}

/// Whether the status says that the request was carried out.
pub open spec fn is_success(status: u16) -> bool {
    200 <= status < 300
}

/// Whether the status says that the request was carried out.
pub fn succeeded(status: u16) -> (r: bool)
    ensures
        r == is_success(status),
{
    200 <= status && status < 300
}

/// The header that carries a session token.
pub open spec fn bearer_header(token: Option<String>) -> Option<(Seq<char>, Seq<char>)> {
    match token {
        Some(t) => Some(("Authorization"@, "Bearer "@ + t@)),
        None => None,
    }
}

/// Why no session could be used or asked for.
#[derive(Debug, Clone, Copy, PartialEq, Eq, Structural)]
pub enum Failure {
    /// The client is silent and has no session token.
    NoSessionToken,
    /// The client is silent and the server refused its session token.
    SessionTimedOut,
    /// The server refused a session token that was claimed a moment ago.
    AuthenticationFailed,
    /// There is no device that a session token could be sent to.
    NoDevice,
}

impl Client {
    /// A client for the server at `base_url_override`, or else at the address that
    /// the settings give.
    pub fn new(cfg: Config, base_url_override: Option<String>, silent: bool) -> (out: Self)
        ensures
            out.cfg == cfg,
            out.silent == silent,
            out.base_url@ == without_slashes(
                match base_url_override {
                    Some(url) => url@,
                    None => cfg.server(),
                },
            ),
    {
        let base_url = match &base_url_override {
            Some(url) => trim_slashes(url),
            None => trim_slashes(cfg.base_url()),
        };
        Client { cfg, base_url, silent }
    }

    /// Whether credentials would travel in cleartext.
    pub fn in_cleartext(&self) -> (r: bool)
        ensures
            r == !is_protected(self.base_url@),
    {
        !starts_with(&self.base_url, "https://") && !starts_with(&self.base_url, "http://localhost")
            && !starts_with(&self.base_url, "http://127.0.0.1")
    }

    /// The request with the session token, if there is one.
    pub fn send_with_auth(&self, verb: Verb, path: &str) -> (out: Outgoing)
        ensures
            out.is_request(verb, self.base_url@ + path@, bearer_header(self.cfg.session_token)),
    {
        let header = match &self.cfg.session_token {
            Some(token) => Some(("Authorization".to_owned(), join2("Bearer ", token))),
            None => None,
        };
        Outgoing { verb, url: join2(&self.base_url, path), header }
    }

    /// The request without credentials.
    pub fn send_unauthenticated(&self, verb: Verb, path: &str) -> (out: Outgoing)
        ensures
            out.is_request(verb, self.base_url@ + path@, None),
    {
        Outgoing { verb, url: join2(&self.base_url, path), header: None }
    }

    /// The request to a full address, without credentials.
    pub fn http_post_unauthenticated(&self, url: &str) -> (out: Outgoing)
        ensures
            out.is_request(Verb::Post, url@, None),
    {
        Outgoing { verb: Verb::Post, url: url.to_owned(), header: None }
    }

    /// The request to read with an API key.
    pub fn get_with_api_key(&self, path: &str, api_key: &str) -> (out: Outgoing)
        ensures
            out.is_request(Verb::Get, self.base_url@ + path@, Some(("X-Api-Key"@, api_key@))),
    {
        Outgoing {
            verb: Verb::Get,
            url: join2(&self.base_url, path),
            header: Some(("X-Api-Key".to_owned(), api_key.to_owned())),
        }
    }

    /// The request to post with an API key.
    pub fn post_with_api_key(&self, path: &str, api_key: &str) -> (out: Outgoing)
        ensures
            out.is_request(Verb::Post, self.base_url@ + path@, Some(("X-Api-Key"@, api_key@))),
    {
        Outgoing {
            verb: Verb::Post,
            url: join2(&self.base_url, path),
            header: Some(("X-Api-Key".to_owned(), api_key.to_owned())),
        }
    }

    /// The body of a reply that was successful; the whole reply if it was not.
    pub fn expect_success(reply: Reply) -> (out: Result<String, Reply>)
        ensures
            match out {
                Ok(body) => is_success(reply.status) && body == reply.body,
                Err(r) => !is_success(reply.status) && r == reply,
            },
    {
        if succeeded(reply.status) {
            Ok(reply.body)
        } else {
            Err(reply)
        }
    }

    /// The request that finds out whether the session token is valid; none if there
    /// is no token.
    pub fn session_probe(&self) -> (out: Option<Outgoing>)
        ensures
            match out {
                Some(o) => self.cfg.session_token is Some && o.is_request(
                    Verb::Get,
                    self.base_url@ + "/kv"@,
                    bearer_header(self.cfg.session_token),
                ),
                None => self.cfg.session_token is None,
            },
    {
        if self.cfg.session_token.is_none() {
            None
        } else {
            Some(self.send_with_auth(Verb::Get, "/kv"))
        }
    }

    /// Whether the session token is valid, given the status with which the probe was
    /// answered, if it was answered.
    pub fn is_session_valid(&self, probe: Option<u16>) -> (r: bool)
        ensures
            r == (self.cfg.session_token is Some && probe is Some && probe->0 != 401),
    {
        if self.cfg.session_token.is_none() {
            return false;
        }
        match probe {
            Some(status) => status != 401,
            None => false,
        }
    }
}

// ── Settings that change ────────────────────────────────────────────────────
/// Whether the settings must be written to disk.
#[derive(Debug, Clone, Copy, PartialEq, Eq, Structural)]
pub enum Save {
    /// The settings have not changed.
    Keep,
    /// Write them; go on if that fails.
    BestEffort,
    /// Write them; stop if that fails.
    Required,
}

impl Client {
    /// This client without its session token.
    pub open spec fn without_token(self) -> Client {
        Client { cfg: Config { session_token: None, ..self.cfg }, ..self }
    }

    /// This client without its pending session request.
    pub open spec fn without_pending(self) -> Client {
        Client { cfg: Config { pending_session_request: None, ..self.cfg }, ..self }
    }

    /// This client with a session token.
    pub open spec fn with_token(self, token: String) -> Client {
        Client { cfg: Config { session_token: Some(token), ..self.cfg }, ..self }
    }
}

// ── Laws ────────────────────────────────────────────────────────────────────
/// An address loses the slashes at its end and nothing else.
pub proof fn law_without_slashes(s: Seq<char>)
    ensures
        without_slashes(s).is_prefix_of(s),
        forall|i: int| without_slashes(s).len() <= i < s.len() ==> #[trigger] s[i] == '/',
        without_slashes(s).len() > 0 ==> without_slashes(s).last() != '/',
    decreases s.len(),
{
    if s.len() > 0 && s.last() == '/' {
        let less = s.drop_last();
        law_without_slashes(less);
        let out = without_slashes(s);
        assert(s.take(out.len() as int) =~= less.take(out.len() as int));
        assert forall|i: int| out.len() <= i < s.len() implies #[trigger] s[i] == '/' by {
            if i < less.len() {
                assert(less[i] == '/');
            }
        }
    } else {
        assert(s.take(s.len() as int) =~= s);
    }
}

/// Credentials are protected on the way to an address over `https`, and to this machine; to any
/// other address they travel in cleartext, over `http` among them.
pub proof fn law_protected(url: Seq<char>)
    ensures
        is_protected(url) <==> {
            ||| "https://"@.is_prefix_of(url)
            ||| "http://localhost"@.is_prefix_of(url)
            ||| "http://127.0.0.1"@.is_prefix_of(url)
        },
{
}

/// A call asks for a path with a method if these are its path, whole, and its method.
pub proof fn law_asks(call: Call, verb: Verb, path: Seq<char>)
    ensures
        call.asks(verb, path) <==> call.verb == verb && call.path@ == path,
{
}

/// A request has a method, an address and a header if these are its own, whole.
pub proof fn law_is_request(
    out: Outgoing,
    verb: Verb,
    url: Seq<char>,
    header: Option<(Seq<char>, Seq<char>)>,
)
    requires
        out.is_request(verb, url, header),
    ensures
        out.verb == verb,
        out.url@ == url,
        out.header is Some <==> header is Some,
        out.header matches Some((name, value)) ==> header == Some((name@, value@)),
{
}

/// A reply is a success if its status has three digits and begins with a two.
pub proof fn law_success(status: u16)
    ensures
        is_success(status) <==> status / 100 == 2,
{
}

/// A request with a session carries the token, whole, behind the word `Bearer`; without a token
/// it carries no header.
pub proof fn law_bearer_header(token: Option<String>)
    ensures
        bearer_header(token) is Some <==> token is Some,
        token matches Some(t) ==> (bearer_header(token) matches Some((name, value)) && name
            == "Authorization"@ && "Bearer "@.is_prefix_of(value) && value.skip(7) == t@),
{
    reveal_strlit("Bearer ");
    if let Some(t) = token {
        let value = "Bearer "@ + t@;
        assert(value.take(7) =~= "Bearer "@);
        assert(value.skip(7) =~= t@);
    }
}

/// Taking the session token or the pending request out of the settings, or putting a token in,
/// changes that and nothing else.
pub proof fn law_one_setting_changes(client: Client, token: String)
    ensures
        client.without_token().cfg.session_token is None,
        client.without_pending().cfg.pending_session_request is None,
        client.with_token(token).cfg.session_token == Some(token),
        client.without_token().with_token(token) == client.with_token(token),
        client.cfg.session_token == Some(token) ==> client.without_token().with_token(token)
            == client,
        client.without_token().cfg.pending_session_request == client.cfg.pending_session_request,
        client.without_pending().cfg.session_token == client.cfg.session_token,
        client.without_token().without_pending() == client.without_pending().without_token(),
        ({
            let c = client.without_pending().without_token();
            &&& c.cfg.api_key == client.cfg.api_key
            &&& c.cfg.device_id == client.cfg.device_id
            &&& c.cfg.base_url == client.cfg.base_url
            &&& c.base_url == client.base_url
            &&& c.silent == client.silent
        }),
{
}

} // verus!
