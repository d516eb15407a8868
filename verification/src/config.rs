//! What the client remembers between runs.

use vstd::prelude::*;

verus! {

/// The settings of the client.
#[derive(Debug)]
pub struct Config {
    pub base_url: Option<String>,
    pub session_token: Option<String>,
    pub api_key: Option<String>,
    pub device_id: Option<String>,
    /// A session request that awaits approval, kept so that the next run can claim
    /// the token. Set when a command found no valid session and asked for one;
    /// cleared once the token is claimed or the request is found dead.
    pub pending_session_request: Option<PendingSessionRequest>,
}

/// The handle to a session request under way.
#[derive(Debug)]
pub struct PendingSessionRequest {
    pub id: String,
    /// Proves that who polls is who made the request.
    pub poll_secret: String,
    pub url: String,
    pub expires_at: String,
}

/// What a setting holds.
pub open spec fn setting(s: Option<String>) -> Option<Seq<char>> {
    match s {
        Some(t) => Some(t@),
        None => None,
    }
}

/// A copy of a setting.
pub fn copy_setting(s: &Option<String>) -> (out: Option<String>)
    ensures
        out == *s,
{
    match s {
        Some(t) => Some(t.clone()),
        None => None,
    }
}

impl Clone for PendingSessionRequest {
    fn clone(&self) -> (out: Self)
        ensures
            out == *self,
    {
        PendingSessionRequest {
            id: self.id.clone(),
            poll_secret: self.poll_secret.clone(),
            url: self.url.clone(),
            expires_at: self.expires_at.clone(),
        }
    }
}

impl Default for PendingSessionRequest {
    fn default() -> (out: Self)
        ensures
            out.id@ == Seq::<char>::empty(),
            out.poll_secret@ == Seq::<char>::empty(),
            out.url@ == Seq::<char>::empty(),
            out.expires_at@ == Seq::<char>::empty(),
    {
        PendingSessionRequest {
            id: String::new(),
            poll_secret: String::new(),
            url: String::new(),
            expires_at: String::new(),
        }
    }
}

impl Default for Config {
    fn default() -> (out: Self)
        ensures
            out.base_url is None,
            out.session_token is None,
            out.api_key is None,
            out.device_id is None,
            out.pending_session_request is None,
    {
        Config {
            base_url: None,
            session_token: None,
            api_key: None,
            device_id: None,
            pending_session_request: None,
        }
    }
}

impl Config {
    /// The address of the server: the one that is set, or the public one.
    pub open spec fn server(self) -> Seq<char> {
        match self.base_url {
            Some(url) => url@,
            None => "https://kv.osmosis.page"@,
        }
    }

    /// The address of the server.
    pub fn base_url(&self) -> (out: &str)
        ensures
            out@ == self.server(),
    {
        match &self.base_url {
            Some(url) => url.as_str(),
            None => "https://kv.osmosis.page",
        }
    }
}

/// A setting holds the text that it was set to, whole, and nothing if it was not set.
pub proof fn law_setting(s: Option<String>)
    ensures
        setting(s) is Some <==> s is Some,
        s matches Some(t) ==> setting(s) == Some(t@),
{
}

/// The address that is set is the one that is used; the public one is used only where none is.
pub proof fn law_server(cfg: Config)
    ensures
        cfg.base_url matches Some(url) ==> cfg.server() == url@,
        cfg.base_url is None ==> cfg.server() == "https://kv.osmosis.page"@,
{
}

} // verus!
