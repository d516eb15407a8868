//! OpenRouter's interface for managing keys: the requests to make, and what its
//! answers say. The management key travels in the authorization header alone.

use vstd::prelude::*;
use crate::client::{Outgoing, Verb};
use crate::management_keys::providers::{
    ManagementKeyProvider, ProviderKeyCreated, ProviderKeyInfo,
};
use crate::text::join2;

verus! {

/// A key in an answer.
pub struct KeyData<N> {
    pub hash: String,
    pub name: String,
    pub disabled: bool,
    pub limit: Option<N>,
    pub limit_reset: Option<String>,
}

impl<N> KeyData<N> {
    /// What the answer says of the key.
    pub open spec fn info(self) -> ProviderKeyInfo<N> {
        ProviderKeyInfo {
            provider_key_id: self.hash,
            label: self.name,
            disabled: self.disabled,
            limit: self.limit,
            limit_reset: self.limit_reset,
        }
    }

    /// What the answer says of the key.
    pub fn into_info(self) -> (out: ProviderKeyInfo<N>)
        ensures
            out == self.info(),
    {
        ProviderKeyInfo {
            provider_key_id: self.hash,
            label: self.name,
            disabled: self.disabled,
            limit: self.limit,
            limit_reset: self.limit_reset,
        }
    }
}

/// The address of the interface.
pub open spec fn base_url() -> Seq<char> {
    "https://openrouter.ai/api/v1/keys"@
}

/// The address of a key.
pub open spec fn key_url_of(provider_key_id: Seq<char>) -> Seq<char> {
    base_url().push('/') + provider_key_id
}

/// The header with the management key.
pub open spec fn key_header(management_key: Seq<char>) -> Option<(Seq<char>, Seq<char>)> {
    Some(("Authorization"@, "Bearer "@ + management_key))
}

fn key_url(provider_key_id: &str) -> (out: String)
    ensures
        out@ == key_url_of(provider_key_id@),
{
    let mut out = "https://openrouter.ai/api/v1/keys".to_owned();
    out.push('/');
    out.append(provider_key_id);
    out
}

fn authorized(verb: Verb, url: String, management_key: &str) -> (out: Outgoing)
    ensures
        out.is_request(verb, url@, key_header(management_key@)),
{
    Outgoing {
        verb,
        url,
        header: Some(("Authorization".to_owned(), join2("Bearer ", management_key))),
    }
}

/// The keys in the answer to the request that lists them, in its order.
pub fn listed<N>(data: Vec<KeyData<N>>) -> (out: Vec<ProviderKeyInfo<N>>)
    ensures
        out@ == data@.map_values(|k: KeyData<N>| k.info()),
{
    let ghost all = data@;
    let mut out: Vec<ProviderKeyInfo<N>> = Vec::new();
    for k in iter: data
        invariant
            iter.seq() == all,
            out@ == all.take(iter.index()).map_values(|k: KeyData<N>| k.info()),
    {
        proof {
            let i = iter.index();
            assert(all.take(i + 1).map_values(|k: KeyData<N>| k.info()) =~= all.take(i).map_values(
                |k: KeyData<N>| k.info(),
            ).push(all[i].info()));
        }
        out.push(k.into_info());
    }
    assert(all.take(all.len() as int) =~= all);
    out
}

/// The body of the request that creates a key.
pub struct CreateBody<N> {
    pub name: String,
    pub limit: Option<N>,
}

/// The answer to the request that creates a key.
pub struct CreateResponse<N> {
    pub data: KeyData<N>,
    pub key: String,
}

/// The new key.
pub fn created<N>(parsed: CreateResponse<N>) -> (out: ProviderKeyCreated)
    ensures
        out == (ProviderKeyCreated {
            provider_key_id: parsed.data.hash,
            label: parsed.data.name,
            plaintext_secret: parsed.key,
        }),
{
    ProviderKeyCreated {
        provider_key_id: parsed.data.hash,
        label: parsed.data.name,
        plaintext_secret: parsed.key,
    }
}

/// The value to set in a second request, if the limit of the new key is to be reset.
pub fn reset_body(limit_reset: Option<String>) -> (out: Option<ResetBody>)
    ensures
        match out {
            Some(b) => limit_reset == Some(b.limit_reset),
            None => limit_reset is None,
        },
{
    match limit_reset {
        Some(limit_reset) => Some(ResetBody { limit_reset }),
        None => None,
    }
}

/// The body of the request that sets how often a limit is reset.
pub struct ResetBody {
    pub limit_reset: String,
}

/// The body of the request that creates a key.
pub fn create_body<N>(label: String, limit: Option<N>) -> (out: CreateBody<N>)
    ensures
        out == (CreateBody { name: label, limit }),
{
    CreateBody { name: label, limit }
}

/// OpenRouter.
#[derive(Debug, Clone, Copy)]
pub struct OpenRouterProvider;

impl OpenRouterProvider {
    pub fn new() -> Self {
        OpenRouterProvider
    }
}

impl ManagementKeyProvider for OpenRouterProvider {
    fn id(&self) -> (out: &'static str)
        ensures
            out@ == "openrouter"@,
    {
        "openrouter"
    }

    fn list_keys(&self, management_key: &str) -> (out: Outgoing)
        ensures
            out.is_request(Verb::Get, base_url(), key_header(management_key@)),
    {
        authorized(Verb::Get, "https://openrouter.ai/api/v1/keys".to_owned(), management_key)
    }

    fn get_key(&self, management_key: &str, provider_key_id: &str) -> (out: Outgoing)
        ensures
            out.is_request(Verb::Get, key_url_of(provider_key_id@), key_header(management_key@)),
    {
        authorized(Verb::Get, key_url(provider_key_id), management_key)
    }

    fn create_key(&self, management_key: &str) -> (out: Outgoing)
        ensures
            out.is_request(Verb::Post, base_url(), key_header(management_key@)),
    {
        authorized(Verb::Post, "https://openrouter.ai/api/v1/keys".to_owned(), management_key)
    }

    fn reset_limit(&self, management_key: &str, provider_key_id: &str) -> (out: Outgoing)
        ensures
            out.is_request(Verb::Patch, key_url_of(provider_key_id@), key_header(management_key@)),
    {
        authorized(Verb::Patch, key_url(provider_key_id), management_key)
    }

    fn revoke_key(&self, management_key: &str, provider_key_id: &str) -> (out: Outgoing)
        ensures
            out.is_request(Verb::Delete, key_url_of(provider_key_id@), key_header(management_key@)),
    {
        authorized(Verb::Delete, key_url(provider_key_id), management_key)
    }
}

/// A request goes to the interface or, below it, to the key with the given id, whole; and the
/// management key, whole, is what its header carries. So requests for different keys go to
/// different addresses, and no id leads anywhere else.
pub proof fn law_addresses(
    provider_key_id: Seq<char>,
    other: Seq<char>,
    management_key: Seq<char>,
)
    ensures
        base_url() == "https://openrouter.ai/api/v1/keys"@,
        "https://openrouter.ai/api/v1/keys/"@.is_prefix_of(key_url_of(provider_key_id)),
        key_url_of(provider_key_id).skip(34) == provider_key_id,
        key_url_of(provider_key_id) == key_url_of(other) ==> provider_key_id == other,
        key_header(management_key) matches Some((name, value)) && name == "Authorization"@
            && "Bearer "@.is_prefix_of(value) && value.skip(7) == management_key,
{
    reveal_strlit("https://openrouter.ai/api/v1/keys");
    reveal_strlit("https://openrouter.ai/api/v1/keys/");
    reveal_strlit("Bearer ");
    let url = key_url_of(provider_key_id);
    assert(url.take(34) =~= "https://openrouter.ai/api/v1/keys/"@);
    assert(url.skip(34) =~= provider_key_id);
    assert(key_url_of(other).skip(34) =~= other);
    let value = "Bearer "@ + management_key;
    assert(value.take(7) =~= "Bearer "@);
    assert(value.skip(7) =~= management_key);
}

/// What is said of a key is what the answer says of it: its hash is its id, its name is its
/// label, and the rest is kept as it is.
pub proof fn law_key_info<N>(data: KeyData<N>)
    ensures
        data.info().provider_key_id == data.hash,
        data.info().label == data.name,
        data.info().disabled == data.disabled,
        data.info().limit == data.limit,
        data.info().limit_reset == data.limit_reset,
{
}

} // verus!
