//! The services whose keys are managed.

pub mod openrouter;

use vstd::prelude::*;
use crate::client::Outgoing;
use crate::management_keys::providers::openrouter::OpenRouterProvider;
use crate::text::same_text;

verus! {

/// A key, as its provider knows it. `N` is the type of an amount of money.
pub struct ProviderKeyInfo<N> {
    pub provider_key_id: String,
    pub label: String,
    pub disabled: bool,
    pub limit: Option<N>,
    pub limit_reset: Option<String>,
}

/// A key that a provider has just created.
pub struct ProviderKeyCreated {
    pub provider_key_id: String,
    pub label: String,
    pub plaintext_secret: String,
}

/// A provider's interface for managing keys: the requests to make, with a management
/// key that was decrypted on this machine.
pub trait ManagementKeyProvider {
    /// The name of the provider.
    fn id(&self) -> &'static str;

    /// The request that lists the keys.
    fn list_keys(&self, management_key: &str) -> Outgoing;

    /// The request that reads a key.
    fn get_key(&self, management_key: &str, provider_key_id: &str) -> Outgoing;

    /// The request that creates a key.
    fn create_key(&self, management_key: &str) -> Outgoing;

    /// The request that sets how often the limit of a new key is reset, where creating
    /// it cannot set this.
    fn reset_limit(&self, management_key: &str, provider_key_id: &str) -> Outgoing;

    /// The request that revokes a key.
    fn revoke_key(&self, management_key: &str, provider_key_id: &str) -> Outgoing;
}

/// Whether there is a provider with the given name.
pub open spec fn is_provider(name: Seq<char>) -> bool {
    name == "openrouter"@
}

/// The provider with the given name; `None` if there is none.
pub fn provider_for(name: &str) -> (out: Option<OpenRouterProvider>)
    ensures
        out is Some <==> is_provider(name@),
{
    if same_text(name, "openrouter") {
        Some(OpenRouterProvider::new())
    } else {
        None
    }
}

/// There is one provider, and its name is taken whole.
pub proof fn law_one_provider(name: Seq<char>)
    ensures
        is_provider(name) <==> name == "openrouter"@,
{
}

} // verus!
