//! Provider records of the global configuration: which model endpoints the
//! application knows. Keys are never stored here; they live in the system
//! keyring.

use vstd::prelude::*;
use std::collections::HashMap;

verus! {

/// The protocol family a provider speaks.
#[derive(Clone, Copy, PartialEq, Eq, Structural, Debug)]
pub enum ProviderType {
    OpenaiCompatible,
    Google,
    Anthropic,
}

/// One configured model endpoint.
#[derive(Clone)]
pub struct Provider {
    pub id: String,
    pub name: String,
    pub base_url: String,
    pub models: Vec<String>,
    pub models_updated_at: Option<u64>,
    pub provider_type: ProviderType,
    pub headers: Option<HashMap<String, String>>,
}

/// Picks a provider out of a configuration by its identifier.
pub fn find_provider<'a>(providers: &'a Vec<Provider>, provider_id: &str) -> (r: Option<
    &'a Provider,
>)
    ensures
        r matches Some(p) ==> p.id@ == provider_id@,
        r is None ==> forall|i: int|
            0 <= i < providers@.len() ==> (#[trigger] providers@[i]).id@ != provider_id@,
{
    let mut i: usize = 0;
    while i < providers.len()
        invariant
            i <= providers@.len(),
            forall|j: int| 0 <= j < i ==> (#[trigger] providers@[j]).id@ != provider_id@,
        decreases providers@.len() - i,
    {
        if crate::text::str_eq_str(providers[i].id.as_str(), provider_id) {
            return Some(&providers[i]);
        }
        i = i + 1;
    }
    None
}

} // verus!
