//! Interpretation of the deployment service's responses, and the rules
//! that turn them into pipeline decisions.
//!
//! The raw response bodies are parsed through the trusted JSON wrappers,
//! whose values are opaque; every decision made on the extracted plain
//! values stands in a verified function with an exact contract.

use vstd::prelude::*;
use crate::errors::ImportError;
use crate::trusted::{json_str_field, json_string_field, json_string_list, json_string_list_field};

verus! {

/// The result of a successful deployment submission.
#[derive(Debug)]
pub struct DeploymentHandle {
    /// Opaque identifier assigned by the deployment service.
    pub deployment_id: String,
    /// URL usable immediately, before alias finalization.
    pub provisional_url: String,
    /// Stable alias, once resolution has found one.
    pub resolved_alias: Option<String>,
}

/// Builds a deployment handle from the fields extracted out of the
/// creation response: both the identifier and the URL must be present,
/// and the alias starts unresolved; anything less is `DeployFailed`.
pub fn deployment_from_fields(id: Option<String>, url: Option<String>) -> (r: Result<
    DeploymentHandle,
    ImportError,
>)
    ensures
        match r {
            Ok(h) => {
                &&& id matches Some(i) && h.deployment_id@ == i@
                &&& url matches Some(u) && h.provisional_url@ == u@
                &&& h.resolved_alias is None
            },
            Err(e) => (id is None || url is None) && e == ImportError::DeployFailed(
                None::<String>,
            ),
        },
{
    match (id, url) {
        (Some(deployment_id), Some(provisional_url)) => Ok(
            DeploymentHandle { deployment_id, provisional_url, resolved_alias: None },
        ),
        _ => Err(ImportError::DeployFailed(None)),
    }
}

/// Parses the creation response into a deployment handle.
///
/// Succeeds exactly where a body is present and is a JSON object with
/// string fields `id` and `url`; the handle then carries those two
/// verbatim, with the alias unresolved.  A missing body (transport
/// error) or anything else in it is `DeployFailed`.
pub fn parse_deployment_response(body: Option<&str>) -> (r: Result<DeploymentHandle, ImportError>)
    ensures
        match body {
            None => r == Err::<DeploymentHandle, ImportError>(ImportError::DeployFailed(
                None::<String>,
            )),
            Some(t) => match (json_str_field(t@, "id"@), json_str_field(t@, "url"@)) {
                (Some(id), Some(url)) => (r matches Ok(h) && h.deployment_id@ == id
                    && h.provisional_url@ == url && h.resolved_alias is None),
                _ => r == Err::<DeploymentHandle, ImportError>(ImportError::DeployFailed(
                    None::<String>,
                )),
            },
        },
{
    match body {
        None => Err(ImportError::DeployFailed(None)),
        Some(text) => deployment_from_fields(
            json_string_field(text, "id"),
            json_string_field(text, "url"),
        ),
    }
}

/// Picks the finalized alias out of the list the service returned: the
/// first entry, or none where the list is empty.
pub fn first_alias(aliases: &Vec<String>) -> (r: Option<String>)
    ensures
        aliases@.len() == 0 ==> r is None,
        aliases@.len() > 0 ==> (r matches Some(a) && a@ == aliases@[0]@),
{
    if aliases.len() == 0 {
        None
    } else {
        Some(aliases[0].clone())
    }
}

/// Parses the alias lookup response.
///
/// Returns the first finalized alias exactly where a body is present
/// whose `aliasFinal` field is a nonempty array of strings.  Best
/// effort otherwise: a missing body, an unparsable body, a missing or
/// malformed field, or an empty list all yield "no alias available" —
/// never an error.
pub fn parse_alias_response(body: Option<&str>) -> (r: Option<String>)
    ensures
        match body {
            None => r is None,
            Some(t) => match json_string_list_field(t@, "aliasFinal"@) {
                Some(aliases) => if aliases.len() > 0 {
                    r matches Some(a) && a@ == aliases[0]
                } else {
                    r is None
                },
                None => r is None,
            },
        },
{
    match body {
        None => None,
        Some(text) => match json_string_list(text, "aliasFinal") {
            None => None,
            Some(aliases) => first_alias(&aliases),
        },
    }
}

/// The documented fallback rule: the finalized alias where one was
/// found, else the provisional URL from the submission step.
pub fn resolve_final_url(alias: Option<String>, provisional: String) -> (r: String)
    ensures
        alias matches Some(a) ==> r@ == a@,
        alias is None ==> r@ == provisional@,
{
    match alias {
        Some(a) => a,
        None => provisional,
    }
}

} // verus!
