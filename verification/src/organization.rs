use vstd::prelude::*;
use crate::errors::{ServiceError, bad_request, fails_bad_request};

verus! {

/// Request to create an organization.
pub struct CreateOrganizationReqPayload {
    pub name: String,
}

/// Request to update an organization; what is not given is kept.
pub struct UpdateOrganizationReqPayload<P> {
    pub name: Option<String>,
    pub partner_configuration: Option<P>,
}

/// Request for an organization's usage over a range of dates.
pub struct GetOrganizationUsageReqPayload<R> {
    pub date_range: Option<R>,
}

/// An organization's usage, by what is counted.
pub struct ExtendedOrganizationUsageCount {
    pub search_tokens: u64,
    pub message_tokens: u64,
    pub dataset_count: i32,
    pub user_count: i32,
    pub file_storage: i64,
    pub message_count: u64,
    pub search_count: u64,
    pub chunk_count: i32,
    pub bytes_ingested: u64,
    pub tokens_ingested: u64,
    pub ocr_pages_ingested: u64,
    pub website_pages_scraped: u64,
    pub events_ingested: u64,
}

/// Answer carrying a new API key.
pub struct CreateApiKeyResponse {
    pub api_key: String,
}

/// What `sanitize_html::sanitize_str` with the crate's `DEFAULT` rules gives
/// for the text `s`, or `None` where it fails.
pub uninterp spec fn default_sanitized(s: Seq<char>) -> Option<Seq<char>>;

/// `sanitize_html::sanitize_str(&rules::predefined::DEFAULT, s)`: the crate
/// parses the text as HTML and keeps the elements its default rules allow.
/// The contract only names the result.
#[verifier::external_body]
fn sanitize_default(s: &str) -> (r: Option<String>)
    ensures
        match r {
            Some(t) => default_sanitized(s@) == Some(t@),
            None => default_sanitized(s@) is None,
        },
{
    match sanitize_html::sanitize_str(&sanitize_html::rules::predefined::DEFAULT, s) {
        Ok(t) => Some(t),
        Err(_) => None,
    }
}

/// Name and partner configuration an organization is updated to: each the
/// one given, else the current one; the name is stored as the default HTML
/// rules sanitize it, and a name they fail on is refused.
pub fn updated_organization<P>(
    update: UpdateOrganizationReqPayload<P>,
    current_name: String,
    current_partner_configuration: P,
) -> (r: Result<(String, P), ServiceError>)
    ensures
        ({
            let name = match update.name {
                Some(n) => n@,
                None => current_name@,
            };
            match default_sanitized(name) {
                Some(clean) => r matches Ok((n, p)) && n@ == clean && p == match update.partner_configuration {
                    Some(c) => c,
                    None => current_partner_configuration,
                },
                None => fails_bad_request(r, "Failed to sanitize organization name"@),
            }
        }),
{
    let name = match update.name {
        Some(n) => n,
        None => current_name,
    };
    let clean = match sanitize_default(name.as_str()) {
        Some(c) => c,
        None => { return Err(bad_request("Failed to sanitize organization name")); },
    };
    let partner = match update.partner_configuration {
        Some(c) => c,
        None => current_partner_configuration,
    };
    Ok((clean, partner))
}

} // verus!
