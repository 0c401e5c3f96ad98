use vstd::prelude::*;
use crate::errors::{ServiceError, bad_request, bad_request_chars, fails_bad_request};
use crate::models::{SlimUser, org_role_code, find_org_role};
use crate::text::{to_chars, string_from_chars, trim, trim_chars, chars_equal};

verus! {

/// Where an invited user registers.
#[derive(Debug, Clone)]
pub struct InvitationResponse {
    pub registration_url: String,
}

/// An invitation request: the role code to grant, the invitee's email, the
/// application's URL and where to send the invitee after registering.
#[derive(Debug, Clone)]
pub struct InvitationData {
    pub user_role: i32,
    pub email: String,
    pub app_url: String,
    pub redirect_uri: String,
}

/// Pattern an invitee's email must start with: a local part, `@`, and a
/// domain.
pub open spec fn email_pattern() -> Seq<char> {
    "^[a-zA-Z0-9.!#$%&\u{2019}*+/=?^_`{|}~-]+@[a-zA-Z0-9-]+(?:\\.[a-zA-Z0-9-]+)*"@
}

/// A character of the pattern's local part: an ASCII letter or digit, or
/// one of `.!#$%&’*+/=?^_`{|}~-`.
pub open spec fn local_part_char(c: char) -> bool {
    ('a' <= c && c <= 'z') || ('A' <= c && c <= 'Z') || ('0' <= c && c <= '9') || c == '.' || c == '!' || c == '#'
        || c == '$' || c == '%' || c == '&' || c == '\u{2019}' || c == '*' || c == '+' || c == '/' || c == '='
        || c == '?' || c == '^' || c == '_' || c == '`' || c == '{' || c == '|' || c == '}' || c == '~' || c == '-'
}

/// A character of the pattern's domain: an ASCII letter or digit, or `-`.
pub open spec fn domain_char(c: char) -> bool {
    ('a' <= c && c <= 'z') || ('A' <= c && c <= 'Z') || ('0' <= c && c <= '9') || c == '-'
}

/// Whether the email pattern matches `s`: it is anchored at the start only,
/// and its optional `.domain` repetitions add nothing to whether it matches,
/// so it matches exactly when `s` starts with one or more local-part
/// characters, then `@`, then a domain character.
pub open spec fn email_pattern_matched(s: Seq<char>) -> bool {
    exists|k: int| 1 <= k && k + 1 < s.len() && #[trigger] s[k] == '@' && domain_char(s[k + 1])
        && forall|i: int| 0 <= i < k ==> #[trigger] local_part_char(s[i])
}

/// `regex::Regex::new(pattern)` then `is_match(haystack)`. Only the email
/// pattern is given, which compiles; the contract states what that pattern
/// matches.
#[verifier::external_body]
fn email_pattern_matches(pattern: &str, haystack: &str) -> (b: bool)
    requires
        pattern@ == email_pattern(),
    ensures
        b == email_pattern_matched(haystack@),
{
    regex::Regex::new(pattern).unwrap().is_match(haystack)
}

/// Checks an invitation before anyone is looked up: the trimmed email must
/// look like an email, must not be the inviter's own, and the inviter must
/// be a member of the organization with at least the role it grants. The
/// trimmed email is returned.
pub fn check_invitation(inviter: &SlimUser, organization_id: u128, email: &str, user_role: i32) -> (r: Result<String, ServiceError>)
    ensures
        !email_pattern_matched(trim(email@)) ==> fails_bad_request(r, "Invalid email"@),
        email_pattern_matched(trim(email@)) && inviter.email@ == trim(email@) ==> fails_bad_request(
            r,
            "Can not invite yourself"@,
        ),
        email_pattern_matched(trim(email@)) && inviter.email@ != trim(email@) && (match org_role_code(inviter.user_orgs@, organization_id) {
            Some(role) => role < user_role,
            None => true,
        }) ==> fails_bad_request(r, "Can not invite user with higher role than yours"@),
        r is Ok <==> (email_pattern_matched(trim(email@)) && inviter.email@ != trim(email@) && (match org_role_code(inviter.user_orgs@, organization_id) {
            Some(role) => role >= user_role,
            None => false,
        })),
        r matches Ok(e) ==> e@ == trim(email@),
{
    let ec = to_chars(email);
    let trimmed = string_from_chars(&trim_chars(&ec));
    if !email_pattern_matches("^[a-zA-Z0-9.!#$%&\u{2019}*+/=?^_`{|}~-]+@[a-zA-Z0-9-]+(?:\\.[a-zA-Z0-9-]+)*", trimmed.as_str()) {
        return Err(bad_request("Invalid email"));
    }
    let own = to_chars(inviter.email.as_str());
    let tc = to_chars(trimmed.as_str());
    if chars_equal(&own, &tc) {
        return Err(bad_request("Can not invite yourself"));
    }
    match find_org_role(&inviter.user_orgs, organization_id) {
        Some(role) => {
            if role < user_role {
                return Err(bad_request("Can not invite user with higher role than yours"));
            }
        },
        None => {
            return Err(bad_request("Can not invite user with higher role than yours"));
        },
    }
    Ok(trimmed)
}

/// `User with email <email> is already in the organization`.
pub fn already_member_error(email: &str) -> (e: ServiceError)
    ensures
        crate::errors::is_bad_request(e, "User with email "@ + email@ + " is already in the organization"@),
{
    let mut m = to_chars("User with email ");
    crate::text::extend_chars(&mut m, &to_chars(email));
    crate::text::extend_chars(&mut m, &to_chars(" is already in the organization"));
    bad_request_chars(&m)
}

/// `User with email <email> has already been invited`.
pub fn already_invited_error(email: &str) -> (e: ServiceError)
    ensures
        crate::errors::is_bad_request(e, "User with email "@ + email@ + " has already been invited"@),
{
    let mut m = to_chars("User with email ");
    crate::text::extend_chars(&mut m, &to_chars(email));
    crate::text::extend_chars(&mut m, &to_chars(" has already been invited"));
    bad_request_chars(&m)
}

/// Registration link sent to an invitee.
pub open spec fn registration_url_spec(app_url: Seq<char>, invitation_id: u128, organization_id: u128, redirect_uri: Seq<char>) -> Seq<char> {
    app_url + "/auth?inv_code="@ + crate::ids::hyphenated(invitation_id) + "&organization_id="@
        + crate::ids::hyphenated(organization_id) + "&redirect_uri="@ + redirect_uri
}

/// The registration link of an invitation.
pub fn registration_url(app_url: &str, invitation_id: u128, organization_id: u128, redirect_uri: &str) -> (u: String)
    ensures
        u@ == registration_url_spec(app_url@, invitation_id, organization_id, redirect_uri@),
{
    broadcast use vstd::string::group_string_axioms;
    let mut u = app_url.to_string();
    u.append("/auth?inv_code=");
    let inv = crate::ids::uuid_to_string(invitation_id);
    u.append(inv.as_str());
    u.append("&organization_id=");
    let org = crate::ids::uuid_to_string(organization_id);
    u.append(org.as_str());
    u.append("&redirect_uri=");
    u.append(redirect_uri);
    u
}

/// An invitation with its registration link.
pub struct InvitationWithUrl<I> {
    pub invitation: I,
    pub registration_url: String,
}

} // verus!
