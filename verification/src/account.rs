use vstd::prelude::*;
use vstd::string::StringSliceAdditionalSpecFns;
use rand::Rng;
use crate::errors::{DefaultError, ServiceError, bad_request, fails_bad_request};
use crate::models::{SlimUser, UserRole, org_role_code, find_org_role, role_rank, role_of_code};
use crate::text::{to_chars, string_from_chars, chars_equal};

verus! {

/// A new password and its confirmation.
#[derive(Debug, Clone)]
pub struct SetPasswordData {
    pub password: String,
    pub password_confirmation: String,
}

/// A `DefaultError` carrying `msg`.
pub fn default_error(msg: &str) -> (e: DefaultError)
    ensures
        e.message@ == msg@,
{
    broadcast use vstd::string::group_string_axioms;
    DefaultError { message: msg.to_string() }
}

/// Refuses a password shorter than 8 bytes, then one that differs from its
/// confirmation.
pub fn check_new_password(password: &str, confirmation: &str) -> (r: Result<(), DefaultError>)
    ensures
        password.len() < 8 ==> (r matches Err(e) && e.message@ == "Password must be at least 8 characters"@),
        password.len() >= 8 && password@ != confirmation@ ==> (r matches Err(e) && e.message@ == "Passwords do not match"@),
        r is Ok <==> (password.len() >= 8 && password@ == confirmation@),
{
    if password.len() < 8 {
        return Err(default_error("Password must be at least 8 characters"));
    }
    let p = to_chars(password);
    let c = to_chars(confirmation);
    if !chars_equal(&p, &c) {
        return Err(default_error("Passwords do not match"));
    }
    Ok(())
}

/// The id of the invitation a registration refers to; text that is not a
/// UUID is refused as an invalid invitation.
pub fn parse_invitation_id(invitation_id: &str) -> (r: Result<u128, DefaultError>)
    ensures
        crate::ids::parsed_uuid(invitation_id@) matches Some(id) ==> r == Ok::<u128, DefaultError>(id),
        crate::ids::parsed_uuid(invitation_id@) is None ==> (r matches Err(e) && e.message@ == "Invalid Invitation"@),
{
    match crate::ids::parse_uuid(invitation_id) {
        Some(id) => Ok(id),
        None => Err(default_error("Invalid Invitation")),
    }
}

/// Refuses an invitation whose expiry time is not after now (both in the
/// same time unit).
pub fn check_invitation_expiry(expires_at: i64, now: i64) -> (r: Result<(), DefaultError>)
    ensures
        r is Ok <==> expires_at > now,
        r matches Err(e) ==> e.message@ == "Invitation Expired"@,
{
    if expires_at <= now {
        return Err(default_error("Invitation Expired"));
    }
    Ok(())
}

/// The argon2 encoded hash that `argon2::hash_encoded` computes for the
/// password with the salt, under the crate's default configuration with the
/// given secret; `None` where the crate refuses the input.
pub uninterp spec fn argon2_encoded(password: Seq<u8>, salt: Seq<u8>, secret: Seq<u8>) -> Option<Seq<char>>;

/// `argon2::hash_encoded(password, salt, &Config { secret, ..Default::default() })`.
#[verifier::external_body]
fn argon2_hash_encoded(password: &[u8], salt: &[u8], secret: &[u8]) -> (r: Option<String>)
    ensures
        match r {
            Some(h) => argon2_encoded(password@, salt@, secret@) == Some(h@),
            None => argon2_encoded(password@, salt@, secret@) is None,
        },
{
    let config = argon2::Config { secret, ..Default::default() };
    argon2::hash_encoded(password, salt, &config).ok()
}

/// The stored form of a password: its argon2 encoded hash under the server's
/// secret and salt.
pub fn hash_password(password: &str, secret: &str, salt: &str) -> (r: Result<String, DefaultError>)
    ensures
        argon2_encoded(password.spec_bytes(), salt.spec_bytes(), secret.spec_bytes()) matches Some(h) ==> (r matches Ok(s) && s@ == h),
        argon2_encoded(password.spec_bytes(), salt.spec_bytes(), secret.spec_bytes()) is None ==> (r matches Err(e) && e.message@ == "Error processing password, try again"@),
{
    match argon2_hash_encoded(password.as_bytes(), salt.as_bytes(), secret.as_bytes()) {
        Some(h) => Ok(h),
        None => Err(default_error("Error processing password, try again")),
    }
}

/// ASCII letters and digits.
pub open spec fn is_ascii_alnum(c: char) -> bool {
    ('a' <= c && c <= 'z') || ('A' <= c && c <= 'Z') || ('0' <= c && c <= '9')
}

/// `n` characters drawn with `rand::distributions::Alphanumeric` from the
/// thread's generator. The crate documents the distribution as uniform over
/// `a-z`, `A-Z` and `0-9`; which characters come out is left open.
#[verifier::external_body]
fn random_alphanumeric(n: usize) -> (s: String)
    ensures
        s@.len() == n,
        forall|k: int| 0 <= k < s@.len() ==> is_ascii_alnum(#[trigger] s@[k]),
{
    rand::thread_rng().sample_iter(&rand::distributions::Alphanumeric).take(n).map(char::from).collect()
}

/// The API key made from the drawn characters: `af-` followed by them.
pub fn api_key_from(drawn: &str) -> (k: String)
    ensures
        k@ == "af-"@ + drawn@,
{
    crate::text::concat_strs("af-", drawn)
}

/// A new API key: `af-` followed by 32 random letters and digits.
pub fn generate_api_key() -> (k: String)
    ensures
        k@.len() == 35,
        k@.take(3) == "af-"@,
        forall|i: int| 3 <= i < 35 ==> is_ascii_alnum(#[trigger] k@[i]),
{
    let body = random_alphanumeric(32);
    let k = api_key_from(body.as_str());
    proof {
        reveal_strlit("af-");
        assert(k@.take(3) =~= "af-"@);
        assert forall|i: int| 3 <= i < 35 implies is_ascii_alnum(#[trigger] k@[i]) by {
            assert(k@[i] == body@[i - 3]);
        }
    }
    k
}

/// Request to change a user's role or scopes in an organization.
#[derive(Debug, Clone)]
pub struct UpdateUserReqPayload {
    pub user_id: Option<u128>,
    pub role: Option<i32>,
    pub scopes: Option<Vec<String>>,
}

/// First checks of a user update: the requester must be a member of the
/// organization, and to update someone else it must be an admin or owner
/// there (role code at least 1). Answers the requester's role code.
pub fn check_update_user_access(requester: &SlimUser, organization_id: u128, target_user_id: Option<u128>) -> (r: Result<i32, ServiceError>)
    ensures
        org_role_code(requester.user_orgs@, organization_id) is None ==> fails_bad_request(
            r,
            "You are not a member of this organization"@,
        ),
        org_role_code(requester.user_orgs@, organization_id) matches Some(role) ==> (if target_user_id is Some && role < 1 {
            fails_bad_request(r, "You must have an admin or owner role to update other users"@)
        } else {
            r == Ok::<i32, ServiceError>(role)
        }),
{
    let role = match find_org_role(&requester.user_orgs, organization_id) {
        Some(role) => role,
        None => return Err(bad_request("You are not a member of this organization")),
    };
    if target_user_id.is_some() && role < 1 {
        return Err(bad_request("You must have an admin or owner role to update other users"));
    }
    Ok(role)
}

/// Refuses to update a user who is not yet a member of the organization.
pub fn check_target_membership(target_in_org: bool) -> (r: Result<(), ServiceError>)
    ensures
        r is Ok <==> target_in_org,
        r is Err ==> fails_bad_request(
            r,
            "The user who you would like to update the role of must be added to the specified org first before their role can be updated"@,
        ),
{
    if !target_in_org {
        return Err(bad_request(
            "The user who you would like to update the role of must be added to the specified org first before their role can be updated",
        ));
    }
    Ok(())
}

/// The role an update grants, if any; a role above the requester's own is
/// refused.
pub fn check_granted_role(requested_role: Option<i32>, requester_role: i32) -> (r: Result<Option<UserRole>, ServiceError>)
    ensures
        requested_role is None ==> r == Ok::<Option<UserRole>, ServiceError>(None),
        requested_role matches Some(code) ==> (if role_rank(role_of_code(code)) > role_rank(role_of_code(requester_role)) {
            fails_bad_request(r, "Can not grant a user a higher role than that of the requesting user's"@)
        } else {
            r == Ok::<Option<UserRole>, ServiceError>(Some(role_of_code(code)))
        }),
        r matches Ok(Some(g)) ==> role_rank(g) <= role_rank(role_of_code(requester_role)),
{
    match requested_role {
        None => Ok(None),
        Some(code) => {
            let granted = UserRole::from_code(code);
            let own = UserRole::from_code(requester_role);
            if granted.code() > own.code() {
                return Err(bad_request("Can not grant a user a higher role than that of the requesting user's"));
            }
            Ok(Some(granted))
        },
    }
}

/// The user an update applies to: the one named, else the requester.
pub fn update_target_user(target_user_id: Option<u128>, requester_id: u128) -> (id: u128)
    ensures
        target_user_id matches Some(t) ==> id == t,
        target_user_id is None ==> id == requester_id,
{
    match target_user_id {
        Some(t) => t,
        None => requester_id,
    }
}

} // verus!
