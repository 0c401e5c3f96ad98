use vstd::prelude::*;
use crate::errors::{ServiceError, bad_request, fails_bad_request};
use crate::models::{SlimUser, UserOrganization, UserRole, is_member};
use crate::text::{to_chars, string_from_chars};

verus! {

/// Query parameters of the OpenID Connect callback.
#[derive(Debug)]
pub struct OpCallback {
    pub state: String,
    pub session_state: String,
    pub code: String,
}

/// Query parameters of the logout route.
#[derive(Debug)]
pub struct LogoutRequest {
    pub redirect_uri: Option<String>,
}

/// The role that the authenticated user holds in the organization a request
/// is made for.
#[derive(Debug)]
pub struct OrganizationRole {
    pub user: SlimUser,
    pub role: UserRole,
}

/// A request made by an owner or an admin of the organization.
#[derive(Debug)]
pub struct AdminOnly(pub SlimUser);

/// A request made by an owner of the organization.
#[derive(Debug)]
pub struct OwnerOnly(pub SlimUser);

/// The user that authenticated the request: refused as `Unauthorized` when
/// the request carries none.
pub fn logged_user_from_request(user: Option<SlimUser>) -> (r: Result<SlimUser, ServiceError>)
    ensures
        user matches Some(u) ==> r == Ok::<SlimUser, ServiceError>(u),
        user is None ==> r == Err::<SlimUser, ServiceError>(ServiceError::Unauthorized),
{
    match user {
        Some(u) => Ok(u),
        None => Err(ServiceError::Unauthorized),
    }
}

/// The role a guard reads from a request's organization role.
pub open spec fn guard_role(role: Option<OrganizationRole>) -> Option<UserRole> {
    match role {
        Some(o) => Some(o.role),
        None => None,
    }
}

/// Admits a request whose user is an owner or an admin of the organization.
/// Without an organization role the request is `Unauthorized`; with the
/// `User` role it is `Forbidden`.
pub fn admin_only_from_request(role: Option<OrganizationRole>) -> (r: Result<AdminOnly, ServiceError>)
    ensures
        role is None ==> r == Err::<AdminOnly, ServiceError>(ServiceError::Unauthorized),
        role matches Some(o) ==> (o.role == UserRole::User <==> r == Err::<AdminOnly, ServiceError>(ServiceError::Forbidden)),
        role matches Some(o) ==> (o.role != UserRole::User <==> r is Ok),
        r is Ok <==> admin_admits(guard_role(role)),
        r matches Ok(a) ==> role matches Some(o) && a.0 == o.user,
{
    match role {
        Some(OrganizationRole { user, role: UserRole::Owner }) => Ok(AdminOnly(user)),
        Some(OrganizationRole { user, role: UserRole::Admin }) => Ok(AdminOnly(user)),
        None => Err(ServiceError::Unauthorized),
        _ => Err(ServiceError::Forbidden),
    }
}

/// Admits a request whose user is an owner of the organization. Without an
/// organization role the request is `Unauthorized`; with any other role it is
/// `Forbidden`.
pub fn owner_only_from_request(role: Option<OrganizationRole>) -> (r: Result<OwnerOnly, ServiceError>)
    ensures
        role is None ==> r == Err::<OwnerOnly, ServiceError>(ServiceError::Unauthorized),
        role matches Some(o) ==> (o.role != UserRole::Owner <==> r == Err::<OwnerOnly, ServiceError>(ServiceError::Forbidden)),
        role matches Some(o) ==> (o.role == UserRole::Owner <==> r is Ok),
        r is Ok <==> owner_admits(guard_role(role)),
        r matches Ok(a) ==> role matches Some(o) && a.0 == o.user,
{
    match role {
        Some(OrganizationRole { user, role: UserRole::Owner }) => Ok(OwnerOnly(user)),
        None => Err(ServiceError::Unauthorized),
        _ => Err(ServiceError::Forbidden),
    }
}

/// Whether the owner-only guard admits a request with this organization role.
pub open spec fn owner_admits(role: Option<UserRole>) -> bool {
    role == Some(UserRole::Owner)
}

/// Whether the admin-only guard admits a request with this organization role.
pub open spec fn admin_admits(role: Option<UserRole>) -> bool {
    role == Some(UserRole::Owner) || role == Some(UserRole::Admin)
}

/// Every request that the owner-only guard admits, the admin-only guard
/// admits too; and a refusal by the admin-only guard is a refusal by the
/// owner-only guard.
pub proof fn law_owner_implies_admin(role: Option<UserRole>)
    ensures
        owner_admits(role) ==> admin_admits(role),
        !admin_admits(role) ==> !owner_admits(role),
{
}

/// The part of `email` before its first `@` (all of it when there is none).
pub open spec fn email_local_part(email: Seq<char>) -> Seq<char>
    decreases email.len(),
{
    if email.len() == 0 {
        email
    } else if email.last() == '@' && !email.drop_last().contains('@') {
        email.drop_last()
    } else if email.drop_last().contains('@') {
        email_local_part(email.drop_last())
    } else {
        email
    }
}

/// `s` with every space replaced by a hyphen.
pub open spec fn spaces_to_hyphens(s: Seq<char>) -> Seq<char> {
    s.map_values(|c: char| if c == ' ' { '-' } else { c })
}

/// Name of the organization created for a user who signs up without one:
/// the part of the email before the first `@`, spaces turned into hyphens.
pub fn org_name_from_email(email: &str) -> (name: String)
    ensures
        name@ == spaces_to_hyphens(email_local_part(email@)),
{
    let cs = to_chars(email);
    let mut out: Vec<char> = Vec::new();
    let mut i: usize = 0;
    while i < cs.len() && cs[i] != '@'
        invariant
            i <= cs@.len(),
            cs@ == email@,
            forall|k: int| 0 <= k < i ==> cs@[k] != '@',
            out@ == spaces_to_hyphens(cs@.take(i as int)),
        decreases cs.len() - i,
    {
        let c = cs[i];
        out.push(if c == ' ' { '-' } else { c });
        assert(spaces_to_hyphens(cs@.take(i + 1)) =~= spaces_to_hyphens(cs@.take(i as int)).push(
            if c == ' ' { '-' } else { c },
        ));
        i = i + 1;
    }
    proof {
        lemma_email_local_part(cs@, i as int);
    }
    string_from_chars(&out)
}

/// The organization named after a signing-up user's email is what comes
/// before the email's first `@` (`at` is that position, or the email's
/// length when it holds none), character for character, except that each
/// space becomes a hyphen.
pub proof fn law_org_name_from_email(email: Seq<char>, at: int)
    requires
        0 <= at <= email.len(),
        forall|k: int| 0 <= k < at ==> email[k] != '@',
        at < email.len() ==> email[at] == '@',
    ensures
        spaces_to_hyphens(email_local_part(email)).len() == at,
        forall|k: int| 0 <= k < at ==> #[trigger] spaces_to_hyphens(email_local_part(email))[k] == (if email[k] == ' ' { '-' } else { email[k] }),
        forall|k: int| 0 <= k < at ==> spaces_to_hyphens(email_local_part(email))[k] != ' ',
{
    lemma_email_local_part(email, at);
    assert(email_local_part(email) == email.take(at));
}

proof fn lemma_email_local_part(e: Seq<char>, i: int)
    requires
        0 <= i <= e.len(),
        forall|k: int| 0 <= k < i ==> e[k] != '@',
        i < e.len() ==> e[i] == '@',
    ensures
        email_local_part(e) == e.take(i),
    decreases e.len(),
{
    if e.len() == 0 {
        assert(e.take(i) =~= e);
    } else if i == e.len() {
        assert(!e.drop_last().contains('@'));
        assert(e.take(i) =~= e);
    } else {
        let d = e.drop_last();
        if i == e.len() - 1 {
            assert(!d.contains('@')) by {
                assert forall|k: int| 0 <= k < d.len() implies d[k] != '@' by {
                    assert(d[k] == e[k]);
                }
            }
            assert(e.take(i) =~= d);
        } else {
            assert(d[i] == e[i]);
            assert(d.contains('@'));
            assert forall|k: int| 0 <= k < i implies d[k] != '@' by {
                assert(d[k] == e[k]);
            }
            lemma_email_local_part(d, i);
            assert(d.take(i) =~= e.take(i));
        }
    }
}

/// Role given to a user whose account is being created: `User` when it joins
/// an existing organization, `Owner` of the organization created for it
/// otherwise; a valid invitation, when one is given, decides the role instead.
pub fn account_role(organization_id: Option<u128>, invitation_role: Option<i32>) -> (r: UserRole)
    ensures
        invitation_role matches Some(code) ==> r == crate::models::role_of_code(code),
        invitation_role is None && organization_id is Some ==> r == UserRole::User,
        invitation_role is None && organization_id is None ==> r == UserRole::Owner,
{
    match invitation_role {
        Some(code) => UserRole::from_code(code),
        None => match organization_id {
            Some(_) => UserRole::User,
            None => UserRole::Owner,
        },
    }
}

/// Refuses a new member once the organization holds as many users as its
/// plan allows.
pub fn check_user_limit(user_org_count: i32, plan_user_count: i32) -> (r: Result<(), ServiceError>)
    ensures
        r is Ok <==> user_org_count < plan_user_count,
        r is Err ==> fails_bad_request(
            r,
            "User limit reached for organization, must upgrade plan to add more users"@,
        ),
{
    if user_org_count >= plan_user_count {
        return Err(bad_request(
            "User limit reached for organization, must upgrade plan to add more users",
        ));
    }
    Ok(())
}

} // verus!

verus! {

/// Where to send the browser back to: the requested redirect, else the
/// referring page, else the site root.
pub open spec fn return_target(redirect_uri: Option<Seq<char>>, referer: Option<Seq<char>>) -> Seq<char> {
    match redirect_uri {
        Some(r) => r,
        None => match referer {
            Some(h) => h,
            None => "/"@,
        },
    }
}

/// The redirect target of a login or logout: `redirect_uri` when given, else
/// the `Referer` header, else `/`.
pub fn redirect_target(redirect_uri: Option<&str>, referer: Option<&str>) -> (t: String)
    ensures
        t@ == return_target(
            match redirect_uri { Some(r) => Some(r@), None => None },
            match referer { Some(h) => Some(h@), None => None },
        ),
{
    broadcast use vstd::string::group_string_axioms;
    match redirect_uri {
        Some(r) => r.to_string(),
        None => match referer {
            Some(h) => h.to_string(),
            None => "/".to_string(),
        },
    }
}

/// The identity provider's logout URL that returns the browser to `target`.
pub open spec fn logout_url_spec(issuer_url: Seq<char>, target: Seq<char>, client_id: Seq<char>) -> Seq<char> {
    issuer_url + "/protocol/openid-connect/logout?post_logout_redirect_uri="@ + target + "&client_id="@
        + client_id
}

/// URL of the identity provider's logout page, which returns the browser to
/// the redirect target afterwards.
pub fn logout_url(issuer_url: &str, redirect_uri: Option<&str>, referer: Option<&str>, client_id: &str) -> (u: String)
    ensures
        u@ == logout_url_spec(
            issuer_url@,
            return_target(
                match redirect_uri { Some(r) => Some(r@), None => None },
                match referer { Some(h) => Some(h@), None => None },
            ),
            client_id@,
        ),
{
    broadcast use vstd::string::group_string_axioms;
    let target = redirect_target(redirect_uri, referer);
    let mut u = issuer_url.to_string();
    u.append("/protocol/openid-connect/logout?post_logout_redirect_uri=");
    u.append(target.as_str());
    u.append("&client_id=");
    u.append(client_id);
    u
}

/// After login, whether the user still has to join the organization it
/// asked to log into: it asked for one and is not yet a member of it.
pub fn needs_organization_join(organization_id: Option<u128>, user_orgs: &Vec<UserOrganization>) -> (b: bool)
    ensures
        b == (organization_id matches Some(o) && !is_member(user_orgs@, o)),
{
    match organization_id {
        Some(o) => {
            let found = crate::models::find_org_role(user_orgs, o);
            found.is_none()
        },
        None => false,
    }
}

/// Checks the ID token's access-token hash against the one computed from
/// the access token: a missing hash, a hash that cannot be computed, and a
/// mismatch are each refused with their own message.
pub fn check_access_token_hash(given: Option<&Vec<u8>>, computed: Option<&Vec<u8>>) -> (r: Result<(), ServiceError>)
    ensures
        given is None ==> fails_bad_request(r, "Missing access token hash"@),
        given is Some && computed is None ==> fails_bad_request(r, "ID token hash unavailable"@),
        given matches Some(g) && computed matches Some(c) && g@ != c@ ==> fails_bad_request(r, "ID token hash invalid"@),
        r is Ok <==> (given matches Some(g) && computed matches Some(c) && g@ == c@),
{
    match given {
        None => Err(bad_request("Missing access token hash")),
        Some(g) => match computed {
            None => Err(bad_request("ID token hash unavailable")),
            Some(c) => {
                if bytes_equal(g, c) {
                    Ok(())
                } else {
                    Err(bad_request("ID token hash invalid"))
                }
            },
        },
    }
}

/// Whether two byte strings are equal.
pub fn bytes_equal(a: &Vec<u8>, b: &Vec<u8>) -> (r: bool)
    ensures
        r == (a@ == b@),
{
    if a.len() != b.len() {
        return false;
    }
    let mut i: usize = 0;
    while i < a.len()
        invariant
            i <= a@.len(),
            a@.len() == b@.len(),
            forall|k: int| 0 <= k < i ==> a@[k] == b@[k],
        decreases a.len() - i,
    {
        if a[i] != b[i] {
            return false;
        }
        i = i + 1;
    }
    assert(a@ =~= b@);
    true
}

} // verus!
