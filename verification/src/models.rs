use vstd::prelude::*;

verus! {

/// Role of a user within an organization, from least to most privileged:
/// `User` (code 0), `Admin` (code 1), `Owner` (code 2).
#[derive(Debug, Clone, Copy, PartialEq, Eq)]
pub enum UserRole {
    Owner,
    Admin,
    User,
}

/// Numeric code of a role, which also orders the roles by privilege.
pub open spec fn role_rank(r: UserRole) -> int {
    match r {
        UserRole::Owner => 2,
        UserRole::Admin => 1,
        UserRole::User => 0,
    }
}

/// The role that a numeric code stands for: 2 is `Owner`, 1 is `Admin`,
/// every other code is `User`.
pub open spec fn role_of_code(code: i32) -> UserRole {
    if code == 2 {
        UserRole::Owner
    } else if code == 1 {
        UserRole::Admin
    } else {
        UserRole::User
    }
}

impl UserRole {
    /// The role that `code` stands for.
    pub fn from_code(code: i32) -> (r: UserRole)
        ensures
            r == role_of_code(code),
    {
        if code == 2 {
            UserRole::Owner
        } else if code == 1 {
            UserRole::Admin
        } else {
            UserRole::User
        }
    }

    /// The numeric code of the role.
    pub fn code(&self) -> (c: i32)
        ensures
            c as int == role_rank(*self),
    {
        match self {
            UserRole::Owner => 2,
            UserRole::Admin => 1,
            UserRole::User => 0,
        }
    }
}

/// Membership of a user in an organization, with the role code it grants.
#[derive(Debug, Clone, Copy, PartialEq, Eq)]
pub struct UserOrganization {
    pub user_id: u128,
    pub organization_id: u128,
    pub role: i32,
}

/// The authenticated user as the request handlers see it.
#[derive(Debug, Clone, PartialEq, Eq)]
pub struct SlimUser {
    pub id: u128,
    pub email: String,
    pub user_orgs: Vec<UserOrganization>,
}

/// The role code of the first membership in `orgs` for organization `org`.
pub open spec fn org_role_code(orgs: Seq<UserOrganization>, org: u128) -> Option<i32>
    decreases orgs.len(),
{
    if orgs.len() == 0 {
        None
    } else if orgs[0].organization_id == org {
        Some(orgs[0].role)
    } else {
        org_role_code(orgs.drop_first(), org)
    }
}

/// Whether some membership in `orgs` is for organization `org`.
pub open spec fn is_member(orgs: Seq<UserOrganization>, org: u128) -> bool {
    exists|k: int| 0 <= k < orgs.len() && (#[trigger] orgs[k]).organization_id == org
}

/// A membership exists exactly when a role code is found for it.
pub proof fn lemma_org_role_code_member(orgs: Seq<UserOrganization>, org: u128)
    ensures
        org_role_code(orgs, org) is Some <==> is_member(orgs, org),
    decreases orgs.len(),
{
    if orgs.len() > 0 {
        lemma_org_role_code_member(orgs.drop_first(), org);
        if orgs[0].organization_id != org {
            if is_member(orgs, org) {
                let k = choose|k: int| 0 <= k < orgs.len() && (#[trigger] orgs[k]).organization_id == org;
                assert(orgs.drop_first()[k - 1] == orgs[k]);
            }
            if is_member(orgs.drop_first(), org) {
                let k = choose|k: int|
                    0 <= k < orgs.drop_first().len() && (#[trigger] orgs.drop_first()[k]).organization_id
                        == org;
                assert(orgs[k + 1] == orgs.drop_first()[k]);
            }
        }
    }
}

/// The role code that `user` holds in organization `org`: that of the first
/// of its memberships for `org`, if it has one.
pub fn find_org_role(orgs: &Vec<UserOrganization>, org: u128) -> (r: Option<i32>)
    ensures
        r == org_role_code(orgs@, org),
        r is Some <==> is_member(orgs@, org),
{
    proof {
        lemma_org_role_code_member(orgs@, org);
    }
    let mut i: usize = 0;
    assert(orgs@.skip(0) =~= orgs@);
    while i < orgs.len()
        invariant
            i <= orgs@.len(),
            org_role_code(orgs@, org) == org_role_code(orgs@.skip(i as int), org),
        decreases orgs.len() - i,
    {
        assert(orgs@.skip(i as int)[0] == orgs@[i as int]);
        if orgs[i].organization_id == org {
            return Some(orgs[i].role);
        }
        assert(orgs@.skip(i as int).drop_first() =~= orgs@.skip(i + 1));
        i = i + 1;
    }
    None
}

/// A chunk or group named either by its generated id or by the tracking id
/// its owner gave it.
#[derive(Debug, Clone, PartialEq, Eq)]
pub enum UnifiedId {
    TrieveUuid(u128),
    TrackingId(String),
}

/// How recommendations are computed from the example chunks or groups.
#[derive(Debug, Clone, Copy, PartialEq, Eq)]
pub enum RecommendationStrategy {
    AverageVector,
    BestScore,
}

} // verus!
