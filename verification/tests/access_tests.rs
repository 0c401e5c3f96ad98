use trieve_handlers::account::{
    api_key_from, check_granted_role, check_invitation_expiry, check_new_password, check_target_membership,
    check_update_user_access, generate_api_key, hash_password, parse_invitation_id,
    update_target_user,
};
use trieve_handlers::auth::{
    account_role, admin_only_from_request, bytes_equal, check_access_token_hash, check_user_limit,
    logged_user_from_request, logout_url, needs_organization_join, org_name_from_email,
    owner_only_from_request, redirect_target, OrganizationRole,
};
use trieve_handlers::errors::ServiceError;
use trieve_handlers::invitation::{
    already_invited_error, already_member_error, check_invitation, registration_url,
};
use trieve_handlers::models::{find_org_role, SlimUser, UserOrganization, UserRole};

fn user_in(org: u128, role: i32) -> SlimUser {
    SlimUser {
        id: 7,
        email: "owner@example.com".to_string(),
        user_orgs: vec![UserOrganization { user_id: 7, organization_id: org, role }],
    }
}

fn bad(msg: &str) -> ServiceError {
    ServiceError::BadRequest(msg.to_string())
}

#[test]
fn role_codes_round_trip() {
    assert_eq!(UserRole::from_code(2), UserRole::Owner);
    assert_eq!(UserRole::from_code(1), UserRole::Admin);
    assert_eq!(UserRole::from_code(0), UserRole::User);
    assert_eq!(UserRole::from_code(17), UserRole::User);
    assert_eq!(UserRole::Owner.code(), 2);
    assert_eq!(UserRole::Admin.code(), 1);
    assert_eq!(UserRole::User.code(), 0);
}

#[test]
fn find_org_role_takes_first_membership() {
    let orgs = vec![
        UserOrganization { user_id: 1, organization_id: 5, role: 0 },
        UserOrganization { user_id: 1, organization_id: 9, role: 2 },
        UserOrganization { user_id: 1, organization_id: 9, role: 1 },
    ];
    assert_eq!(find_org_role(&orgs, 9), Some(2));
    assert_eq!(find_org_role(&orgs, 5), Some(0));
    assert_eq!(find_org_role(&orgs, 4), None);
}

#[test]
fn logged_user_requires_a_user() {
    assert_eq!(logged_user_from_request(None), Err(ServiceError::Unauthorized));
    let u = user_in(1, 0);
    assert_eq!(logged_user_from_request(Some(u.clone())), Ok(u));
}

#[test]
fn admin_only_refuses_plain_users() {
    assert!(matches!(admin_only_from_request(None), Err(ServiceError::Unauthorized)));
    let plain = OrganizationRole { user: user_in(1, 0), role: UserRole::User };
    assert!(matches!(admin_only_from_request(Some(plain)), Err(ServiceError::Forbidden)));
    let admin = OrganizationRole { user: user_in(1, 1), role: UserRole::Admin };
    let got = admin_only_from_request(Some(admin)).ok().unwrap();
    assert_eq!(got.0, user_in(1, 1));
    let owner = OrganizationRole { user: user_in(1, 2), role: UserRole::Owner };
    assert!(admin_only_from_request(Some(owner)).is_ok());
}

#[test]
fn owner_only_admits_owners_alone() {
    assert!(matches!(owner_only_from_request(None), Err(ServiceError::Unauthorized)));
    let admin = OrganizationRole { user: user_in(1, 1), role: UserRole::Admin };
    assert!(matches!(owner_only_from_request(Some(admin)), Err(ServiceError::Forbidden)));
    let owner = OrganizationRole { user: user_in(1, 2), role: UserRole::Owner };
    assert_eq!(owner_only_from_request(Some(owner)).unwrap().0, user_in(1, 2));
}

#[test]
fn owner_is_admitted_where_admin_is() {
    for role in [UserRole::Owner, UserRole::Admin, UserRole::User] {
        let owner_ok = owner_only_from_request(Some(OrganizationRole { user: user_in(1, 0), role })).is_ok();
        let admin_ok = admin_only_from_request(Some(OrganizationRole { user: user_in(1, 0), role })).is_ok();
        assert!(!owner_ok || admin_ok);
    }
}

#[test]
fn org_name_is_local_part_with_hyphens() {
    assert_eq!(org_name_from_email("jane doe@example.com"), "jane-doe");
    assert_eq!(org_name_from_email("a@b@c"), "a");
    assert_eq!(org_name_from_email("no at sign"), "no-at-sign");
    assert_eq!(org_name_from_email(""), "");
}

#[test]
fn account_role_follows_invitation_then_organization() {
    assert_eq!(account_role(None, None), UserRole::Owner);
    assert_eq!(account_role(Some(3), None), UserRole::User);
    assert_eq!(account_role(Some(3), Some(1)), UserRole::Admin);
    assert_eq!(account_role(None, Some(2)), UserRole::Owner);
}

#[test]
fn user_limit_is_strict() {
    assert_eq!(check_user_limit(4, 5), Ok(()));
    assert_eq!(
        check_user_limit(5, 5),
        Err(bad("User limit reached for organization, must upgrade plan to add more users"))
    );
}

#[test]
fn redirect_and_logout_targets() {
    assert_eq!(redirect_target(Some("https://a/x"), Some("https://ref")), "https://a/x");
    assert_eq!(redirect_target(None, Some("https://ref")), "https://ref");
    assert_eq!(redirect_target(None, None), "/");
    assert_eq!(
        logout_url("https://idp/realms/r", None, None, "client"),
        "https://idp/realms/r/protocol/openid-connect/logout?post_logout_redirect_uri=/&client_id=client"
    );
}

#[test]
fn organization_join_needed_for_foreign_org() {
    let orgs = vec![UserOrganization { user_id: 1, organization_id: 5, role: 0 }];
    assert!(!needs_organization_join(None, &orgs));
    assert!(!needs_organization_join(Some(5), &orgs));
    assert!(needs_organization_join(Some(6), &orgs));
}

#[test]
fn access_token_hash_checks() {
    let a = vec![1u8, 2, 3];
    let b = vec![1u8, 2, 4];
    assert_eq!(check_access_token_hash(None, Some(&a)), Err(bad("Missing access token hash")));
    assert_eq!(check_access_token_hash(Some(&a), None), Err(bad("ID token hash unavailable")));
    assert_eq!(check_access_token_hash(Some(&a), Some(&b)), Err(bad("ID token hash invalid")));
    assert_eq!(check_access_token_hash(Some(&a), Some(&a.clone())), Ok(()));
    assert!(bytes_equal(&a, &vec![1, 2, 3]));
    assert!(!bytes_equal(&a, &vec![1, 2]));
}

#[test]
fn new_password_rules() {
    assert_eq!(check_new_password("short", "short").unwrap_err().message, "Password must be at least 8 characters");
    assert_eq!(check_new_password("longenough", "different").unwrap_err().message, "Passwords do not match");
    assert!(check_new_password("longenough", "longenough").is_ok());
}

#[test]
fn invitation_id_and_expiry() {
    assert_eq!(
        parse_invitation_id("67e55044-10b1-426f-9247-bb680e5fe0c8"),
        Ok(0x67e5504410b1426f9247bb680e5fe0c8)
    );
    assert_eq!(parse_invitation_id("not-a-uuid").unwrap_err().message, "Invalid Invitation");
    assert!(check_invitation_expiry(101, 100).is_ok());
    assert_eq!(check_invitation_expiry(100, 100).unwrap_err().message, "Invitation Expired");
}

#[test]
fn password_hash_is_argon2_encoding() {
    let h = hash_password("hunter22", "server-secret", "saltsaltsalt").unwrap();
    let config = argon2::Config { secret: b"server-secret", ..Default::default() };
    let expected = argon2::hash_encoded(b"hunter22", b"saltsaltsalt", &config).unwrap();
    assert_eq!(h, expected);
    assert_ne!(h, "hunter22");
    assert!(argon2::verify_encoded_ext(&h, b"hunter22", b"server-secret", b"").unwrap());
    assert_eq!(hash_password("pw", "s", "x").unwrap_err().message, "Error processing password, try again");
}

#[test]
fn api_key_shape() {
    let k = generate_api_key();
    assert_eq!(k.len(), 35);
    assert!(k.starts_with("af-"));
    assert!(k[3..].chars().all(|c| c.is_ascii_alphanumeric()));
}

#[test]
fn update_user_access_rules() {
    let member = user_in(9, 0);
    assert_eq!(
        check_update_user_access(&member, 8, None),
        Err(bad("You are not a member of this organization"))
    );
    assert_eq!(
        check_update_user_access(&member, 9, Some(3)),
        Err(bad("You must have an admin or owner role to update other users"))
    );
    assert_eq!(check_update_user_access(&member, 9, None), Ok(0));
    assert_eq!(check_update_user_access(&user_in(9, 1), 9, Some(3)), Ok(1));
    assert!(check_target_membership(true).is_ok());
    assert!(check_target_membership(false).is_err());
    assert_eq!(update_target_user(Some(4), 7), 4);
    assert_eq!(update_target_user(None, 7), 7);
}

#[test]
fn granted_role_never_exceeds_requester() {
    assert_eq!(check_granted_role(None, 0), Ok(None));
    assert_eq!(check_granted_role(Some(1), 2), Ok(Some(UserRole::Admin)));
    assert_eq!(check_granted_role(Some(1), 1), Ok(Some(UserRole::Admin)));
    assert_eq!(
        check_granted_role(Some(2), 1),
        Err(bad("Can not grant a user a higher role than that of the requesting user's"))
    );
    for requested in -1..4 {
        for requester in -1..4 {
            if let Ok(Some(g)) = check_granted_role(Some(requested), requester) {
                assert!(g.code() <= UserRole::from_code(requester).code());
            }
        }
    }
}

#[test]
fn invitation_checks() {
    let inviter = user_in(9, 1);
    assert_eq!(check_invitation(&inviter, 9, "not an email", 0), Err(bad("Invalid email")));
    assert_eq!(check_invitation(&inviter, 9, " owner@example.com ", 0), Err(bad("Can not invite yourself")));
    assert_eq!(
        check_invitation(&inviter, 9, "new@example.com", 2),
        Err(bad("Can not invite user with higher role than yours"))
    );
    assert_eq!(
        check_invitation(&inviter, 8, "new@example.com", 0),
        Err(bad("Can not invite user with higher role than yours"))
    );
    assert_eq!(check_invitation(&inviter, 9, "  new@example.com\n", 1), Ok("new@example.com".to_string()));
}

#[test]
fn invitation_messages_and_url() {
    assert_eq!(
        already_member_error("a@b.c"),
        bad("User with email a@b.c is already in the organization")
    );
    assert_eq!(already_invited_error("a@b.c"), bad("User with email a@b.c has already been invited"));
    assert_eq!(
        registration_url("https://app", 0x67e5504410b1426f9247bb680e5fe0c8, 1, "https://back"),
        "https://app/auth?inv_code=67e55044-10b1-426f-9247-bb680e5fe0c8&organization_id=00000000-0000-0000-0000-000000000001&redirect_uri=https://back"
    );
}

#[test]
fn api_key_is_prefix_and_drawn_characters() {
    assert_eq!(api_key_from("AbC123"), "af-AbC123");
    let k = generate_api_key();
    assert_eq!(api_key_from(&k[3..]), k);
}

#[test]
fn email_pattern_cases() {
    let inviter = user_in(9, 2);
    for (email, ok) in [
        ("a@b", true),
        ("a.b+c@d-e.org", true),
        ("a\u{2019}b@c", true),
        ("a@-x", true),
        ("@b.com", false),
        ("a@", false),
        ("a@.com", false),
        ("a b@c.com", false),
        ("a@b@c", true),
    ] {
        assert_eq!(check_invitation(&inviter, 9, email, 0).is_ok(), ok, "{}", email);
    }
}
