use plus_api::auth::{remote_password, token_expiry, AuthUser, TOKEN_TTL_SECS};
use plus_api::client::{select_login, GroupPage};
use plus_api::dispatch::agent_key;
use plus_api::error::AppError;

fn user(role: &str, tenant: Option<u128>) -> AuthUser {
    AuthUser { id: 1, role: role.to_string(), tenant_id: tenant }
}

#[test]
fn accounts_act_on_their_own_client() {
    assert_eq!(user("admin", Some(7)).effective_tenant(None), Ok(7));
    assert_eq!(user("viewer", Some(7)).effective_tenant(Some(9)), Ok(7));
    assert_eq!(user("operator", None).effective_tenant(Some(9)), Err(AppError::Forbidden));
}

#[test]
fn super_admin_names_the_client() {
    let root = user("super_admin", None);
    assert!(root.is_super_admin());
    assert_eq!(root.effective_tenant(Some(9)), Ok(9));
    assert_eq!(
        root.effective_tenant(None),
        Err(AppError::BadRequest("X-Tenant-Id obrigatório".to_string()))
    );
}

#[test]
fn only_administrators_pass_the_admin_check() {
    assert_eq!(user("admin", Some(1)).require_admin(), Ok(()));
    assert_eq!(user("super_admin", None).require_admin(), Ok(()));
    assert_eq!(user("operator", Some(1)).require_admin(), Err(AppError::Forbidden));
    assert_eq!(user("viewer", Some(1)).require_admin(), Err(AppError::Forbidden));
    assert!(!user("admin", Some(1)).is_super_admin());
}

#[test]
fn tokens_last_seven_days() {
    assert_eq!(TOKEN_TTL_SECS, 7 * 24 * 3600);
    assert_eq!(token_expiry(1_700_000_000), Some(1_700_604_800));
    assert_eq!(token_expiry(i64::MAX), None);
}

#[test]
fn remote_passwords_use_capitals_and_digits() {
    assert_eq!(remote_password([0, 25, 26, 35, 36, 61, 62, 255]), "AZ09AZ0D");
    let p = remote_password([200, 17, 99, 3, 140, 77, 250, 1]);
    assert_eq!(p.len(), 8);
    assert!(p.chars().all(|c| c.is_ascii_uppercase() || c.is_ascii_digit()));
}

#[test]
fn agent_keys_join_client_and_device() {
    assert_eq!(
        agent_key(0x67e55044_10b1_426f_9247_bb680e5fe0c8, "host-PC01"),
        "67e55044-10b1-426f-9247-bb680e5fe0c8:host-PC01"
    );
    assert_ne!(agent_key(1, "a"), agent_key(2, "a"));
}

#[test]
fn page_offsets_are_checked_before_use() {
    let page = GroupPage { current: Some(3), page_size: Some(20) };
    assert!(page.offset_in_range());
    assert_eq!(page.limit_offset(), (20, 40));
    let far = GroupPage { current: Some(i64::MAX), page_size: Some(500) };
    assert!(!far.offset_in_range());
    let edge = GroupPage { current: Some(i64::MAX), page_size: Some(1) };
    assert!(edge.offset_in_range());
    assert_eq!(edge.limit_offset(), (1, i64::MAX - 1));
}

#[test]
fn passwords_are_stored_as_argon2id_hashes() {
    let salt = [7u8; 16];
    let hash = plus_api::auth::hash_password("s3cret-pass", salt).unwrap();
    assert!(hash.starts_with("$argon2id$"));
    assert_ne!(hash, "s3cret-pass");
    assert!(plus_api::auth::verify_password("s3cret-pass", &hash));
    assert!(!plus_api::auth::verify_password("other-pass", &hash));
    assert!(!plus_api::auth::verify_password("s3cret-pass", "not a hash"));
    assert_eq!(plus_api::auth::hash_password("s3cret-pass", salt).unwrap(), hash);
}

#[test]
fn login_keeps_the_single_account_whose_hash_verifies() {
    let a = plus_api::auth::hash_password("alpha-pass", [1u8; 16]).unwrap();
    let b = plus_api::auth::hash_password("beta-pass1", [2u8; 16]).unwrap();
    let a2 = plus_api::auth::hash_password("alpha-pass", [3u8; 16]).unwrap();
    assert_eq!(select_login("beta-pass1", &[a.clone(), b.clone()]), Ok(1));
    assert_eq!(select_login("wrong-pass", &[a.clone(), b.clone()]), Err(AppError::Unauthorized));
    assert_eq!(
        select_login("alpha-pass", &[a, b, a2]),
        Err(AppError::BadRequest(
            "email e senha correspondem a mais de um cliente; use credenciais diferentes".to_string()
        ))
    );
}
