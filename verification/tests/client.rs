use plus_api::client::{
    can_connect_remotely, desktop_account_allowed, extract_ip, flutter_color, group_platform,
    login_username, report_tenant, rustdesk_platform, rustdesk_user, select_account, GroupPage,
};
use plus_api::error::AppError;

#[test]
fn shares_remote_password_only_with_operating_roles() {
    assert!(can_connect_remotely("admin"));
    assert!(can_connect_remotely("operator"));
    assert!(!can_connect_remotely("viewer"));
    assert!(!can_connect_remotely("super_admin"));
}

#[test]
fn maps_platform_names_used_by_the_client() {
    assert_eq!(rustdesk_platform(Some("Windows 11")), "Windows");
    assert_eq!(rustdesk_platform(Some("Ubuntu Linux")), "Linux");
    assert_eq!(rustdesk_platform(Some("Darwin")), "Mac OS");
}

#[test]
fn converts_css_colors_to_flutter_argb() {
    assert_eq!(flutter_color("#3b82f6"), 0xFF3B82F6);
    assert_eq!(flutter_color("#8044CC22"), 0x8044CC22);
    assert_eq!(flutter_color("invalid"), 0xFF3B82F6);
}

#[test]
fn platform_names_cover_mobile_and_unknown_systems() {
    assert_eq!(rustdesk_platform(Some("Android 14")), "Android");
    assert_eq!(rustdesk_platform(Some("iOS 17")), "iOS");
    assert_eq!(rustdesk_platform(Some("macOS Sonoma")), "Mac OS");
    assert_eq!(rustdesk_platform(Some("FreeBSD")), "");
    assert_eq!(rustdesk_platform(None), "");
    assert_eq!(group_platform(Some("Darwin 23")), "macOS");
    assert_eq!(group_platform(Some("WINDOWS SERVER")), "Windows");
}

#[test]
fn colors_are_trimmed_and_checked() {
    assert_eq!(flutter_color("  #3B82F6  "), 0xFF3B82F6);
    assert_eq!(flutter_color("##00ff00"), 0xFF00FF00);
    assert_eq!(flutter_color("+3b82f"), 0xFF03B82F);
    assert_eq!(flutter_color("#12345"), 0xFF3B82F6);
    assert_eq!(flutter_color("#zzzzzz"), 0xFF3B82F6);
    assert_eq!(flutter_color("#+"), 0xFF3B82F6);
    assert_eq!(flutter_color(""), 0xFF3B82F6);
}

#[test]
fn group_pages_are_clamped() {
    assert_eq!(GroupPage { current: None, page_size: None }.limit_offset(), (100, 0));
    assert_eq!(GroupPage { current: Some(3), page_size: Some(1000) }.limit_offset(), (500, 1000));
    assert_eq!(GroupPage { current: Some(-5), page_size: Some(0) }.limit_offset(), (1, 0));
    assert_eq!(GroupPage { current: Some(2), page_size: Some(20) }.limit_offset(), (20, 20));
}

#[test]
fn client_address_prefers_forwarded_header() {
    assert_eq!(extract_ip(Some(" 1.2.3.4 , 5.6.7.8"), Some("9.9.9.9"), "10.0.0.1"), "1.2.3.4");
    assert_eq!(extract_ip(None, Some("9.9.9.9"), "10.0.0.1"), "9.9.9.9");
    assert_eq!(extract_ip(None, None, "10.0.0.1"), "10.0.0.1");
    assert_eq!(extract_ip(Some(""), None, "10.0.0.1"), "");
}

#[test]
fn login_needs_user_and_password() {
    assert_eq!(login_username(Some("  ana@x.com "), Some("pw")), Ok("ana@x.com".to_string()));
    assert_eq!(login_username(Some("   "), Some("pw")), Err(AppError::Unauthorized));
    assert_eq!(login_username(Some("ana"), Some("")), Err(AppError::Unauthorized));
    assert_eq!(login_username(None, None), Err(AppError::Unauthorized));
}

#[test]
fn login_takes_the_single_matching_account() {
    assert_eq!(select_account(&[false, true, false]), Ok(1));
    assert_eq!(select_account(&[]), Err(AppError::Unauthorized));
    assert_eq!(select_account(&[false, false]), Err(AppError::Unauthorized));
    assert_eq!(
        select_account(&[true, false, true]),
        Err(AppError::BadRequest(
            "email e senha correspondem a mais de um cliente; use credenciais diferentes".to_string()
        ))
    );
}

#[test]
fn desktop_login_refuses_super_admin() {
    assert_eq!(desktop_account_allowed(true), Ok(()));
    assert_eq!(
        desktop_account_allowed(false),
        Err(AppError::BadRequest(
            "use no cliente RustDesk uma conta vinculada a um cliente, não a conta super admin"
                .to_string()
        ))
    );
}

#[test]
fn desktop_user_shows_admin_roles() {
    let u = rustdesk_user("ana@x.com", "Ana", "super_admin");
    assert_eq!(u.name, "ana@x.com");
    assert_eq!(u.display_name, "Ana");
    assert_eq!(u.email, "ana@x.com");
    assert_eq!(u.note, "");
    assert_eq!(u.status, 1);
    assert!(u.is_admin);
    assert!(rustdesk_user("a", "b", "admin").is_admin);
    assert!(!rustdesk_user("a", "b", "viewer").is_admin);
}

#[test]
fn report_tenant_prefers_the_body() {
    assert_eq!(report_tenant(Some(1), Some(2)), Some(1));
    assert_eq!(report_tenant(None, Some(2)), Some(2));
    assert_eq!(report_tenant(None, None), None);
}
