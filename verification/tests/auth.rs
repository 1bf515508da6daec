use onlinerpg::access::{
    bearer_token, eq_ignore_ascii_case, google_write_access, is_admin, require_admin_for_writes,
    token_matches, GoogleClaims, WriteAccess,
};
use onlinerpg::auth::{AuthError, AuthQuery, AuthService};

#[test]
fn default_db_path_prefers_local_data_dir() {
    assert_eq!(AuthService::default_db_path(true), "data/game_data.db");
    assert_eq!(AuthService::default_db_path(false), "../data/game_data.db");
}

#[test]
fn authenticate_trims_and_picks_the_query() {
    let auth = AuthService::new("data/game_data.db".to_string());
    assert_eq!(
        auth.authenticate("  alice ", " h1 ", true).unwrap(),
        AuthQuery::CreateAccount { player_name: "alice".to_string(), password_hash: "h1".to_string() }
    );
    assert_eq!(
        auth.authenticate("alice", "h1", false).unwrap(),
        AuthQuery::VerifyLogin { player_name: "alice".to_string(), password_hash: "h1".to_string() }
    );
    match auth.authenticate("   ", "h1", false) {
        Err(AuthError::InvalidInput(m)) => assert_eq!(m, "Player name and password hash are required"),
        other => panic!("unexpected {other:?}"),
    }
    assert!(matches!(auth.authenticate("alice", "", true), Err(AuthError::InvalidInput(_))));
}

#[test]
fn login_results() {
    assert!(AuthService::create_account_result(false).is_ok());
    assert!(matches!(AuthService::create_account_result(true), Err(AuthError::AccountAlreadyExists)));
    assert!(matches!(AuthService::verify_login_result(None, "h"), Err(AuthError::AccountNotFound)));
    assert!(AuthService::verify_login_result(Some("h"), "h").is_ok());
    assert!(matches!(AuthService::verify_login_result(Some("h"), "x"), Err(AuthError::InvalidPassword)));
}

#[test]
fn character_requests_validate_names() {
    assert_eq!(AuthService::normalize_account_name(" bob ").unwrap(), "bob");
    assert!(matches!(AuthService::normalize_account_name(" "), Err(AuthError::InvalidInput(_))));
    assert!(matches!(AuthService::character_request("bob", 0), Err(AuthError::CharacterNotFound)));
    assert_eq!(AuthService::character_request("bob ", 4).unwrap(), "bob");
    assert!(matches!(AuthService::create_character_request("bob", "  "), Err(AuthError::InvalidCharacterName)));
    assert_eq!(
        AuthService::create_character_request(" bob", " Hero ").unwrap(),
        ("bob".to_string(), "Hero".to_string())
    );
}

#[test]
fn create_character_checks_in_order() {
    assert!(matches!(AuthService::create_character_checks(false, 0, false), Err(AuthError::AccountNotFound)));
    assert!(matches!(AuthService::create_character_checks(true, 3, false), Err(AuthError::CharacterLimitReached)));
    assert!(matches!(AuthService::create_character_checks(true, 2, true), Err(AuthError::CharacterNameAlreadyExists)));
    assert!(AuthService::create_character_checks(true, 2, false).is_ok());
    assert!(matches!(AuthService::delete_character_result(0), Err(AuthError::CharacterNotFound)));
    assert!(AuthService::delete_character_result(1).is_ok());
}

#[test]
fn auth_error_messages() {
    assert_eq!(AuthError::Database("disk full".to_string()).client_message(), "Server auth database error");
    assert_eq!(AuthError::Database("disk full".to_string()).describe(), "Database error: disk full");
    assert_eq!(AuthError::CharacterLimitReached.describe(), "A maximum of 3 characters can be created per account");
    assert_eq!(AuthError::InvalidInput("Account name is required").describe(), "Account name is required");
    assert_eq!(
        AuthError::InvalidInput("Account name is required").client_message(),
        "Account name and password are required"
    );
}

#[test]
fn token_matches_is_exact_equality() {
    assert!(token_matches("secret", "secret"));
    assert!(!token_matches("secret", "secreT"));
    assert!(!token_matches("secret", "secrets"));
    assert!(!token_matches("", "x"));
    assert!(token_matches("", ""));
    assert!(token_matches("ünï", "ünï"));
}

#[test]
fn bearer_and_case_helpers() {
    assert_eq!(bearer_token(Some("Bearer abc")), Some("abc".to_string()));
    assert_eq!(bearer_token(Some("bearer abc")), None);
    assert_eq!(bearer_token(None), None);
    assert!(eq_ignore_ascii_case("Admin@Example.COM", "admin@example.com"));
    assert!(!eq_ignore_ascii_case("admin", "admin2"));
}

#[test]
fn writes_need_the_npc_token_or_a_google_admin() {
    assert_eq!(require_admin_for_writes(true, None, "tok", false), WriteAccess::Allow);
    assert_eq!(require_admin_for_writes(false, None, "tok", true), WriteAccess::Unauthorized);
    assert_eq!(require_admin_for_writes(false, Some("Bearer tok"), "tok", false), WriteAccess::Allow);
    assert_eq!(require_admin_for_writes(false, Some("Bearer other"), "tok", false), WriteAccess::Unauthorized);
    assert_eq!(
        require_admin_for_writes(false, Some("Bearer other"), "tok", true),
        WriteAccess::VerifyGoogleToken("other".to_string())
    );
}

fn claims(email: Option<&str>, verified: Option<bool>) -> GoogleClaims {
    GoogleClaims { sub: "123".to_string(), email: email.map(|e| e.to_string()), email_verified: verified }
}

#[test]
fn google_admins_come_from_the_allowlist() {
    let admins = vec!["Admin@Example.com".to_string()];
    assert!(is_admin(&claims(Some("admin@example.com"), Some(true)), &admins));
    assert!(!is_admin(&claims(Some("admin@example.com"), Some(false)), &admins));
    assert!(!is_admin(&claims(Some("admin@example.com"), None), &admins));
    assert!(!is_admin(&claims(None, Some(true)), &admins));
    assert!(!is_admin(&claims(Some("eve@example.com"), Some(true)), &admins));
    assert_eq!(google_write_access(Some(&claims(Some("admin@example.com"), Some(true))), &admins), WriteAccess::Allow);
    assert_eq!(google_write_access(Some(&claims(Some("eve@example.com"), Some(true))), &admins), WriteAccess::Forbidden);
    assert_eq!(google_write_access(None, &admins), WriteAccess::Unauthorized);
}
