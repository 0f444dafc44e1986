use ttgtiso_desk::security::access::{AccessMode, AccessOutcome, AccessPolicy, HostContext};
use ttgtiso_desk::security::{hash_password, redact_checked, system_check_applies, AuthError, CredentialsDatabase, SecurityManager, UserRole};

fn present() -> HostContext {
    HostContext { local_user_present: true }
}

fn absent() -> HostContext {
    HostContext { local_user_present: false }
}

fn manager() -> SecurityManager {
    SecurityManager::with_database(SecurityManager::default_database(
        "00112233445566778899aabbccddeeff".to_string(),
        "salt-operator".to_string(),
        "salt-auditor".to_string(),
    ))
}

#[test]
fn unattended_denied_by_default() {
    let policy = AccessPolicy::default();
    assert_eq!(
        policy.evaluate("operator", AccessMode::Unattended, absent()),
        AccessOutcome::Deny("Unattended access is disabled on this host".to_string())
    );
}

#[test]
fn unattended_allowed_only_for_allowlisted_operator() {
    let policy = AccessPolicy {
        allow_unattended: true,
        unattended_allowlist: vec!["alice".to_string()],
        ..Default::default()
    };
    assert_eq!(policy.evaluate("Alice", AccessMode::Unattended, absent()), AccessOutcome::Grant);
    assert!(matches!(policy.evaluate("mallory", AccessMode::Unattended, absent()), AccessOutcome::Deny(_)));
}

#[test]
fn attended_prompts_when_user_present() {
    let policy = AccessPolicy::default();
    assert_eq!(policy.evaluate("tech", AccessMode::AskUser, present()), AccessOutcome::Prompt);
}

#[test]
fn attended_denied_when_no_user_and_strict() {
    let policy = AccessPolicy::default();
    assert!(matches!(policy.evaluate("tech", AccessMode::AskUser, absent()), AccessOutcome::Deny(_)));
}

#[test]
fn attended_grants_when_no_user_and_lenient() {
    let policy = AccessPolicy { require_present_user_for_attended: false, ..Default::default() };
    assert_eq!(policy.evaluate("tech", AccessMode::AskUser, absent()), AccessOutcome::Grant);
}

#[test]
fn test_rbac_rules() {
    let mgr = manager();
    assert!(mgr.check_permission(&UserRole::Admin, "any_action"));
    assert!(mgr.check_permission(&UserRole::User, "connect"));
    assert!(!mgr.check_permission(&UserRole::User, "view_logs"));
    assert!(mgr.check_permission(&UserRole::Auditor, "view_logs"));
    assert!(!mgr.check_permission(&UserRole::Auditor, "connect"));
}

#[test]
fn operator_permissions() {
    let mgr = manager();
    assert!(mgr.check_permission(&UserRole::SupportOperator, "view_session"));
    assert!(mgr.check_permission(&UserRole::SupportOperator, "clipboard_sync"));
    assert!(!mgr.check_permission(&UserRole::SupportOperator, "export_audit"));
    assert!(mgr.check_permission(&UserRole::Auditor, "export_audit"));
}

#[test]
fn test_secret_redaction() {
    let mgr = manager();
    let config_line = "password = \"my_secret_pass_123\"";
    let redacted = mgr.redact_secrets(config_line);
    assert_eq!(redacted, "password = \"[REDACTED]\"");
}

#[test]
fn redaction_skips_structural_keys_and_ignores_case() {
    let mgr = manager();
    assert_eq!(mgr.redact_secrets("password_hash = \"abc\""), "password_hash = \"abc\"");
    assert_eq!(mgr.redact_secrets("PASSPHRASE=\"x y\""), "PASSPHRASE=\"[REDACTED]\"");
    assert_eq!(mgr.redact_secrets("name = \"x\""), "name = \"x\"");
    assert_eq!(mgr.redact_secrets("secret = unquoted"), "secret = unquoted");
}

#[test]
fn redaction_works_on_cyrillic_text() {
    let mgr = manager();
    assert_eq!(
        mgr.redact_secrets("Пароль: password = \"секрет\""),
        "Пароль: password = \"[REDACTED]\""
    );
}

#[test]
fn redaction_follows_byte_offsets_of_the_lowered_text() {
    // Lower-casing U+0130 takes one byte more, so the search resumes one
    // byte later in the text itself; the value is still found.
    assert_eq!(
        redact_checked("\u{130} password = \"x\""),
        Some("\u{130} password = \"[REDACTED]\"".to_string())
    );
    // Lower-casing the Kelvin sign takes two bytes less, so the offset lands
    // inside the next character: there is no redacted form.
    assert_eq!(redact_checked("\u{212A}\u{439} password = \"x\""), None);
    assert_eq!(redact_checked("nothing here"), Some("nothing here".to_string()));
}

#[test]
fn hash_password_is_sha256_hex_of_password_and_salt() {
    assert_eq!(
        hash_password("abc", ""),
        "ba7816bf8f01cfea414140de5dae2223b00361a396177a9cb410ff61f20015ad"
    );
    assert_eq!(hash_password("a", "bc"), hash_password("ab", "c"));
    assert_eq!(hash_password("x", "y").len(), 64);
}

#[test]
fn default_accounts_authenticate() {
    let mgr = manager();
    assert_eq!(mgr.authenticate("admin", "admin123", |_: &str, _: &str| false), Ok(UserRole::Admin));
    assert_eq!(mgr.authenticate("operator", "operator123", |_: &str, _: &str| false), Ok(UserRole::SupportOperator));
    assert_eq!(mgr.authenticate("auditor", "auditor123", |_: &str, _: &str| false), Ok(UserRole::Auditor));
    assert_eq!(mgr.authenticate_local("admin", "wrong"), None);
}

#[test]
fn authentication_errors() {
    let mgr = manager();
    assert_eq!(mgr.authenticate("admin", "", |_: &str, _: &str| true), Err(AuthError::EmptyPassword));
    assert_eq!(mgr.authenticate("admin", "nope", |_: &str, _: &str| false), Err(AuthError::InvalidCredentials));
    assert_eq!(mgr.authenticate("root", "sys", |_: &str, _: &str| true), Ok(UserRole::Admin));
    assert_eq!(AuthError::EmptyPassword.message(), "Authentication failed: Empty password");
    assert_eq!(AuthError::InvalidCredentials.message(), "Authentication failed: Invalid credentials");
}

#[test]
fn custom_database_accounts() {
    let db = CredentialsDatabase {
        users: vec![ttgtiso_desk::security::UserCredentials {
            username: "u".to_string(),
            role: UserRole::User,
            password_hash: hash_password("pw", "s"),
            salt: "s".to_string(),
        }],
    };
    let mgr = SecurityManager::with_database(db);
    assert_eq!(mgr.authenticate("u", "pw", |_: &str, _: &str| false), Ok(UserRole::User));
}

#[test]
fn the_system_password_check_covers_only_administrative_and_own_accounts() {
    assert!(system_check_applies("admin", "alice"));
    assert!(system_check_applies("root", "alice"));
    assert!(system_check_applies("alice", "alice"));
    assert!(!system_check_applies("bob", "alice"));
    assert!(!system_check_applies("", "alice"));
}

#[test]
fn only_structural_names_keep_their_values() {
    let mgr = manager();
    assert_eq!(
        mgr.redact_secrets("password_hash = \"abc\"\npassword = \"p\""),
        "password_hash = \"abc\"\npassword = \"[REDACTED]\""
    );
    assert_eq!(mgr.try_redact_secrets("secret_key = \"k\""), Some("secret_key = \"k\"".to_string()));
    assert_eq!(mgr.try_redact_secrets("\u{212A}\u{439} password = \"x\""), None);
}

#[test]
fn a_manager_without_a_stored_database_starts_with_the_initial_accounts() {
    let mgr = SecurityManager::new(None, "a".to_string(), "b".to_string(), "c".to_string());
    assert_eq!(mgr.authenticate_local("admin", "admin123"), Some(UserRole::Admin));
    assert_eq!(mgr.authenticate_local("operator", "operator123"), Some(UserRole::SupportOperator));
    assert_eq!(mgr.authenticate_local("auditor", "auditor123"), Some(UserRole::Auditor));
    let stored = SecurityManager::default_database("x".to_string(), "y".to_string(), "z".to_string());
    let mut only_admin = stored.clone();
    only_admin.users.truncate(1);
    let mgr = SecurityManager::new(Some(only_admin), "a".to_string(), "b".to_string(), "c".to_string());
    assert_eq!(mgr.authenticate_local("admin", "admin123"), Some(UserRole::Admin));
    assert_eq!(mgr.authenticate_local("operator", "operator123"), None);
}
