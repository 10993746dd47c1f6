//! Roles, sessions and tokens.
use cockatiel::auth::{
    claims_allow, generate_auth_token, generate_auth_token_at, verify_pin, AuthSession, AuthStore,
};
use cockatiel::trust::{
    is_always_trusted, is_control_surface, is_test_runner, may_read_other_credentials,
    prompt_link_for, userdb_actor_perm,
};

#[test]
fn main_loopback_grants_owner_perm() {
    assert_eq!(userdb_actor_perm(true, "user"), "owner");
    assert_eq!(userdb_actor_perm(true, ""), "owner");
    assert_eq!(userdb_actor_perm(false, "user"), "user");
    assert_eq!(userdb_actor_perm(false, "admin"), "admin");
    assert_eq!(userdb_actor_perm(false, ""), "");
}

#[test]
fn auth_tests_loopback_grants_owner_perm() {
    assert_eq!(userdb_actor_perm(true, "user"), "owner");
    assert_eq!(userdb_actor_perm(true, ""), "owner");
    assert_eq!(userdb_actor_perm(false, "user"), "user");
    assert_eq!(userdb_actor_perm(false, "admin"), "admin");
    assert_eq!(userdb_actor_perm(false, ""), "");
}

#[test]
fn control_surface_and_trusted_roles() {
    assert!(is_control_surface("cockatiel-tui"));
    assert!(is_control_surface("cockatiel-tui-child"));
    assert!(!is_control_surface("twitch-adapter"));
    assert!(!is_control_surface("reprimand"));
    assert!(!is_control_surface(""));

    assert!(is_always_trusted("cockatiel-tui"));
    assert!(is_always_trusted("cockatiel-test-runner"));
    assert!(is_always_trusted("cockatiel-audit-viewer"));
    assert!(!is_always_trusted("twitch-adapter"));

    assert!(is_test_runner("cockatiel-test-runner"));
    assert!(!is_test_runner("cockatiel-tui"));
}

#[test]
fn credential_read_gate() {
    assert!(may_read_other_credentials("cockatiel-tui"));
    assert!(may_read_other_credentials("term-chat"));
    assert!(!may_read_other_credentials("twitch-adapter"));
    assert!(!may_read_other_credentials("reprimand"));
}

#[test]
fn jwt_name_trust_binding() {
    let store = AuthStore::new("test-secret".to_string());
    let token = store.generate_token("uuid-1", "module-a");

    assert!(store.verify_token("uuid-1", &token, "module-a"));

    assert!(!store.verify_token("uuid-1", &token, "cockatiel-tui"));
    assert!(!store.verify_token("uuid-2", &token, "module-a"));
    let forged = generate_auth_token("other-secret", "uuid-1", "module-a");
    assert!(!store.verify_token("uuid-1", &forged, "module-a"));
    assert!(!store.verify_token("uuid-1", "not.a.jwt", "module-a"));
}

#[test]
fn token_runs_out_after_thirty_days() {
    let store = AuthStore::new("s".to_string());
    let token = generate_auth_token_at("s", "u", "m", 2_000_000_000);
    let end = 2_000_000_000 + 30 * 24 * 60 * 60;
    assert!(store.verify_token_at("u", &token, "m", end - 1));
    assert!(!store.verify_token_at("u", &token, "m", end));
}

#[test]
fn issued_token_is_of_this_time() {
    let store = AuthStore::new("s".to_string());
    let token = store.generate_token("u", "m");
    assert!(store.verify_token_at("u", &token, "m", 0));
    assert!(!store.verify_token_at("u", &token, "m", i64::MAX));
}
