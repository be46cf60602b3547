use rl_auth::auth::{mint, new_claims, AuthValidator, TokenKind};
use rl_auth::config::AuthConfig;
use rl_auth::users::UserError;

const NOW: i64 = 1_700_000_000;

fn config() -> AuthConfig {
    AuthConfig::new("top-secret".to_string(), 900, 7)
}

fn token_with_roles(roles: &[&str]) -> String {
    let roles: Vec<String> = roles.iter().map(|r| r.to_string()).collect();
    mint(&config(), 1, 2, &roles, TokenKind::Access, NOW).unwrap()
}

#[test]
fn the_guard_keeps_its_role() {
    let guard = AuthValidator::new("USER".to_string());
    assert_eq!(guard.valid_role, "USER");
}

#[test]
fn claims_hold_a_role_up_to_case() {
    let guard = AuthValidator::new("User".to_string());
    let claims = new_claims(1, 2, &vec!["ADMIN".to_string(), "uSER".to_string()], NOW);
    assert!(guard.authorize(&claims));
    let claims = new_claims(1, 2, &vec!["ADMIN".to_string(), "USERS".to_string()], NOW);
    assert!(!guard.authorize(&claims));
    let claims = new_claims(1, 2, &Vec::new(), NOW);
    assert!(!guard.authorize(&claims));
}

#[test]
fn the_guard_allows_a_token_that_holds_its_role() {
    let guard = AuthValidator::new("USER".to_string());
    assert_eq!(guard.validator_at(&config(), &token_with_roles(&["USER"]), NOW), Ok(()));
    assert_eq!(guard.validator_at(&config(), &token_with_roles(&["user"]), NOW), Ok(()));
    assert_eq!(guard.validator_at(&config(), &token_with_roles(&["ADMIN", "User"]), NOW), Ok(()));
    let sent = format!("Bearer {}", token_with_roles(&["USER"]));
    assert_eq!(guard.validator_at(&config(), &sent, NOW), Ok(()));
    let lower = AuthValidator::new("user".to_string());
    assert_eq!(lower.validator_at(&config(), &token_with_roles(&["USER"]), NOW), Ok(()));
}

#[test]
fn the_guard_denies_a_token_that_lacks_its_role() {
    let guard = AuthValidator::new("USER".to_string());
    assert_eq!(
        guard.validator_at(&config(), &token_with_roles(&["ADMIN"]), NOW),
        Err(UserError::Forbidden)
    );
    assert_eq!(guard.validator_at(&config(), &token_with_roles(&[]), NOW), Err(UserError::Forbidden));
    assert_eq!(
        guard.validator_at(&config(), &token_with_roles(&["USER "]), NOW),
        Err(UserError::Forbidden)
    );
}

#[test]
fn the_guard_denies_whatever_does_not_verify() {
    let guard = AuthValidator::new("USER".to_string());
    let token = token_with_roles(&["USER"]);
    assert_eq!(guard.validator_at(&config(), &token, NOW + 901), Err(UserError::Forbidden));
    assert_eq!(guard.validator_at(&config(), "garbage", NOW), Err(UserError::Forbidden));
    let other = AuthConfig::new("another".to_string(), 900, 7);
    assert_eq!(guard.validator_at(&other, &token, NOW), Err(UserError::Forbidden));
}

#[test]
fn the_guard_answers_by_the_clock() {
    let guard = AuthValidator::new("USER".to_string());
    let now = chrono::Utc::now().timestamp();
    let fresh = mint(&config(), 1, 2, &vec!["USER".to_string()], TokenKind::Access, now).unwrap();
    assert_eq!(guard.validator(&config(), &fresh), Ok(()));
    let stale =
        mint(&config(), 1, 2, &vec!["USER".to_string()], TokenKind::Access, now - 1000).unwrap();
    assert_eq!(guard.validator(&config(), &stale), Err(UserError::Forbidden));
    let admin = AuthValidator::new("ADMIN".to_string());
    assert_eq!(admin.validator(&config(), &fresh), Err(UserError::Forbidden));
}
