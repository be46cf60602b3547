use rl_auth::auth::get_claims_and_validate_at;
use rl_auth::config::AuthConfig;
use rl_auth::db::{insert_user, Store};
use rl_auth::model::RLRole;
use rl_auth::users::{
    login, login_with, open_session, refresh_auth, refresh_auth_with, register_user,
    register_user_with, LoginRequest, NewUser, RefreshAuthRequest, TokenResponse, UserError,
};

const NOW: i64 = 1_700_000_000;
const USER: u128 = 0x11;
const USER_TEXT: &str = "00000000-0000-0000-0000-000000000011";

fn config() -> AuthConfig {
    AuthConfig::new("top-secret".to_string(), 900, 7)
}

fn new_user(email: &str) -> NewUser {
    NewUser { email: email.to_string(), password: "pw".to_string(), nickname: "nick".to_string() }
}

fn store_with_roles() -> Store {
    let mut store = Store::new();
    assert!(store.add_role(RLRole { id_role: 1, description: "USER".to_string() }));
    store
}

fn registered(store: &mut Store, connection: u128, now: i64) -> TokenResponse {
    register_user_with(store, &config(), new_user("a@x.com"), "hash".to_string(), USER, connection, now)
        .unwrap()
}

fn refresh(token: &str) -> RefreshAuthRequest {
    RefreshAuthRequest { refresh_token: token.to_string() }
}

fn credentials(email: &str, password: &str) -> LoginRequest {
    LoginRequest { email: email.to_string(), password: password.to_string() }
}

fn live_of(store: &Store, user: u128) -> Vec<u128> {
    store
        .connections()
        .iter()
        .filter(|c| c.id_user == user && c.ended_at.is_none())
        .map(|c| c.id_connection)
        .collect()
}

#[test]
fn registration_adds_the_identity_and_opens_its_session() {
    let mut store = store_with_roles();
    let response = registered(&mut store, 0x21, NOW);
    assert_eq!(response.expires_in, 900);
    assert_eq!(store.users().len(), 1);
    assert_eq!(store.users()[0].id_user, USER);
    assert_eq!(live_of(&store, USER), vec![0x21]);
    for token in [&response.access_token, &response.refresh_token] {
        let claims = get_claims_and_validate_at(&config(), token, NOW).unwrap();
        assert_eq!(claims.user_id, USER_TEXT);
        assert_eq!(claims.connection_id, "00000000-0000-0000-0000-000000000021");
        assert_eq!(claims.roles, vec!["USER".to_string()]);
        assert_eq!(claims.iss, "RLBackend");
        assert_eq!(claims.sub, "RLClient");
    }
    let access = get_claims_and_validate_at(&config(), &response.access_token, NOW).unwrap();
    assert_eq!(access.exp, NOW + 900);
    let refresh = get_claims_and_validate_at(&config(), &response.refresh_token, NOW).unwrap();
    assert_eq!(refresh.exp, NOW + 7 * 86400);
}

#[test]
fn registration_of_a_taken_address_is_refused() {
    let mut store = store_with_roles();
    registered(&mut store, 0x21, NOW);
    assert_eq!(
        register_user_with(
            &mut store,
            &config(),
            new_user("a@x.com"),
            "hash".to_string(),
            0x12,
            0x22,
            NOW
        ),
        Err(UserError::EmailNotAvailable)
    );
    assert_eq!(store.users().len(), 1);
    assert_eq!(store.connections().len(), 1);
}

#[test]
fn an_identity_stays_where_its_session_cannot_be_opened() {
    let mut store = store_with_roles();
    registered(&mut store, 0x21, NOW);
    assert_eq!(
        register_user_with(
            &mut store,
            &config(),
            new_user("b@x.com"),
            "hash".to_string(),
            0x12,
            0x21,
            NOW
        ),
        Err(UserError::InternalError)
    );
    assert_eq!(store.users().len(), 2);
    assert_eq!(store.connections().len(), 1);
}

#[test]
fn a_session_stays_open_where_its_tokens_cannot_be_minted() {
    let mut store = store_with_roles();
    registered(&mut store, 0x21, NOW);
    let r = open_session(&mut store, &config(), USER, vec!["USER".to_string()], 0x22, i64::MAX);
    assert_eq!(r, Err(UserError::InternalError));
    assert_eq!(live_of(&store, USER), vec![0x22]);
    assert_eq!(store.connections()[0].ended_at, Some(i64::MAX));
}

#[test]
fn a_refresh_opens_a_new_session_with_new_tokens() {
    let mut store = store_with_roles();
    let first = registered(&mut store, 0x21, NOW);
    let second =
        refresh_auth_with(&mut store, &config(), refresh(&first.refresh_token), 0x22, NOW + 10)
            .unwrap();
    assert_eq!(second.expires_in, 900);
    assert_ne!(second.access_token, first.access_token);
    assert_ne!(second.refresh_token, first.refresh_token);
    assert_eq!(live_of(&store, USER), vec![0x22]);
    assert_eq!(store.connections()[0].ended_at, Some(NOW + 10));
    let claims = get_claims_and_validate_at(&config(), &second.refresh_token, NOW + 10).unwrap();
    assert_eq!(claims.user_id, USER_TEXT);
    assert_eq!(claims.connection_id, "00000000-0000-0000-0000-000000000022");
    assert_eq!(claims.roles, vec!["USER".to_string()]);
    assert_eq!(claims.exp, NOW + 10 + 7 * 86400);
}

#[test]
fn a_refresh_token_is_good_for_one_exchange() {
    let mut store = store_with_roles();
    let first = registered(&mut store, 0x21, NOW);
    let request = refresh(&first.refresh_token);
    assert!(refresh_auth_with(&mut store, &config(), request.clone(), 0x22, NOW + 10).is_ok());
    assert_eq!(
        refresh_auth_with(&mut store, &config(), request, 0x23, NOW + 20),
        Err(UserError::ExpiredToken)
    );
    assert_eq!(live_of(&store, USER), vec![0x22]);
    assert_eq!(store.connections().len(), 2);
}

#[test]
fn an_access_token_refreshes_like_a_refresh_token_while_it_lasts() {
    let mut store = store_with_roles();
    let first = registered(&mut store, 0x21, NOW);
    assert_eq!(
        refresh_auth_with(&mut store, &config(), refresh(&first.access_token), 0x22, NOW + 901),
        Err(UserError::InvalidToken)
    );
    assert!(
        refresh_auth_with(&mut store, &config(), refresh(&first.access_token), 0x22, NOW + 900)
            .is_ok()
    );
}

#[test]
fn a_refresh_with_an_expired_or_forged_token_is_invalid() {
    let mut store = store_with_roles();
    let first = registered(&mut store, 0x21, NOW);
    assert_eq!(
        refresh_auth_with(
            &mut store,
            &config(),
            refresh(&first.refresh_token),
            0x22,
            NOW + 7 * 86400 + 1
        ),
        Err(UserError::InvalidToken)
    );
    assert_eq!(
        refresh_auth_with(&mut store, &config(), refresh("a.b.c"), 0x22, NOW),
        Err(UserError::InvalidToken)
    );
    let other = AuthConfig::new("another".to_string(), 900, 7);
    assert_eq!(
        refresh_auth_with(&mut store, &other, refresh(&first.refresh_token), 0x22, NOW),
        Err(UserError::InvalidToken)
    );
    assert_eq!(live_of(&store, USER), vec![0x21]);
}

#[test]
fn a_refresh_with_a_bearer_prefix_is_accepted() {
    let mut store = store_with_roles();
    let first = registered(&mut store, 0x21, NOW);
    let sent = format!("Bearer {}", first.refresh_token);
    assert!(refresh_auth_with(&mut store, &config(), refresh(&sent), 0x22, NOW).is_ok());
}

#[test]
fn a_refresh_whose_ids_are_no_ids_is_an_internal_error() {
    let mut store = store_with_roles();
    registered(&mut store, 0x21, NOW);
    let mut payload = serde_json::Map::new();
    payload.insert("exp".to_string(), serde_json::Value::from(NOW + 900));
    payload.insert("iss".to_string(), serde_json::Value::from("RLBackend"));
    payload.insert("sub".to_string(), serde_json::Value::from("RLClient"));
    payload.insert("userId".to_string(), serde_json::Value::from(USER_TEXT));
    payload.insert("connectionId".to_string(), serde_json::Value::from("not-an-id"));
    payload.insert("roles".to_string(), serde_json::Value::from(vec!["USER"]));
    let token = jsonwebtoken::encode(
        &jsonwebtoken::Header::new(jsonwebtoken::Algorithm::HS256),
        &payload,
        &jsonwebtoken::EncodingKey::from_secret("top-secret".as_bytes()),
    )
    .unwrap();
    assert_eq!(
        refresh_auth_with(&mut store, &config(), refresh(&token), 0x22, NOW),
        Err(UserError::InternalError)
    );
}

#[test]
fn a_refresh_for_a_session_of_another_identity_is_expired() {
    let mut store = store_with_roles();
    let first = registered(&mut store, 0x21, NOW);
    assert_eq!(insert_user(&mut store, new_user("b@x.com"), "hash".to_string(), 0x12), Ok(0x12));
    let other = AuthConfig::new("top-secret".to_string(), 900, 7);
    let forged = rl_auth::auth::mint(
        &other,
        0x12,
        0x21,
        &vec!["USER".to_string()],
        rl_auth::auth::TokenKind::Refresh,
        NOW,
    )
    .unwrap();
    assert_ne!(forged, first.refresh_token);
    assert_eq!(
        refresh_auth_with(&mut store, &config(), refresh(&forged), 0x22, NOW),
        Err(UserError::ExpiredToken)
    );
}

#[test]
fn a_login_opens_a_session_with_the_role_of_the_identity() {
    let hash = bcrypt::hash("password", 4).unwrap();
    let mut store = store_with_roles();
    assert_eq!(insert_user(&mut store, new_user("a@x.com"), hash, USER), Ok(USER));
    let response =
        login_with(&mut store, &config(), credentials("a@x.com", "password"), 0x21, NOW).unwrap();
    assert_eq!(response.expires_in, 900);
    assert_eq!(live_of(&store, USER), vec![0x21]);
    let claims = get_claims_and_validate_at(&config(), &response.access_token, NOW).unwrap();
    assert_eq!(claims.user_id, USER_TEXT);
    assert_eq!(claims.roles, vec!["USER".to_string()]);
}

#[test]
fn a_login_with_wrong_credentials_opens_nothing() {
    let hash = bcrypt::hash("password", 4).unwrap();
    let mut store = store_with_roles();
    assert_eq!(insert_user(&mut store, new_user("a@x.com"), hash, USER), Ok(USER));
    assert_eq!(
        login_with(&mut store, &config(), credentials("a@x.com", "wrong"), 0x21, NOW),
        Err(UserError::InvalidCredentials)
    );
    assert_eq!(
        login_with(&mut store, &config(), credentials("nobody@x.com", "password"), 0x21, NOW),
        Err(UserError::InvalidCredentials)
    );
    assert!(store.connections().is_empty());
}

#[test]
fn a_second_login_ends_the_session_of_the_first() {
    let hash = bcrypt::hash("password", 4).unwrap();
    let mut store = store_with_roles();
    assert_eq!(insert_user(&mut store, new_user("a@x.com"), hash, USER), Ok(USER));
    let first =
        login_with(&mut store, &config(), credentials("a@x.com", "password"), 0x21, NOW).unwrap();
    let second =
        login_with(&mut store, &config(), credentials("a@x.com", "password"), 0x22, NOW + 5)
            .unwrap();
    assert_eq!(
        refresh_auth_with(&mut store, &config(), refresh(&first.refresh_token), 0x23, NOW + 6),
        Err(UserError::ExpiredToken)
    );
    assert_eq!(live_of(&store, USER), vec![0x22]);
    assert!(
        refresh_auth_with(&mut store, &config(), refresh(&second.refresh_token), 0x23, NOW + 6)
            .is_ok()
    );
    assert_eq!(live_of(&store, USER), vec![0x23]);
}

#[test]
fn register_refresh_and_reuse() {
    let mut store = store_with_roles();
    let user = NewUser {
        email: "a@x.com".to_string(),
        password: "pw".to_string(),
        nickname: "nick".to_string(),
    };
    let first = register_user(&mut store, &config(), user).unwrap();
    let now = chrono::Utc::now().timestamp();
    let claims = get_claims_and_validate_at(&config(), &first.access_token, now).unwrap();
    assert_eq!(claims.roles, vec!["USER".to_string()]);
    assert_eq!(first.expires_in, 900);

    let second = refresh_auth(&mut store, &config(), refresh(&first.refresh_token)).unwrap();
    assert_ne!(second.refresh_token, first.refresh_token);
    assert_ne!(second.access_token, first.access_token);

    assert_eq!(
        refresh_auth(&mut store, &config(), refresh(&first.refresh_token)),
        Err(UserError::ExpiredToken)
    );
    let id = store.users()[0].id_user;
    assert_eq!(live_of(&store, id).len(), 1);
    assert_eq!(store.connections().len(), 2);
}

#[test]
fn login_by_the_clock_refuses_a_wrong_password() {
    let mut store = store_with_roles();
    register_user(&mut store, &config(), new_user("a@x.com")).unwrap();
    assert_eq!(
        login(&mut store, &config(), credentials("a@x.com", "not pw")),
        Err(UserError::InvalidCredentials)
    );
    assert_eq!(store.connections().len(), 1);
}

#[test]
fn login_by_the_clock_accepts_the_password_that_was_registered() {
    let mut store = store_with_roles();
    register_user(&mut store, &config(), new_user("a@x.com")).unwrap();
    let response = login(&mut store, &config(), credentials("a@x.com", "pw")).unwrap();
    let now = chrono::Utc::now().timestamp();
    let claims = get_claims_and_validate_at(&config(), &response.refresh_token, now).unwrap();
    assert_eq!(claims.roles, vec!["USER".to_string()]);
    let id = store.users()[0].id_user;
    assert_eq!(live_of(&store, id).len(), 1);
    assert_eq!(store.connections().len(), 2);
}
