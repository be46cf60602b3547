use rl_auth::db::{
    generate_new_connection, get_role_by_user_id, insert_user, is_live, login, login_with_verdict,
    open_connection, role_of, save_new_user, settle_sessions, validate_connection, Store,
    DEFAULT_ROLE_ID,
};
use rl_auth::model::{ConnectionModel, RLRole, RLUser};
use rl_auth::users::{NewUser, UserError};

fn new_user(email: &str) -> NewUser {
    NewUser { email: email.to_string(), password: "pw".to_string(), nickname: "nick".to_string() }
}

fn role(id: i32, description: &str) -> RLRole {
    RLRole { id_role: id, description: description.to_string() }
}

fn store_with_roles() -> Store {
    let mut store = Store::new();
    assert!(store.add_role(role(1, "USER")));
    assert!(store.add_role(role(2, "ADMIN")));
    store
}

fn store_with_user(id: u128, email: &str, hash: &str) -> Store {
    let mut store = store_with_roles();
    assert_eq!(insert_user(&mut store, new_user(email), hash.to_string(), id), Ok(id));
    store
}

fn live_of(store: &Store, user: u128) -> Vec<u128> {
    store
        .connections()
        .iter()
        .filter(|c| c.id_user == user && c.ended_at.is_none())
        .map(|c| c.id_connection)
        .collect()
}

#[test]
fn a_new_store_is_empty() {
    let store = Store::new();
    assert!(store.users().is_empty());
    assert!(store.roles().is_empty());
    assert!(store.connections().is_empty());
}

#[test]
fn a_role_is_added_once() {
    let mut store = Store::new();
    assert!(store.add_role(role(1, "USER")));
    assert!(!store.add_role(role(1, "OTHER")));
    assert!(store.add_role(role(2, "USER")));
    assert_eq!(store.roles(), &vec![role(1, "USER"), role(2, "USER")]);
}

#[test]
fn rows_are_copied_field_by_field() {
    let user = RLUser {
        id_user: 7,
        email: "a@x.com".to_string(),
        nickname: "nick".to_string(),
        password: "hash".to_string(),
        id_role: 1,
    };
    assert_eq!(user.duplicate(), user);
    assert_eq!(role(3, "GUEST").duplicate(), role(3, "GUEST"));
}

#[test]
fn an_identity_is_added_with_the_default_role() {
    let mut store = store_with_roles();
    assert_eq!(insert_user(&mut store, new_user("a@x.com"), "hash".to_string(), 7), Ok(7));
    assert_eq!(DEFAULT_ROLE_ID, 1);
    assert_eq!(
        store.users(),
        &vec![RLUser {
            id_user: 7,
            email: "a@x.com".to_string(),
            nickname: "nick".to_string(),
            password: "hash".to_string(),
            id_role: 1,
        }]
    );
}

#[test]
fn an_email_address_is_taken_once() {
    let mut store = store_with_user(7, "a@x.com", "hash");
    assert_eq!(
        insert_user(&mut store, new_user("a@x.com"), "other".to_string(), 8),
        Err(UserError::EmailNotAvailable)
    );
    assert_eq!(store.users().len(), 1);
    assert_eq!(insert_user(&mut store, new_user("A@x.com"), "other".to_string(), 8), Ok(8));
    assert_eq!(store.users().len(), 2);
}

#[test]
fn an_id_that_is_taken_is_an_internal_error() {
    let mut store = store_with_user(7, "a@x.com", "hash");
    assert_eq!(
        insert_user(&mut store, new_user("b@x.com"), "other".to_string(), 7),
        Err(UserError::InternalError)
    );
    assert_eq!(store.users().len(), 1);
    assert_eq!(
        insert_user(&mut store, new_user("a@x.com"), "other".to_string(), 7),
        Err(UserError::EmailNotAvailable)
    );
}

#[test]
fn registering_stores_a_hash_that_accepts_the_password() {
    let mut store = store_with_roles();
    let id = save_new_user(&mut store, new_user("a@x.com")).unwrap();
    assert_eq!(store.users().len(), 1);
    let row = &store.users()[0];
    assert_eq!(row.id_user, id);
    assert_eq!(row.email, "a@x.com");
    assert_eq!(row.nickname, "nick");
    assert_eq!(row.id_role, 1);
    assert_ne!(row.password, "pw");
    assert!(row.password.starts_with("$2"));
    assert!(bcrypt::verify("pw", &row.password).unwrap());
}

#[test]
fn registering_a_taken_address_changes_nothing() {
    let mut store = store_with_user(7, "a@x.com", "hash");
    assert_eq!(save_new_user(&mut store, new_user("a@x.com")), Err(UserError::EmailNotAvailable));
    assert_eq!(store.users().len(), 1);
    assert_eq!(store.users()[0].password, "hash");
}

#[test]
fn a_session_is_opened_live() {
    let mut store = store_with_user(7, "a@x.com", "hash");
    assert_eq!(open_connection(&mut store, 7, 100, 5000), Ok(100));
    assert_eq!(
        store.connections(),
        &vec![ConnectionModel {
            id_connection: 100,
            id_user: 7,
            connect_at: Some(5000),
            ended_at: None
        }]
    );
}

#[test]
fn opening_a_session_ends_the_live_sessions_of_the_identity() {
    let mut store = store_with_user(7, "a@x.com", "hash");
    assert_eq!(insert_user(&mut store, new_user("b@x.com"), "hash".to_string(), 8), Ok(8));
    assert_eq!(open_connection(&mut store, 7, 100, 5000), Ok(100));
    assert_eq!(open_connection(&mut store, 8, 200, 5001), Ok(200));
    assert_eq!(open_connection(&mut store, 7, 101, 5002), Ok(101));
    assert_eq!(
        store.connections(),
        &vec![
            ConnectionModel {
                id_connection: 100,
                id_user: 7,
                connect_at: Some(5000),
                ended_at: Some(5002)
            },
            ConnectionModel {
                id_connection: 200,
                id_user: 8,
                connect_at: Some(5001),
                ended_at: None
            },
            ConnectionModel {
                id_connection: 101,
                id_user: 7,
                connect_at: Some(5002),
                ended_at: None
            },
        ]
    );
    assert_eq!(open_connection(&mut store, 7, 102, 5003), Ok(102));
    assert_eq!(store.connections()[0].ended_at, Some(5002));
    assert_eq!(store.connections()[2].ended_at, Some(5003));
    assert_eq!(live_of(&store, 7), vec![102]);
    assert_eq!(live_of(&store, 8), vec![200]);
}

#[test]
fn after_many_opens_exactly_one_session_is_live() {
    let mut store = store_with_user(7, "a@x.com", "hash");
    assert_eq!(insert_user(&mut store, new_user("b@x.com"), "hash".to_string(), 8), Ok(8));
    let order = [5u128, 3, 9, 1, 7, 2, 8, 4, 6, 10];
    for (step, id) in order.iter().enumerate() {
        assert_eq!(open_connection(&mut store, 7, *id, step as i64), Ok(*id));
        assert_eq!(open_connection(&mut store, 8, 100 + *id, step as i64), Ok(100 + *id));
    }
    assert_eq!(live_of(&store, 7), vec![10]);
    assert_eq!(live_of(&store, 8), vec![110]);
    let ended = store.connections().iter().filter(|c| c.id_user == 7 && c.ended_at.is_some());
    assert_eq!(ended.count(), 9);
    assert_eq!(store.connections().len(), 20);
}

#[test]
fn no_session_is_opened_for_an_unknown_identity() {
    let mut store = store_with_user(7, "a@x.com", "hash");
    assert_eq!(open_connection(&mut store, 9, 100, 5000), Err(UserError::UserNotFound));
    assert!(store.connections().is_empty());
    assert_eq!(generate_new_connection(&mut store, 9), Err(UserError::UserNotFound));
    assert!(store.connections().is_empty());
}

#[test]
fn a_session_id_that_is_taken_is_an_internal_error() {
    let mut store = store_with_user(7, "a@x.com", "hash");
    assert_eq!(open_connection(&mut store, 7, 100, 5000), Ok(100));
    assert_eq!(open_connection(&mut store, 7, 100, 6000), Err(UserError::InternalError));
    assert_eq!(store.connections().len(), 1);
    assert_eq!(store.connections()[0].ended_at, None);
}

#[test]
fn sessions_opened_by_the_clock_get_fresh_ids() {
    let mut store = store_with_user(7, "a@x.com", "hash");
    let before = chrono::Utc::now().timestamp();
    let first = generate_new_connection(&mut store, 7).unwrap();
    let second = generate_new_connection(&mut store, 7).unwrap();
    let after = chrono::Utc::now().timestamp();
    assert_ne!(first, second);
    assert_eq!(store.connections().len(), 2);
    assert_eq!(store.connections()[0].id_connection, first);
    assert_eq!(store.connections()[1].id_connection, second);
    assert!(store.connections()[0].ended_at.is_some());
    assert_eq!(store.connections()[1].ended_at, None);
    let opened = store.connections()[1].connect_at.unwrap();
    assert!(before <= opened && opened <= after);
    for id in [first, second] {
        assert_eq!((id >> 76) & 0xf, 4);
        assert_eq!((id >> 62) & 0x3, 2);
        assert_eq!(uuid::Uuid::from_u128(id).get_version_num(), 4);
    }
}

#[test]
fn a_session_is_live_until_it_is_superseded() {
    let mut store = store_with_user(7, "a@x.com", "hash");
    assert_eq!(insert_user(&mut store, new_user("b@x.com"), "hash".to_string(), 8), Ok(8));
    assert_eq!(open_connection(&mut store, 7, 100, 5000), Ok(100));
    assert!(is_live(&store, 7, 100));
    assert_eq!(validate_connection(&store, 7, 100), Ok(()));
    assert!(!is_live(&store, 8, 100));
    assert_eq!(validate_connection(&store, 8, 100), Err(UserError::ExpiredToken));
    assert!(!is_live(&store, 7, 101));
    assert_eq!(validate_connection(&store, 7, 101), Err(UserError::ExpiredToken));
    assert_eq!(open_connection(&mut store, 7, 101, 5001), Ok(101));
    assert!(!is_live(&store, 7, 100));
    assert_eq!(validate_connection(&store, 7, 100), Err(UserError::ExpiredToken));
    assert!(is_live(&store, 7, 101));
}

#[test]
fn a_login_is_decided_by_the_verdict_on_the_password() {
    let store = store_with_user(7, "a@x.com", "hash");
    let email = "a@x.com".to_string();
    let (user, role) = login_with_verdict(&store, &email, Some(true)).unwrap();
    assert_eq!(user, store.users()[0]);
    assert_eq!(role, RLRole { id_role: 1, description: "USER".to_string() });
    assert_eq!(login_with_verdict(&store, &email, Some(false)), Err(UserError::InvalidCredentials));
    assert_eq!(login_with_verdict(&store, &email, None), Err(UserError::InvalidCredentials));
    let unknown = "b@x.com".to_string();
    assert_eq!(login_with_verdict(&store, &unknown, Some(true)), Err(UserError::InvalidCredentials));
}

#[test]
fn a_login_without_the_role_row_is_an_internal_error() {
    let mut store = Store::new();
    assert!(store.add_role(role(2, "ADMIN")));
    assert_eq!(insert_user(&mut store, new_user("a@x.com"), "hash".to_string(), 7), Ok(7));
    let email = "a@x.com".to_string();
    assert_eq!(login_with_verdict(&store, &email, Some(true)), Err(UserError::InternalError));
    assert_eq!(login_with_verdict(&store, &email, Some(false)), Err(UserError::InvalidCredentials));
    assert_eq!(role_of(&store, 7), Err(UserError::InternalError));
}

#[test]
fn a_login_needs_the_right_password() {
    let hash = bcrypt::hash("password", 4).unwrap();
    let store = store_with_user(7, "a@x.com", &hash);
    let (user, role) = login(&store, "a@x.com".to_string(), "password".to_string()).unwrap();
    assert_eq!(user.id_user, 7);
    assert_eq!(role.description, "USER");
    assert_eq!(
        login(&store, "a@x.com".to_string(), "Password".to_string()),
        Err(UserError::InvalidCredentials)
    );
    assert_eq!(
        login(&store, "b@x.com".to_string(), "password".to_string()),
        Err(UserError::InvalidCredentials)
    );
}

#[test]
fn a_stored_text_that_is_no_hash_refuses_every_password() {
    let store = store_with_user(7, "a@x.com", "password");
    assert_eq!(
        login(&store, "a@x.com".to_string(), "password".to_string()),
        Err(UserError::InvalidCredentials)
    );
}

#[test]
fn the_role_of_an_identity_is_found() {
    let store = store_with_user(7, "a@x.com", "hash");
    assert_eq!(role_of(&store, 7), Ok(role(1, "USER")));
    assert_eq!(role_of(&store, 8), Err(UserError::UserNotFound));
}

#[test]
fn the_role_is_found_by_the_text_of_the_id() {
    let store = store_with_user(7, "a@x.com", "hash");
    assert_eq!(
        get_role_by_user_id(&store, "00000000-0000-0000-0000-000000000007".to_string()),
        Ok(role(1, "USER"))
    );
    assert_eq!(
        get_role_by_user_id(&store, "00000000000000000000000000000007".to_string()),
        Ok(role(1, "USER"))
    );
    assert_eq!(
        get_role_by_user_id(&store, "00000000-0000-0000-0000-000000000008".to_string()),
        Err(UserError::UserNotFound)
    );
    assert_eq!(get_role_by_user_id(&store, "7".to_string()), Err(UserError::InternalError));
    assert_eq!(get_role_by_user_id(&store, "".to_string()), Err(UserError::InternalError));
}

fn user_row(id: u128, email: &str) -> RLUser {
    RLUser {
        id_user: id,
        email: email.to_string(),
        nickname: "nick".to_string(),
        password: "hash".to_string(),
        id_role: 1,
    }
}

fn session_row(id: u128, user: u128, ended_at: Option<i64>) -> ConnectionModel {
    ConnectionModel { id_connection: id, id_user: user, connect_at: Some(1), ended_at }
}

#[test]
fn rows_that_keep_the_invariant_make_a_store() {
    let users = vec![user_row(7, "a@x.com"), user_row(8, "b@x.com")];
    let roles = vec![role(1, "USER"), role(2, "ADMIN")];
    let sessions = vec![
        session_row(100, 7, Some(5)),
        session_row(101, 7, None),
        session_row(200, 8, None),
        session_row(102, 7, Some(9)),
    ];
    let store = Store::from_rows(users.clone(), roles.clone(), sessions.clone()).unwrap();
    assert_eq!(store.users(), &users);
    assert_eq!(store.roles(), &roles);
    assert_eq!(store.connections(), &sessions);
    assert!(is_live(&store, 7, 101));
    assert!(!is_live(&store, 7, 100));
    let empty = Store::from_rows(Vec::new(), Vec::new(), Vec::new()).unwrap();
    assert!(empty.users().is_empty());
}

#[test]
fn rows_that_break_the_invariant_make_no_store() {
    let two_ids = vec![user_row(7, "a@x.com"), user_row(7, "b@x.com")];
    assert!(Store::from_rows(two_ids, Vec::new(), Vec::new()).is_none());
    let two_addresses = vec![user_row(7, "a@x.com"), user_row(8, "a@x.com")];
    assert!(Store::from_rows(two_addresses, Vec::new(), Vec::new()).is_none());
    let two_roles = vec![role(1, "USER"), role(2, "ADMIN"), role(1, "GUEST")];
    assert!(Store::from_rows(Vec::new(), two_roles, Vec::new()).is_none());
    let two_sessions = vec![session_row(100, 7, Some(5)), session_row(100, 8, Some(6))];
    assert!(Store::from_rows(Vec::new(), Vec::new(), two_sessions).is_none());
    let two_live = vec![session_row(100, 7, None), session_row(200, 8, None), session_row(101, 7, None)];
    assert!(Store::from_rows(Vec::new(), Vec::new(), two_live).is_none());
}

#[test]
fn a_store_made_of_rows_works_like_any_other() {
    let mut store = Store::from_rows(
        vec![user_row(7, "a@x.com")],
        vec![role(1, "USER")],
        vec![session_row(100, 7, None)],
    )
    .unwrap();
    assert_eq!(open_connection(&mut store, 7, 101, 50), Ok(101));
    assert_eq!(store.connections()[0].ended_at, Some(50));
    assert_eq!(live_of(&store, 7), vec![101]);
    assert_eq!(role_of(&store, 7), Ok(role(1, "USER")));
}

#[test]
fn rows_that_keep_the_invariant_are_settled_as_they_are() {
    let rows = vec![
        session_row(100, 7, Some(5)),
        session_row(101, 7, None),
        session_row(200, 8, None),
        session_row(102, 7, Some(9)),
    ];
    assert_eq!(settle_sessions(&rows, 50), rows);
    assert_eq!(settle_sessions(&Vec::new(), 50), Vec::new());
}

#[test]
fn several_live_sessions_of_one_identity_all_end() {
    let rows = vec![
        session_row(100, 7, None),
        session_row(200, 8, None),
        session_row(101, 7, Some(5)),
        session_row(102, 7, None),
        session_row(103, 7, None),
        session_row(300, 9, Some(6)),
    ];
    assert!(Store::from_rows(Vec::new(), Vec::new(), rows.clone()).is_none());
    let settled = settle_sessions(&rows, 50);
    assert_eq!(
        settled,
        vec![
            session_row(100, 7, Some(50)),
            session_row(200, 8, None),
            session_row(101, 7, Some(5)),
            session_row(102, 7, Some(50)),
            session_row(103, 7, Some(50)),
            session_row(300, 9, Some(6)),
        ]
    );
    let mut store =
        Store::from_rows(vec![user_row(7, "a@x.com")], vec![role(1, "USER")], settled).unwrap();
    assert_eq!(open_connection(&mut store, 7, 104, 51), Ok(104));
    assert_eq!(live_of(&store, 7), vec![104]);
    assert_eq!(live_of(&store, 8), vec![200]);
}
