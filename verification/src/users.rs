//! The requests and responses of the three flows that open a session, the
//! errors they end in, and the flows themselves.

use crate::auth::{
    generate_tokens_at, get_claims_and_validate_at, in_range, tokens_outcome, verified_claims,
};
use crate::clock::{clock_reading, unix_now};
use crate::config::{AuthConfig, ConfigView};
use crate::db::{
    insert_user, insert_user_outcome, login_outcome, new_user_row, open_connection,
    open_connection_outcome, role_of, role_outcome, validate_connection, Store, StoreView,
};
use crate::ident::{fresh_id, marked_random, parse_id, uuid_parsed};
use crate::password::{bcrypt_verdict, hash_password};
use crate::payload::texts;
use vstd::prelude::*;

verus! {

/// How a flow, a store operation or the guard fails.
#[derive(Debug, Clone, Copy, PartialEq, Eq, Structural)]
pub enum UserError {
    /// A failure that the caller cannot mend; its cause is not reported.
    InternalError,
    /// An identity with the same email address exists already.
    EmailNotAvailable,
    /// No identity has the given id.
    UserNotFound,
    /// The token is genuine, but its session is live no longer.
    ExpiredToken,
    /// The store could not be reached.
    DatabaseError,
    /// No identity has the given email address and password.
    InvalidCredentials,
    /// The bearer may not do what was asked.
    Forbidden,
    /// The token is malformed, carries a wrong signature or has expired.
    InvalidToken,
}

impl UserError {
    /// The machine-readable code of each error.
    pub open spec fn code_text(self) -> Seq<char> {
        match self {
            UserError::InternalError => "IE-00500"@,
            UserError::EmailNotAvailable => "ENA-00400"@,
            UserError::UserNotFound => "UNF-00404"@,
            UserError::ExpiredToken => "ET-00403"@,
            UserError::DatabaseError => "DE-00500"@,
            UserError::InvalidCredentials => "IC-00400"@,
            UserError::Forbidden => "FB-00401"@,
            UserError::InvalidToken => "IT-00403"@,
        }
    }

    /// The HTTP status that each error is answered with.
    pub open spec fn status(self) -> u16 {
        match self {
            UserError::EmailNotAvailable | UserError::InvalidCredentials => 400,
            UserError::UserNotFound
            | UserError::ExpiredToken
            | UserError::Forbidden
            | UserError::InvalidToken => 403,
            UserError::InternalError | UserError::DatabaseError => 500,
        }
    }

    /// The sentence that each error is reported with. The two internal
    /// errors share one, which names no cause.
    pub open spec fn message_text(self) -> Seq<char> {
        match self {
            UserError::InternalError
            | UserError::DatabaseError => "An unspecified internal error ocurred"@,
            UserError::EmailNotAvailable => "The Email is not available"@,
            UserError::UserNotFound => "User not found"@,
            UserError::ExpiredToken => "Expired token."@,
            UserError::InvalidCredentials => "Invalid Credentials"@,
            UserError::Forbidden => "Forbidden"@,
            UserError::InvalidToken => "Invalid token."@,
        }
    }

    /// The machine-readable code of the error.
    pub fn get_error_code(&self) -> (r: String)
        ensures
            r@ == self.code_text(),
    {
        match self {
            UserError::InternalError => "IE-00500".to_string(),
            UserError::EmailNotAvailable => "ENA-00400".to_string(),
            UserError::UserNotFound => "UNF-00404".to_string(),
            UserError::ExpiredToken => "ET-00403".to_string(),
            UserError::DatabaseError => "DE-00500".to_string(),
            UserError::InvalidCredentials => "IC-00400".to_string(),
            UserError::Forbidden => "FB-00401".to_string(),
            UserError::InvalidToken => "IT-00403".to_string(),
        }
    }

    /// The HTTP status that the error is answered with.
    pub fn status_code(&self) -> (r: u16)
        ensures
            r == self.status(),
    {
        match self {
            UserError::EmailNotAvailable => 400,
            UserError::UserNotFound => 403,
            UserError::ExpiredToken => 403,
            UserError::Forbidden => 403,
            UserError::InvalidToken => 403,
            UserError::InvalidCredentials => 400,
            _ => 500,
        }
    }

    /// The sentence that the error is reported with.
    pub fn message(&self) -> (r: String)
        ensures
            r@ == self.message_text(),
    {
        match self {
            UserError::InternalError => "An unspecified internal error ocurred".to_string(),
            UserError::DatabaseError => "An unspecified internal error ocurred".to_string(),
            UserError::EmailNotAvailable => "The Email is not available".to_string(),
            UserError::UserNotFound => "User not found".to_string(),
            UserError::ExpiredToken => "Expired token.".to_string(),
            UserError::InvalidCredentials => "Invalid Credentials".to_string(),
            UserError::Forbidden => "Forbidden".to_string(),
            UserError::InvalidToken => "Invalid token.".to_string(),
        }
    }
}

/// What a client is told of an error.
#[derive(Debug, Clone, PartialEq, Eq)]
pub struct UserErrorResponse {
    pub message: String,
    pub status: u16,
    /// When the response was made, in seconds since the Unix epoch.
    pub timestamp: i64,
    pub internal_code: String,
}

impl UserErrorResponse {
    /// The response to `value`, made at the time `now`.
    pub fn at(value: &UserError, now: i64) -> (r: Self)
        ensures
            r.message@ == value.message_text(),
            r.status == value.status(),
            r.timestamp == now,
            r.internal_code@ == value.code_text(),
    {
        UserErrorResponse {
            message: value.message(),
            status: value.status_code(),
            timestamp: now,
            internal_code: value.get_error_code(),
        }
    }

    /// The response to `value`, stamped with the time that the clock shows.
    pub fn from(value: &UserError) -> (r: Self)
        ensures
            r.message@ == value.message_text(),
            r.status == value.status(),
            clock_reading(r.timestamp),
            r.internal_code@ == value.code_text(),
    {
        Self::at(value, unix_now())
    }
}

/// A request to register an identity.
#[derive(Debug, Clone, PartialEq, Eq)]
pub struct NewUser {
    pub email: String,
    pub password: String,
    pub nickname: String,
}

/// What each flow answers: the two tokens of the session it opened, and the
/// seconds until the access token expires.
#[derive(Debug, Clone, PartialEq, Eq)]
pub struct TokenResponse {
    pub access_token: String,
    pub refresh_token: String,
    pub expires_in: i64,
}

/// A request to log in.
#[derive(Debug, Clone, PartialEq, Eq)]
pub struct LoginRequest {
    pub email: String,
    pub password: String,
}

/// A request to exchange a refresh token for the tokens of a new session.
#[derive(Debug, Clone, PartialEq, Eq)]
pub struct RefreshAuthRequest {
    pub refresh_token: String,
}

/// What a `TokenResponse` holds.
pub struct TokensView {
    pub access_token: Seq<char>,
    pub refresh_token: Seq<char>,
    pub expires_in: i64,
}

impl View for TokenResponse {
    type V = TokensView;

    open spec fn view(&self) -> TokensView {
        TokensView {
            access_token: self.access_token@,
            refresh_token: self.refresh_token@,
            expires_in: self.expires_in,
        }
    }
}

/// What a result with a response in it holds.
pub open spec fn response_view(r: Result<TokenResponse, UserError>) -> Result<TokensView, UserError> {
    match r {
        Ok(response) => Ok(response@),
        Err(e) => Err(e),
    }
}

/// The response that carries minted tokens.
pub open spec fn response_of(tokens: Result<(Seq<char>, Seq<char>, i64), UserError>) -> Result<
    TokensView,
    UserError,
> {
    match tokens {
        Ok(t) => Ok(TokensView { access_token: t.0, refresh_token: t.1, expires_in: t.2 }),
        Err(e) => Err(e),
    }
}

/// The role of an identity that has just registered.
pub open spec fn default_roles() -> Seq<Seq<char>> {
    seq!["USER"@]
}

/// What opening a session and minting its tokens does. Where the session
/// cannot be opened the store is unchanged; where it is opened and minting
/// fails, the session stays open.
pub open spec fn session_outcome(
    s: StoreView,
    config: ConfigView,
    user: u128,
    roles: Seq<Seq<char>>,
    connection: u128,
    now: i64,
) -> (StoreView, Result<TokensView, UserError>) {
    let opened = open_connection_outcome(s, user, connection, now);
    match opened.1 {
        Ok(id) => (opened.0, response_of(tokens_outcome(config, user, id, roles, now))),
        Err(e) => (opened.0, Err(e)),
    }
}

/// What registration does, for the password hash, the two ids and the time
/// that it works with. An identity that was added stays, whatever happens
/// after.
pub open spec fn register_outcome(
    s: StoreView,
    config: ConfigView,
    new_user: NewUser,
    hashed_password: Seq<char>,
    user: u128,
    connection: u128,
    now: i64,
) -> (StoreView, Result<TokensView, UserError>) {
    let inserted = insert_user_outcome(s, new_user_row(new_user, hashed_password, user));
    match inserted.1 {
        Ok(id) => session_outcome(inserted.0, config, id, default_roles(), connection, now),
        Err(e) => (inserted.0, Err(e)),
    }
}

/// What a login does, for the session id and the time that it works with.
pub open spec fn login_flow_outcome(
    s: StoreView,
    config: ConfigView,
    email: Seq<char>,
    password: Seq<char>,
    connection: u128,
    now: i64,
) -> (StoreView, Result<TokensView, UserError>) {
    match login_outcome(s, email, password) {
        Ok(found) => session_outcome(
            s,
            config,
            found.0.id_user,
            seq![found.1.description],
            connection,
            now,
        ),
        Err(e) => (s, Err(e)),
    }
}

/// What a refresh does, for the session id and the time that it works
/// with: the token must verify, its two ids must be ids, its session must be
/// live, and the identity must have a role; then a new session supersedes
/// the one of the token.
pub open spec fn refresh_outcome(
    s: StoreView,
    config: ConfigView,
    token: Seq<char>,
    connection: u128,
    now: i64,
) -> (StoreView, Result<TokensView, UserError>) {
    match verified_claims(config, token, now) {
        Err(e) => (s, Err(e)),
        Ok(c) => match (uuid_parsed(c.user_id), uuid_parsed(c.connection_id)) {
            (Some(user), Some(session)) => if !s.is_live(user, session) {
                (s, Err(UserError::ExpiredToken))
            } else {
                match role_outcome(s, user) {
                    Ok(role) => session_outcome(
                        s,
                        config,
                        user,
                        seq![role.description],
                        connection,
                        now,
                    ),
                    Err(e) => (s, Err(e)),
                }
            },
            _ => (s, Err(UserError::InternalError)),
        },
    }
}

/// A session can be opened and its tokens minted: the identity is known,
/// the id of the session is new, and neither expiry lies beyond `i64`.
pub open spec fn session_opens(
    s: StoreView,
    config: ConfigView,
    user: u128,
    connection: u128,
    now: i64,
) -> bool {
    s.has_user(user) && !s.has_connection(connection) && in_range(config, now)
}

/// Registration succeeds: the email address and both ids are new, and
/// neither expiry lies beyond `i64`.
pub open spec fn registers(
    s: StoreView,
    config: ConfigView,
    new_user: NewUser,
    user: u128,
    connection: u128,
    now: i64,
) -> bool {
    !s.has_email(new_user.email@) && !s.has_user(user) && !s.has_connection(connection) && in_range(
        config,
        now,
    )
}

/// A login succeeds: the credentials are accepted and the identity has a
/// role, the id of the session is new, and neither expiry lies beyond `i64`.
pub open spec fn logs_in(
    s: StoreView,
    config: ConfigView,
    email: Seq<char>,
    password: Seq<char>,
    connection: u128,
    now: i64,
) -> bool {
    login_outcome(s, email, password) is Ok && !s.has_connection(connection) && in_range(config, now)
}

/// A refresh succeeds: the token verifies, its two ids are ids, its session
/// is a live session of its identity, the identity has a role, the id of the
/// new session is new, and neither expiry lies beyond `i64`.
pub open spec fn refreshes(
    s: StoreView,
    config: ConfigView,
    token: Seq<char>,
    connection: u128,
    now: i64,
) -> bool {
    &&& verified_claims(config, token, now) matches Ok(c)
    &&& uuid_parsed(c.user_id) matches Some(user)
    &&& uuid_parsed(c.connection_id) matches Some(session)
    &&& s.is_live(user, session)
    &&& role_outcome(s, user) is Ok
    &&& !s.has_connection(connection)
    &&& in_range(config, now)
}

/// Opens the session `connection_id` for the identity `user_id` at `now`
/// and mints its tokens.
pub fn open_session(
    store: &mut Store,
    config: &AuthConfig,
    user_id: u128,
    roles: Vec<String>,
    connection_id: u128,
    now: i64,
) -> (r: Result<TokenResponse, UserError>)
    ensures
        final(store)@.wf(),
        (final(store)@, response_view(r)) == session_outcome(
            old(store)@,
            config@,
            user_id,
            texts(roles@),
            connection_id,
            now,
        ),
        r is Ok <==> session_opens(old(store)@, config@, user_id, connection_id, now),
{
    match open_connection(store, user_id, connection_id, now) {
        Err(e) => Err(e),
        Ok(connection) => {
            match generate_tokens_at(config, user_id, connection, roles, now) {
                Err(e) => Err(e),
                Ok((access_token, refresh_token, expires_in)) => Ok(
                    TokenResponse { expires_in, access_token, refresh_token },
                ),
            }
        },
    }
}

/// Registers an identity under `user_id`, with the password hash
/// `hashed_password`, and opens its first session, `connection_id`, at `now`.
pub fn register_user_with(
    store: &mut Store,
    config: &AuthConfig,
    new_user: NewUser,
    hashed_password: String,
    user_id: u128,
    connection_id: u128,
    now: i64,
) -> (r: Result<TokenResponse, UserError>)
    ensures
        final(store)@.wf(),
        (final(store)@, response_view(r)) == register_outcome(
            old(store)@,
            config@,
            new_user,
            hashed_password@,
            user_id,
            connection_id,
            now,
        ),
        r is Ok <==> registers(old(store)@, config@, new_user, user_id, connection_id, now),
{
    proof {
        use_type_invariant(&*store);
        let before = store@;
        let row = new_user_row(new_user, hashed_password@, user_id);
        if !before.has_email(row.email) && !before.has_user(user_id) {
            before.lemma_with_user(row);
            assert(before.with_user(row).connections == before.connections);
        }
    }
    match insert_user(store, new_user, hashed_password, user_id) {
        Err(e) => Err(e),
        Ok(id) => {
            let mut roles: Vec<String> = Vec::new();
            roles.push("USER".to_string());
            assert(texts(roles@) =~= default_roles());
            open_session(store, config, id, roles, connection_id, now)
        },
    }
}

/// Registers an identity and opens its first session: the password is
/// hashed, the ids are drawn fresh, and the time is what the clock shows.
pub fn register_user(store: &mut Store, config: &AuthConfig, new_user: NewUser) -> (r: Result<
    TokenResponse,
    UserError,
>)
    ensures
        final(store)@.wf(),
        (r matches Err(e) && e == UserError::InternalError && final(store)@ == old(store)@) || exists|
            hashed_password: Seq<char>,
            user_id: u128,
            connection_id: u128,
            now: i64,
        |
            bcrypt_verdict(new_user.password@, hashed_password) == Some(true) && marked_random(
                user_id,
            ) && marked_random(connection_id) && clock_reading(now) && (r is Ok <==> registers(
                old(store)@,
                config@,
                new_user,
                user_id,
                connection_id,
                now,
            )) && (final(store)@, response_view(r)) == #[trigger] register_outcome(
                old(store)@,
                config@,
                new_user,
                hashed_password,
                user_id,
                connection_id,
                now,
            ),
{
    proof {
        use_type_invariant(&*store);
    }
    match hash_password(new_user.password.as_str()) {
        Err(_) => Err(UserError::InternalError),
        Ok(hashed_password) => {
            let user_id = fresh_id();
            let connection_id = fresh_id();
            let now = unix_now();
            let ghost before = store@;
            let ghost hashed = hashed_password@;
            let r = register_user_with(
                store,
                config,
                new_user,
                hashed_password,
                user_id,
                connection_id,
                now,
            );
            assert((store@, response_view(r)) == register_outcome(
                before,
                config@,
                new_user,
                hashed,
                user_id,
                connection_id,
                now,
            ));
            r
        },
    }
}

/// Logs an identity in and opens the session `connection_id` for it at
/// `now`, with the role that the identity has at that time.
pub fn login_with(
    store: &mut Store,
    config: &AuthConfig,
    login_request: LoginRequest,
    connection_id: u128,
    now: i64,
) -> (r: Result<TokenResponse, UserError>)
    ensures
        final(store)@.wf(),
        (final(store)@, response_view(r)) == login_flow_outcome(
            old(store)@,
            config@,
            login_request.email@,
            login_request.password@,
            connection_id,
            now,
        ),
        r is Ok <==> logs_in(
            old(store)@,
            config@,
            login_request.email@,
            login_request.password@,
            connection_id,
            now,
        ),
{
    proof {
        use_type_invariant(&*store);
        if store@.has_email(login_request.email@) {
            store@.lemma_found_by_email(login_request.email@);
        }
    }
    match crate::db::login(store, login_request.email, login_request.password) {
        Err(e) => Err(e),
        Ok((user, role)) => {
            let mut roles: Vec<String> = Vec::new();
            roles.push(role.description);
            assert(texts(roles@) =~= seq![role@.description]);
            open_session(store, config, user.id_user, roles, connection_id, now)
        },
    }
}

/// Logs an identity in and opens a session for it, under a fresh id and at
/// the time that the clock shows.
pub fn login(store: &mut Store, config: &AuthConfig, login_request: LoginRequest) -> (r: Result<
    TokenResponse,
    UserError,
>)
    ensures
        final(store)@.wf(),
        exists|connection_id: u128, now: i64|
            marked_random(connection_id) && clock_reading(now) && (r is Ok <==> logs_in(
                old(store)@,
                config@,
                login_request.email@,
                login_request.password@,
                connection_id,
                now,
            )) && (final(store)@, response_view(r)) == #[trigger] login_flow_outcome(
                old(store)@,
                config@,
                login_request.email@,
                login_request.password@,
                connection_id,
                now,
            ),
{
    let connection_id = fresh_id();
    let now = unix_now();
    let ghost before = store@;
    let ghost email = login_request.email@;
    let ghost password = login_request.password@;
    let r = login_with(store, config, login_request, connection_id, now);
    assert((store@, response_view(r)) == login_flow_outcome(
        before,
        config@,
        email,
        password,
        connection_id,
        now,
    ));
    r
}

/// Exchanges a refresh token for the tokens of the session `connection_id`,
/// opened at `now`. The session of the refresh token ends with it, so the
/// token cannot be used again.
pub fn refresh_auth_with(
    store: &mut Store,
    config: &AuthConfig,
    refresh_auth_request: RefreshAuthRequest,
    connection_id: u128,
    now: i64,
) -> (r: Result<TokenResponse, UserError>)
    ensures
        final(store)@.wf(),
        (final(store)@, response_view(r)) == refresh_outcome(
            old(store)@,
            config@,
            refresh_auth_request.refresh_token@,
            connection_id,
            now,
        ),
        r is Ok <==> refreshes(
            old(store)@,
            config@,
            refresh_auth_request.refresh_token@,
            connection_id,
            now,
        ),
{
    proof {
        use_type_invariant(&*store);
    }
    let claims = match get_claims_and_validate_at(
        config,
        refresh_auth_request.refresh_token.as_str(),
        now,
    ) {
        Err(e) => {
            return Err(e);
        },
        Ok(claims) => claims,
    };
    let user_id = match parse_id(claims.user_id.as_str()) {
        Err(_) => {
            return Err(UserError::InternalError);
        },
        Ok(id) => id,
    };
    let session_id = match parse_id(claims.connection_id.as_str()) {
        Err(_) => {
            return Err(UserError::InternalError);
        },
        Ok(id) => id,
    };
    match validate_connection(store, user_id, session_id) {
        Err(e) => {
            return Err(e);
        },
        Ok(_) => {},
    }
    let role = match role_of(store, user_id) {
        Err(e) => {
            return Err(e);
        },
        Ok(role) => role,
    };
    let mut roles: Vec<String> = Vec::new();
    roles.push(role.description);
    assert(texts(roles@) =~= seq![role@.description]);
    open_session(store, config, user_id, roles, connection_id, now)
}

/// Exchanges a refresh token for the tokens of a new session, opened under
/// a fresh id at the time that the clock shows.
pub fn refresh_auth(
    store: &mut Store,
    config: &AuthConfig,
    refresh_auth_request: RefreshAuthRequest,
) -> (r: Result<TokenResponse, UserError>)
    ensures
        final(store)@.wf(),
        exists|connection_id: u128, now: i64|
            marked_random(connection_id) && clock_reading(now) && (r is Ok <==> refreshes(
                old(store)@,
                config@,
                refresh_auth_request.refresh_token@,
                connection_id,
                now,
            )) && (final(store)@, response_view(r)) == #[trigger] refresh_outcome(
                old(store)@,
                config@,
                refresh_auth_request.refresh_token@,
                connection_id,
                now,
            ),
{
    let connection_id = fresh_id();
    let now = unix_now();
    let ghost before = store@;
    let ghost token = refresh_auth_request.refresh_token@;
    let r = refresh_auth_with(store, config, refresh_auth_request, connection_id, now);
    assert((store@, response_view(r)) == refresh_outcome(before, config@, token, connection_id, now));
    r
}

} // verus!
