//! The claim codec and the guard: minting the two tokens of a session,
//! verifying a token, and authorizing its bearer by role.

use crate::clock::{clock_reading, unix_now};
use crate::config::{AuthConfig, ConfigView};
use crate::ident::{id_text, uuid_parsed, uuid_text};
use crate::jwt::{decode, encode, has_expiry, jwt_payload, jwt_signed, passes_claim_checks};
use crate::payload::{
    all_plain, get, new_object, object_fields, put, texts, ClaimValue, JsonField, JsonObject,
};
use crate::text::{eq_ignore_ascii_case, eq_ignoring_ascii_case, strip_prefix, without_prefix};
use crate::users::UserError;
use vstd::prelude::*;

verus! {

/// The claims that a token carries.
#[derive(Debug, Clone, PartialEq, Eq)]
pub struct TokenClaims {
    /// When the token expires, in seconds since the Unix epoch.
    pub exp: i64,
    pub iss: String,
    pub sub: String,
    /// The id of the identity, as text.
    pub user_id: String,
    /// The id of the session, as text.
    pub connection_id: String,
    /// The roles of the identity when the token was minted.
    pub roles: Vec<String>,
}

/// What a `TokenClaims` holds.
pub struct ClaimsView {
    pub exp: i64,
    pub iss: Seq<char>,
    pub sub: Seq<char>,
    pub user_id: Seq<char>,
    pub connection_id: Seq<char>,
    pub roles: Seq<Seq<char>>,
}

impl View for TokenClaims {
    type V = ClaimsView;

    open spec fn view(&self) -> ClaimsView {
        ClaimsView {
            exp: self.exp,
            iss: self.iss@,
            sub: self.sub@,
            user_id: self.user_id@,
            connection_id: self.connection_id@,
            roles: texts(self.roles@),
        }
    }
}

/// The two kinds of token that are minted for a session.
#[derive(Debug, Clone, Copy, PartialEq, Eq, Structural)]
pub enum TokenKind {
    /// Short-lived; authorizes requests.
    Access,
    /// Long-lived; exchanged once for the tokens of a new session.
    Refresh,
}

/// The seconds of a day.
pub const SECONDS_PER_DAY: i64 = 86400;

/// When a token of the given kind that is minted at `now` expires: `now`
/// plus the lifetime of its kind. `None` where that time is beyond `i64`.
pub open spec fn expiry(config: ConfigView, kind: TokenKind, now: i64) -> Option<i64> {
    let lifetime = match kind {
        TokenKind::Access => config.access_token_exp_sec as int,
        TokenKind::Refresh => config.refresh_token_exp_day * SECONDS_PER_DAY,
    };
    if i64::MIN <= lifetime <= i64::MAX && i64::MIN <= now + lifetime <= i64::MAX {
        Some((now + lifetime) as i64)
    } else {
        None
    }
}

/// The claims of a token for a session of an identity: the fixed subject
/// and issuer, the two ids as text, the roles and the expiry.
pub open spec fn minted_claims(user: u128, connection: u128, roles: Seq<Seq<char>>, exp: i64) -> ClaimsView {
    ClaimsView {
        exp,
        iss: "RLBackend"@,
        sub: "RLClient"@,
        user_id: uuid_text(user),
        connection_id: uuid_text(connection),
        roles,
    }
}

/// The payload that carries the claims: one field for each, under its name
/// on the wire.
pub open spec fn claims_fields(c: ClaimsView) -> Map<Seq<char>, JsonField> {
    Map::empty().insert("exp"@, JsonField::Int(c.exp)).insert("iss"@, JsonField::Text(c.iss)).insert(
        "sub"@,
        JsonField::Text(c.sub),
    ).insert("userId"@, JsonField::Text(c.user_id)).insert(
        "connectionId"@,
        JsonField::Text(c.connection_id),
    ).insert("roles"@, JsonField::TextList(c.roles))
}

/// The claims that a payload carries: every one of the six fields must be
/// there and of its kind; fields under other names are passed over.
pub open spec fn fields_claims(f: Map<Seq<char>, JsonField>) -> Option<ClaimsView> {
    if f.dom().contains("exp"@) && f.dom().contains("iss"@) && f.dom().contains("sub"@)
        && f.dom().contains("userId"@) && f.dom().contains("connectionId"@) && f.dom().contains(
        "roles"@,
    ) {
        match (f["exp"@], f["iss"@], f["sub"@], f["userId"@], f["connectionId"@], f["roles"@]) {
            (
                JsonField::Int(exp),
                JsonField::Text(iss),
                JsonField::Text(sub),
                JsonField::Text(user_id),
                JsonField::Text(connection_id),
                JsonField::TextList(roles),
            ) => Some(ClaimsView { exp, iss, sub, user_id, connection_id, roles }),
            _ => None,
        }
    } else {
        None
    }
}

/// The names of the fields of a payload are all different, and none of
/// them is one of the two other names that `jsonwebtoken` looks for.
pub proof fn lemma_field_names_differ()
    ensures
        "exp"@ != "iss"@,
        "exp"@ != "sub"@,
        "exp"@ != "userId"@,
        "exp"@ != "connectionId"@,
        "exp"@ != "roles"@,
        "iss"@ != "sub"@,
        "iss"@ != "userId"@,
        "iss"@ != "connectionId"@,
        "iss"@ != "roles"@,
        "sub"@ != "userId"@,
        "sub"@ != "connectionId"@,
        "sub"@ != "roles"@,
        "userId"@ != "connectionId"@,
        "userId"@ != "roles"@,
        "connectionId"@ != "roles"@,
        "aud"@ != "exp"@ && "aud"@ != "iss"@ && "aud"@ != "sub"@,
        "aud"@ != "userId"@ && "aud"@ != "connectionId"@ && "aud"@ != "roles"@,
        "nbf"@ != "exp"@ && "nbf"@ != "iss"@ && "nbf"@ != "sub"@,
        "nbf"@ != "userId"@ && "nbf"@ != "connectionId"@ && "nbf"@ != "roles"@,
{
    reveal_strlit("exp");
    reveal_strlit("iss");
    reveal_strlit("sub");
    reveal_strlit("userId");
    reveal_strlit("connectionId");
    reveal_strlit("roles");
    reveal_strlit("aud");
    reveal_strlit("nbf");
    assert("exp"@[0] == 'e' && "iss"@[0] == 'i' && "sub"@[0] == 's' && "aud"@[0] == 'a' && "nbf"@[0]
        == 'n');
    assert("exp"@.len() == 3 && "iss"@.len() == 3 && "sub"@.len() == 3 && "aud"@.len() == 3
        && "nbf"@.len() == 3);
    assert("userId"@.len() == 6 && "connectionId"@.len() == 12 && "roles"@.len() == 5);
}

/// A payload made of claims gives the same claims back, holds nothing that
/// this library does not read, and passes the checks of `jsonwebtoken`
/// exactly where its expiry is not before the epoch.
pub proof fn lemma_claims_fields(c: ClaimsView)
    ensures
        fields_claims(claims_fields(c)) == Some(c),
        all_plain(claims_fields(c)),
        passes_claim_checks(claims_fields(c)) <==> c.exp >= 0,
        has_expiry(claims_fields(c)) <==> c.exp >= 0,
{
    lemma_field_names_differ();
    let f = claims_fields(c);
    assert(f.dom().contains("exp"@) && f["exp"@] == JsonField::Int(c.exp));
    assert(f.dom().contains("iss"@) && f["iss"@] == JsonField::Text(c.iss));
    assert(f.dom().contains("sub"@) && f["sub"@] == JsonField::Text(c.sub));
    assert(f.dom().contains("userId"@) && f["userId"@] == JsonField::Text(c.user_id));
    assert(f.dom().contains("connectionId"@) && f["connectionId"@] == JsonField::Text(
        c.connection_id,
    ));
    assert(f.dom().contains("roles"@) && f["roles"@] == JsonField::TextList(c.roles));
    assert(!f.dom().contains("aud"@));
    assert(!f.dom().contains("nbf"@));
    assert forall|k: Seq<char>| f.dom().contains(k) implies !(#[trigger] f[k] is Other) by {
        assert(k == "exp"@ || k == "iss"@ || k == "sub"@ || k == "userId"@ || k == "connectionId"@
            || k == "roles"@);
    }
}

/// What a result with claims in it holds.
pub open spec fn claims_view(r: Result<TokenClaims, UserError>) -> Result<ClaimsView, UserError> {
    match r {
        Ok(claims) => Ok(claims@),
        Err(e) => Err(e),
    }
}

/// What claims that may be absent hold.
pub open spec fn claims_option_view(r: Option<TokenClaims>) -> Option<ClaimsView> {
    match r {
        Some(claims) => Some(claims@),
        None => None,
    }
}

/// When a token of the given kind that is minted at `now` expires.
pub fn expiry_at(config: &AuthConfig, kind: TokenKind, now: i64) -> (r: Option<i64>)
    ensures
        r == expiry(config@, kind, now),
{
    let lifetime = match kind {
        TokenKind::Access => Some(config.access_token_exp_sec),
        TokenKind::Refresh => config.refresh_token_exp_day.checked_mul(SECONDS_PER_DAY),
    };
    match lifetime {
        Some(seconds) => now.checked_add(seconds),
        None => None,
    }
}

/// A copy of a list of texts.
pub fn copy_texts(list: &Vec<String>) -> (r: Vec<String>)
    ensures
        r@ == list@,
{
    let mut r: Vec<String> = Vec::new();
    let mut i: usize = 0;
    while i < list.len()
        invariant
            i <= list@.len(),
            r@ == list@.subrange(0, i as int),
        decreases list@.len() - i,
    {
        r.push(list[i].clone());
        assert(r@ =~= list@.subrange(0, i + 1));
        i += 1;
    }
    assert(list@.subrange(0, list@.len() as int) =~= list@);
    r
}

/// The claims of a token for the session `connection_id` of the identity
/// `user_id`, with the given roles and expiry.
pub fn new_claims(user_id: u128, connection_id: u128, roles: &Vec<String>, exp: i64) -> (r:
    TokenClaims)
    ensures
        r@ == minted_claims(user_id, connection_id, texts(roles@), exp),
        ids_readable(user_id, connection_id),
{
    TokenClaims {
        exp,
        iss: "RLBackend".to_string(),
        sub: "RLClient".to_string(),
        user_id: id_text(user_id),
        connection_id: id_text(connection_id),
        roles: copy_texts(roles),
    }
}

/// The payload that carries the claims.
pub fn claims_payload(claims: &TokenClaims) -> (r: JsonObject)
    ensures
        object_fields(r) == claims_fields(claims@),
{
    let mut object = new_object();
    assert(object_fields(object) =~= Map::empty());
    put(&mut object, "exp", ClaimValue::Int(claims.exp));
    put(&mut object, "iss", ClaimValue::Text(claims.iss.clone()));
    put(&mut object, "sub", ClaimValue::Text(claims.sub.clone()));
    put(&mut object, "userId", ClaimValue::Text(claims.user_id.clone()));
    put(&mut object, "connectionId", ClaimValue::Text(claims.connection_id.clone()));
    put(&mut object, "roles", ClaimValue::TextList(copy_texts(&claims.roles)));
    object
}

/// The claims that a payload carries, `None` where one of the six fields
/// is missing or of another kind.
pub fn payload_claims(payload: &JsonObject) -> (r: Option<TokenClaims>)
    ensures
        claims_option_view(r) == fields_claims(object_fields(*payload)),
{
    let exp = match get(payload, "exp") {
        Some(ClaimValue::Int(exp)) => exp,
        _ => {
            return None;
        },
    };
    let iss = match get(payload, "iss") {
        Some(ClaimValue::Text(iss)) => iss,
        _ => {
            return None;
        },
    };
    let sub = match get(payload, "sub") {
        Some(ClaimValue::Text(sub)) => sub,
        _ => {
            return None;
        },
    };
    let user_id = match get(payload, "userId") {
        Some(ClaimValue::Text(user_id)) => user_id,
        _ => {
            return None;
        },
    };
    let connection_id = match get(payload, "connectionId") {
        Some(ClaimValue::Text(connection_id)) => connection_id,
        _ => {
            return None;
        },
    };
    let roles = match get(payload, "roles") {
        Some(ClaimValue::TextList(roles)) => roles,
        _ => {
            return None;
        },
    };
    Some(TokenClaims { exp, iss, sub, user_id, connection_id, roles })
}

/// The token carries the claims: it holds no space, and read back under the
/// secret it gives the payload of the claims. Claims that expire before the
/// epoch it carries in name only: such a token is refused when it is read.
pub open spec fn carries(token: Seq<char>, c: ClaimsView, secret: Seq<char>) -> bool {
    &&& !token.contains(' ')
    &&& c.exp >= 0 ==> jwt_payload(token, secret) == Some(claims_fields(c))
    &&& c.exp < 0 ==> jwt_payload(token, secret) is None
}

/// The token that signing the claims gives: the one that `jsonwebtoken`
/// makes of their payload, which carries them. `None` where signing fails.
pub open spec fn signed_claims(config: ConfigView, c: ClaimsView) -> Option<Seq<char>> {
    match jwt_signed(claims_fields(c), config.secret) {
        Some(token) => if carries(token, c, config.secret) {
            Some(token)
        } else {
            None
        },
        None => None,
    }
}

/// The two ids of a session are read back from the texts that write them.
pub open spec fn ids_readable(user: u128, connection: u128) -> bool {
    uuid_parsed(uuid_text(user)) == Some(user) && uuid_parsed(uuid_text(connection)) == Some(
        connection,
    )
}

/// The token of the given kind for a session, minted at `now`. An expiry
/// beyond `i64` and a failure to sign are internal errors, and so would be
/// ids that cannot be read back from their texts.
pub open spec fn minted_token(
    config: ConfigView,
    user: u128,
    connection: u128,
    roles: Seq<Seq<char>>,
    kind: TokenKind,
    now: i64,
) -> Result<Seq<char>, UserError> {
    match expiry(config, kind, now) {
        Some(exp) => match signed_claims(config, minted_claims(user, connection, roles, exp)) {
            Some(token) => if ids_readable(user, connection) {
                Ok(token)
            } else {
                Err(UserError::InternalError)
            },
            None => Err(UserError::InternalError),
        },
        None => Err(UserError::InternalError),
    }
}

/// Both tokens of a session can be minted at `now`: neither expiry lies
/// beyond `i64`.
pub open spec fn in_range(config: ConfigView, now: i64) -> bool {
    expiry(config, TokenKind::Access, now) is Some && expiry(config, TokenKind::Refresh, now) is Some
}

/// The access token, the refresh token and the seconds until the access
/// token expires, for a session whose tokens are minted at `now`.
pub open spec fn tokens_outcome(
    config: ConfigView,
    user: u128,
    connection: u128,
    roles: Seq<Seq<char>>,
    now: i64,
) -> Result<(Seq<char>, Seq<char>, i64), UserError> {
    match (
        minted_token(config, user, connection, roles, TokenKind::Access, now),
        minted_token(config, user, connection, roles, TokenKind::Refresh, now),
    ) {
        (Ok(access), Ok(refresh)) => Ok((access, refresh, config.access_token_exp_sec)),
        _ => Err(UserError::InternalError),
    }
}

/// The token that a bearer sent: the text without one leading `Bearer `.
pub open spec fn bearer_token(text: Seq<char>) -> Seq<char> {
    without_prefix(text, "Bearer "@)
}

/// The claims of a payload that was read from a genuine token, held against
/// the time `now`: refused where the payload does not carry the six claims,
/// and where the expiry is before `now`.
pub open spec fn accepted_claims(fields: Map<Seq<char>, JsonField>, now: i64) -> Result<
    ClaimsView,
    UserError,
> {
    match fields_claims(fields) {
        Some(c) => if c.exp < now {
            Err(UserError::InvalidToken)
        } else {
            Ok(c)
        },
        None => Err(UserError::InvalidToken),
    }
}

/// What verifying a bearer's text at `now` gives: its claims, or
/// `InvalidToken` where the token is malformed, carries a wrong signature,
/// lacks a claim or has expired.
pub open spec fn verified_claims(config: ConfigView, text: Seq<char>, now: i64) -> Result<
    ClaimsView,
    UserError,
> {
    match jwt_payload(bearer_token(text), config.secret) {
        Some(fields) => accepted_claims(fields, now),
        None => Err(UserError::InvalidToken),
    }
}

/// One of `roles` is `role`, up to the case of ASCII letters.
pub open spec fn holds_role(roles: Seq<Seq<char>>, role: Seq<char>) -> bool {
    exists|i: int| 0 <= i < roles.len() && eq_ignoring_ascii_case(#[trigger] roles[i], role)
}

/// What the guard answers to a bearer's text at `now`: it lets the bearer
/// pass where the token verifies and its claims hold the role, and answers
/// `Forbidden` to everything else.
pub open spec fn guard_outcome(config: ConfigView, role: Seq<char>, text: Seq<char>, now: i64) -> Result<
    (),
    UserError,
> {
    match verified_claims(config, text, now) {
        Ok(c) => if holds_role(c.roles, role) {
            Ok(())
        } else {
            Err(UserError::Forbidden)
        },
        Err(_) => Err(UserError::Forbidden),
    }
}

/// What a result with tokens in it holds.
pub open spec fn tokens_view(r: Result<(String, String, i64), UserError>) -> Result<
    (Seq<char>, Seq<char>, i64),
    UserError,
> {
    match r {
        Ok(t) => Ok((t.0@, t.1@, t.2)),
        Err(e) => Err(e),
    }
}

/// What a result with a text in it holds.
pub open spec fn text_view(r: Result<String, UserError>) -> Result<Seq<char>, UserError> {
    match r {
        Ok(t) => Ok(t@),
        Err(e) => Err(e),
    }
}

/// Signs the claims under the secret of the configuration. Signing does
/// not fail.
pub fn sign_claims(config: &AuthConfig, claims: &TokenClaims) -> (r: Result<String, UserError>)
    ensures
        r matches Ok(token) && signed_claims(config@, claims@) == Some(token@),
{
    let payload = claims_payload(claims);
    proof {
        lemma_claims_fields(claims@);
    }
    match encode(&payload, config.secret.as_str()) {
        Ok(token) => Ok(token),
        Err(_) => Err(UserError::InternalError),
    }
}

/// Mints the token of the given kind for the session `connection_id` of the
/// identity `user_id`, at the time `now`.
pub fn mint(
    config: &AuthConfig,
    user_id: u128,
    connection_id: u128,
    roles: &Vec<String>,
    kind: TokenKind,
    now: i64,
) -> (r: Result<String, UserError>)
    ensures
        text_view(r) == minted_token(config@, user_id, connection_id, texts(roles@), kind, now),
        r is Ok <==> expiry(config@, kind, now) is Some,
{
    match expiry_at(config, kind, now) {
        None => Err(UserError::InternalError),
        Some(exp) => {
            let claims = new_claims(user_id, connection_id, roles, exp);
            sign_claims(config, &claims)
        },
    }
}

/// Mints the access token and the refresh token of a session at the time
/// `now`, and gives with them the seconds until the access token expires.
pub fn generate_tokens_at(
    config: &AuthConfig,
    user_id: u128,
    connection_id: u128,
    roles: Vec<String>,
    now: i64,
) -> (r: Result<(String, String, i64), UserError>)
    ensures
        tokens_view(r) == tokens_outcome(config@, user_id, connection_id, texts(roles@), now),
        r is Ok <==> in_range(config@, now),
{
    let access_token = match mint(config, user_id, connection_id, &roles, TokenKind::Access, now) {
        Ok(token) => token,
        Err(_) => {
            return Err(UserError::InternalError);
        },
    };
    let refresh_token = match mint(config, user_id, connection_id, &roles, TokenKind::Refresh, now) {
        Ok(token) => token,
        Err(_) => {
            return Err(UserError::InternalError);
        },
    };
    Ok((access_token, refresh_token, config.access_token_exp_sec))
}

/// Mints the two tokens of a session at the time that the clock shows. It
/// succeeds unless an expiry lies beyond `i64`, which no lifetime of less
/// than a hundred thousand years brings about.
pub fn generate_tokens(config: &AuthConfig, user_id: u128, connection_id: u128, roles: Vec<String>) -> (r:
    Result<(String, String, i64), UserError>)
    ensures
        exists|now: i64|
            clock_reading(now) && (r is Ok <==> in_range(config@, now)) && tokens_view(r)
                == #[trigger] tokens_outcome(config@, user_id, connection_id, texts(roles@), now),
{
    let now = unix_now();
    let ghost names = texts(roles@);
    let r = generate_tokens_at(config, user_id, connection_id, roles, now);
    assert(tokens_view(r) == tokens_outcome(config@, user_id, connection_id, names, now));
    r
}

/// Holds the payload of a genuine token against the time `now`.
pub fn accept_payload(payload: &JsonObject, now: i64) -> (r: Result<TokenClaims, UserError>)
    ensures
        claims_view(r) == accepted_claims(object_fields(*payload), now),
{
    match payload_claims(payload) {
        None => Err(UserError::InvalidToken),
        Some(claims) => if claims.exp < now {
            Err(UserError::InvalidToken)
        } else {
            Ok(claims)
        },
    }
}

/// What a payload that may be absent holds.
pub open spec fn payload_view(r: Option<JsonObject>) -> Option<Map<Seq<char>, JsonField>> {
    match r {
        Some(payload) => Some(object_fields(payload)),
        None => None,
    }
}

/// The payload of a bearer's text, where the token in it is genuine: well
/// formed and signed with the secret of the configuration. The time is not
/// looked at.
pub fn genuine_payload(config: &AuthConfig, token: &str) -> (r: Option<JsonObject>)
    ensures
        payload_view(r) == jwt_payload(bearer_token(token@), config@.secret),
{
    let bare = strip_prefix(token, "Bearer ");
    match decode(bare, config.secret.as_str()) {
        Ok(payload) => Some(payload),
        Err(_) => None,
    }
}

/// Verifies a bearer's text at the time `now` and gives its claims. Whether
/// the session of the claims is still live is not looked at.
pub fn get_claims_and_validate_at(config: &AuthConfig, token: &str, now: i64) -> (r: Result<
    TokenClaims,
    UserError,
>)
    ensures
        claims_view(r) == verified_claims(config@, token@, now),
{
    match genuine_payload(config, token) {
        Some(payload) => accept_payload(&payload, now),
        None => Err(UserError::InvalidToken),
    }
}

/// Verifies a bearer's text at the time that the clock shows.
pub fn get_claims_and_validate(config: &AuthConfig, token: String) -> (r: Result<
    TokenClaims,
    UserError,
>)
    ensures
        exists|now: i64|
            clock_reading(now) && claims_view(r) == #[trigger] verified_claims(config@, token@, now),
{
    let now = unix_now();
    let r = get_claims_and_validate_at(config, token.as_str(), now);
    assert(claims_view(r) == verified_claims(config@, token@, now));
    r
}

/// The guard in front of what only the bearers of one role may do.
#[derive(Debug, Clone)]
pub struct AuthValidator {
    pub valid_role: String,
}

impl AuthValidator {
    /// The guard for the bearers of `role`.
    pub fn new(role: String) -> (r: Self)
        ensures
            r.valid_role == role,
    {
        Self { valid_role: role }
    }

    /// Whether the claims hold the role of this guard, up to the case of
    /// ASCII letters.
    pub fn authorize(&self, claims: &TokenClaims) -> (r: bool)
        ensures
            r == holds_role(claims@.roles, self.valid_role@),
    {
        let mut i: usize = 0;
        while i < claims.roles.len()
            invariant
                i <= claims.roles@.len(),
                forall|k: int|
                    0 <= k < i ==> !eq_ignoring_ascii_case(
                        #[trigger] texts(claims.roles@)[k],
                        self.valid_role@,
                    ),
            decreases claims.roles@.len() - i,
        {
            if eq_ignore_ascii_case(claims.roles[i].as_str(), self.valid_role.as_str()) {
                assert(texts(claims.roles@)[i as int] == claims.roles@[i as int]@);
                return true;
            }
            assert(texts(claims.roles@)[i as int] == claims.roles@[i as int]@);
            i += 1;
        }
        false
    }

    /// Answers a bearer's text at the time `now`.
    pub fn validator_at(&self, config: &AuthConfig, token: &str, now: i64) -> (r: Result<
        (),
        UserError,
    >)
        ensures
            r == guard_outcome(config@, self.valid_role@, token@, now),
    {
        match get_claims_and_validate_at(config, token, now) {
            Ok(claims) => if self.authorize(&claims) {
                Ok(())
            } else {
                Err(UserError::Forbidden)
            },
            Err(_) => Err(UserError::Forbidden),
        }
    }

    /// Answers a bearer's text at the time that the clock shows.
    pub fn validator(&self, config: &AuthConfig, token: &str) -> (r: Result<(), UserError>)
        ensures
            exists|now: i64|
                clock_reading(now) && r == #[trigger] guard_outcome(
                    config@,
                    self.valid_role@,
                    token@,
                    now,
                ),
    {
        let now = unix_now();
        let r = self.validator_at(config, token, now);
        assert(r == guard_outcome(config@, self.valid_role@, token@, now));
        r
    }
}

} // verus!
