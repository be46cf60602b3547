//! What holds of the library as a whole: the laws that relate minting to
//! verifying, and the flows to the sessions that they leave live.

use crate::auth::{
    bearer_token, carries, expiry, guard_outcome, holds_role, ids_readable, lemma_claims_fields,
    minted_claims, minted_token, signed_claims, tokens_outcome, verified_claims, ClaimsView,
    TokenKind,
};
use crate::clock::clock_reading;
use crate::config::ConfigView;
use crate::db::{login_outcome, open_connection_outcome, role_outcome, StoreView};
use crate::ident::uuid_parsed;
use crate::text::starts_with;
use crate::users::{login_flow_outcome, refresh_outcome, session_outcome, TokensView, UserError};
use vstd::prelude::*;

verus! {

/// A text without a space is what a bearer sent, as it stands.
pub proof fn lemma_bearer_token_kept(token: Seq<char>)
    requires
        !token.contains(' '),
    ensures
        bearer_token(token) == token,
        bearer_token("Bearer "@ + token) == token,
{
    reveal_strlit("Bearer ");
    let prefix = "Bearer "@;
    assert(prefix.len() == 7 && prefix[6] == ' ');
    if starts_with(token, prefix) {
        assert(token.subrange(0, 7)[6] == token[6]);
        assert(token.contains(token[6]));
    }
    let sent = prefix + token;
    assert(sent.subrange(0, 7) =~= prefix);
    assert(sent.subrange(7, sent.len() as int) =~= token);
}

/// A call that opens a session: for which identity, under which id, and
/// at what time.
pub struct Opening {
    pub user: u128,
    pub connection: u128,
    pub now: i64,
}

/// The store after the calls have taken effect, one after another.
pub open spec fn opened_in_turn(s: StoreView, calls: Seq<Opening>) -> StoreView
    decreases calls.len(),
{
    if calls.len() == 0 {
        s
    } else {
        open_connection_outcome(
            opened_in_turn(s, calls.drop_last()),
            calls.last().user,
            calls.last().connection,
            calls.last().now,
        ).0
    }
}

/// Every call is for an identity that the store holds and brings an id that
/// neither the store nor another of the calls holds, so that none of them
/// is refused.
pub open spec fn all_open(s: StoreView, calls: Seq<Opening>) -> bool {
    &&& forall|k: int|
        0 <= k < calls.len() ==> s.has_user((#[trigger] calls[k]).user) && !s.has_connection(
            calls[k].connection,
        )
    &&& forall|j: int, k: int|
        0 <= j < k < calls.len() ==> calls[j].connection != calls[k].connection
}

/// No call after the one at `k` is for the same identity.
pub open spec fn last_of_its_identity(calls: Seq<Opening>, k: int) -> bool {
    forall|j: int| k < j < calls.len() ==> (#[trigger] calls[j]).user != calls[k].user
}

/// One of the calls brings the id `c`.
pub open spec fn brought(calls: Seq<Opening>, c: u128) -> bool {
    exists|k: int| 0 <= k < calls.len() && (#[trigger] calls[k]).connection == c
}

proof fn lemma_opened_in_turn(s: StoreView, calls: Seq<Opening>)
    requires
        s.wf(),
        all_open(s, calls),
    ensures
        opened_in_turn(s, calls).wf(),
        opened_in_turn(s, calls).users == s.users,
        forall|c: u128|
            opened_in_turn(s, calls).has_connection(c) <==> s.has_connection(c) || brought(
                calls,
                c,
            ),
        forall|k: int|
            0 <= k < calls.len() && last_of_its_identity(calls, k) ==> opened_in_turn(
                s,
                calls,
            ).live_sessions((#[trigger] calls[k]).user) == set![calls[k].connection],
        forall|k: int|
            0 <= k < calls.len() && !last_of_its_identity(calls, k) ==> opened_in_turn(
                s,
                calls,
            ).is_ended((#[trigger] calls[k]).user, calls[k].connection),
    decreases calls.len(),
{
    let t = opened_in_turn(s, calls);
    if calls.len() == 0 {
        assert forall|c: u128| t.has_connection(c) <==> s.has_connection(c) || brought(calls, c) by {}
    } else {
        let n = calls.len() as int;
        let earlier = calls.drop_last();
        let prev = opened_in_turn(s, earlier);
        let call = calls.last();
        assert forall|k: int| 0 <= k < earlier.len() implies s.has_user(
            (#[trigger] earlier[k]).user,
        ) && !s.has_connection(earlier[k].connection) by {
            assert(earlier[k] == calls[k]);
        }
        assert forall|j: int, k: int| 0 <= j < k < earlier.len() implies earlier[j].connection
            != earlier[k].connection by {
            assert(earlier[j] == calls[j] && earlier[k] == calls[k]);
        }
        lemma_opened_in_turn(s, earlier);
        assert(call == calls[n - 1]);
        assert(!brought(earlier, call.connection)) by {
            if brought(earlier, call.connection) {
                let k = choose|k: int|
                    0 <= k < earlier.len() && (#[trigger] earlier[k]).connection == call.connection;
                assert(earlier[k] == calls[k]);
            }
        }
        assert(!prev.has_connection(call.connection));
        assert(prev.has_user(call.user)) by {
            let i = choose|i: int|
                0 <= i < s.users.len() && #[trigger] s.users[i].id_user == call.user;
            assert(prev.users[i].id_user == call.user);
        }
        prev.lemma_with_connection(call.user, call.connection, call.now);
        assert(t == prev.with_connection(call.user, call.connection, call.now));
        assert forall|c: u128| t.has_connection(c) <==> s.has_connection(c) || brought(calls, c) by {
            if c == call.connection {
                assert(calls[n - 1].connection == c);
            } else {
                if brought(earlier, c) {
                    let k = choose|k: int|
                        0 <= k < earlier.len() && (#[trigger] earlier[k]).connection == c;
                    assert(calls[k].connection == c);
                }
                if brought(calls, c) {
                    let k = choose|k: int|
                        0 <= k < calls.len() && (#[trigger] calls[k]).connection == c;
                    assert(earlier[k].connection == c);
                }
            }
        }
        assert forall|k: int| 0 <= k < calls.len() implies (last_of_its_identity(calls, k)
            ==> t.live_sessions((#[trigger] calls[k]).user) == set![calls[k].connection]) && (
        !last_of_its_identity(calls, k) ==> t.is_ended(calls[k].user, calls[k].connection)) by {
            if k < n - 1 {
                assert(earlier[k] == calls[k]);
                if last_of_its_identity(calls, k) {
                    assert(calls[n - 1].user != calls[k].user);
                    assert forall|j: int| k < j < earlier.len() implies (#[trigger] earlier[j]).user
                        != earlier[k].user by {
                        assert(earlier[j] == calls[j]);
                    }
                    assert(last_of_its_identity(earlier, k));
                    assert(t.live_sessions(calls[k].user) =~= prev.live_sessions(calls[k].user));
                } else if last_of_its_identity(earlier, k) {
                    let j = choose|j: int|
                        k < j < calls.len() && (#[trigger] calls[j]).user == calls[k].user;
                    if j < n - 1 {
                        assert(earlier[j] == calls[j]);
                    }
                    assert(call.user == calls[k].user);
                    assert(prev.live_sessions(calls[k].user).contains(calls[k].connection));
                    assert(prev.is_live(calls[k].user, calls[k].connection));
                } else {
                    assert(prev.is_ended(earlier[k].user, earlier[k].connection));
                }
            }
        }
    }
}

/// The call at `m` is the last for the identity of the call at `k`, which
/// does not come after it.
pub open spec fn last_from(calls: Seq<Opening>, k: int, m: int) -> bool {
    k <= m < calls.len() && calls[m].user == calls[k].user && last_of_its_identity(calls, m)
}

/// Among the calls for one identity, one is the last.
proof fn lemma_some_call_is_last(calls: Seq<Opening>, k: int)
    requires
        0 <= k < calls.len(),
    ensures
        exists|m: int| last_from(calls, k, m),
    decreases calls.len() - k,
{
    if last_of_its_identity(calls, k) {
        assert(last_from(calls, k, k));
    } else {
        let j = choose|j: int| k < j < calls.len() && (#[trigger] calls[j]).user == calls[k].user;
        lemma_some_call_is_last(calls, j);
        let m = choose|m: int| last_from(calls, j, m);
        assert(last_from(calls, k, m));
    }
}

/// However many sessions are opened, for whichever identities and in
/// whatever order the calls take effect: of the sessions opened for one
/// identity exactly one is live in the end, the one of the call that came
/// last for that identity, and every other has ended.
pub proof fn law_one_live_session(s: StoreView, calls: Seq<Opening>, k: int)
    requires
        s.wf(),
        all_open(s, calls),
        0 <= k < calls.len(),
    ensures
        opened_in_turn(s, calls).wf(),
        last_of_its_identity(calls, k) ==> opened_in_turn(s, calls).live_sessions(calls[k].user)
            == set![calls[k].connection],
        !last_of_its_identity(calls, k) ==> opened_in_turn(s, calls).is_ended(
            calls[k].user,
            calls[k].connection,
        ) && !opened_in_turn(s, calls).is_live(calls[k].user, calls[k].connection),
        opened_in_turn(s, calls).live_sessions(calls[k].user).len() == 1,
{
    lemma_opened_in_turn(s, calls);
    let t = opened_in_turn(s, calls);
    let user = calls[k].user;
    lemma_some_call_is_last(calls, k);
    let last = choose|m: int| last_from(calls, k, m);
    assert(t.live_sessions(user) == set![calls[last].connection]);
    if !last_of_its_identity(calls, k) {
        assert(last != k);
        assert(calls[k].connection != calls[last].connection);
        if t.is_live(user, calls[k].connection) {
            assert(t.live_sessions(user).contains(calls[k].connection));
        }
    }
}

/// Opening a session for one identity leaves the live sessions of every
/// other identity as they were.
pub proof fn law_other_identities_untouched(
    s: StoreView,
    user: u128,
    connection: u128,
    now: i64,
    other: u128,
)
    requires
        s.wf(),
        other != user,
    ensures
        open_connection_outcome(s, user, connection, now).0.live_sessions(other)
            == s.live_sessions(other),
{
    let t = open_connection_outcome(s, user, connection, now).0;
    if t != s {
        s.lemma_with_connection(user, connection, now);
    }
    assert(t.live_sessions(other) =~= s.live_sessions(other));
}

/// A token that was minted verifies, at every time that the clock shows up
/// to its expiry, to exactly the claims that it was minted with: the
/// subject, the issuer, the expiry, the texts of the two ids and the roles.
/// With `Bearer ` before it it verifies alike.
pub proof fn law_round_trip(
    config: ConfigView,
    user: u128,
    connection: u128,
    roles: Seq<Seq<char>>,
    kind: TokenKind,
    now: i64,
    later: i64,
)
    requires
        minted_token(config, user, connection, roles, kind, now) is Ok,
        clock_reading(later),
        expiry(config, kind, now) matches Some(exp) && later <= exp,
    ensures
        ({
            let token = minted_token(config, user, connection, roles, kind, now)->Ok_0;
            let claims = minted_claims(user, connection, roles, expiry(config, kind, now)->0);
            &&& verified_claims(config, token, later) == Ok::<ClaimsView, UserError>(claims)
            &&& verified_claims(config, "Bearer "@ + token, later) == Ok::<ClaimsView, UserError>(
                claims,
            )
        }),
{
    let token = minted_token(config, user, connection, roles, kind, now)->Ok_0;
    let claims = minted_claims(user, connection, roles, expiry(config, kind, now)->0);
    assert(signed_claims(config, claims) == Some(token));
    assert(carries(token, claims, config.secret));
    lemma_bearer_token_kept(token);
    lemma_claims_fields(claims);
}

/// An access token verifies at every time that the clock shows until its
/// lifetime has passed, with the ids and roles it was minted for, and is
/// refused as invalid from then on. So it verifies at the moment it is
/// minted, unless its lifetime is below zero.
pub proof fn law_access_token_lifetime(
    config: ConfigView,
    user: u128,
    connection: u128,
    roles: Seq<Seq<char>>,
    now: i64,
    later: i64,
)
    requires
        minted_token(config, user, connection, roles, TokenKind::Access, now) is Ok,
        clock_reading(later),
    ensures
        ({
            let token = minted_token(config, user, connection, roles, TokenKind::Access, now)->Ok_0;
            let claims = minted_claims(
                user,
                connection,
                roles,
                (now + config.access_token_exp_sec) as i64,
            );
            &&& later <= now + config.access_token_exp_sec ==> verified_claims(config, token, later)
                == Ok::<ClaimsView, UserError>(claims)
            &&& later > now + config.access_token_exp_sec ==> verified_claims(config, token, later)
                == Err::<ClaimsView, UserError>(UserError::InvalidToken)
        }),
{
    let token = minted_token(config, user, connection, roles, TokenKind::Access, now)->Ok_0;
    let exp = expiry(config, TokenKind::Access, now)->0;
    let claims = minted_claims(user, connection, roles, exp);
    assert(signed_claims(config, claims) == Some(token));
    assert(carries(token, claims, config.secret));
    lemma_bearer_token_kept(token);
    lemma_claims_fields(claims);
}

/// Both tokens of a session, as they are minted together, verify at every
/// time that the clock shows up to their expiry to the claims of that
/// session, each with its own expiry: the access token with the time of
/// minting plus its seconds, the refresh token with that time plus its days.
pub proof fn law_tokens_round_trip(
    config: ConfigView,
    user: u128,
    connection: u128,
    roles: Seq<Seq<char>>,
    now: i64,
    later: i64,
)
    requires
        tokens_outcome(config, user, connection, roles, now) is Ok,
        clock_reading(later),
    ensures
        ({
            let tokens = tokens_outcome(config, user, connection, roles, now)->Ok_0;
            let access_expiry = now + config.access_token_exp_sec;
            let refresh_expiry = now + config.refresh_token_exp_day * 86400;
            &&& later <= access_expiry ==> verified_claims(config, tokens.0, later) == Ok::<
                ClaimsView,
                UserError,
            >(minted_claims(user, connection, roles, access_expiry as i64))
            &&& later > access_expiry ==> verified_claims(config, tokens.0, later) == Err::<
                ClaimsView,
                UserError,
            >(UserError::InvalidToken)
            &&& later <= refresh_expiry ==> verified_claims(config, tokens.1, later) == Ok::<
                ClaimsView,
                UserError,
            >(minted_claims(user, connection, roles, refresh_expiry as i64))
            &&& later > refresh_expiry ==> verified_claims(config, tokens.1, later) == Err::<
                ClaimsView,
                UserError,
            >(UserError::InvalidToken)
        }),
{
    lemma_token_lifetime(config, user, connection, roles, TokenKind::Access, now, later);
    lemma_token_lifetime(config, user, connection, roles, TokenKind::Refresh, now, later);
}

/// A minted token of either kind verifies at every time that the clock
/// shows up to its expiry, and is refused as invalid after it.
proof fn lemma_token_lifetime(
    config: ConfigView,
    user: u128,
    connection: u128,
    roles: Seq<Seq<char>>,
    kind: TokenKind,
    now: i64,
    later: i64,
)
    requires
        minted_token(config, user, connection, roles, kind, now) is Ok,
        clock_reading(later),
    ensures
        ({
            let token = minted_token(config, user, connection, roles, kind, now)->Ok_0;
            let exp = expiry(config, kind, now)->0;
            &&& expiry(config, kind, now) is Some
            &&& later <= exp ==> verified_claims(config, token, later) == Ok::<ClaimsView, UserError>(
                minted_claims(user, connection, roles, exp),
            )
            &&& later > exp ==> verified_claims(config, token, later) == Err::<ClaimsView, UserError>(
                UserError::InvalidToken,
            )
        }),
{
    let token = minted_token(config, user, connection, roles, kind, now)->Ok_0;
    let exp = expiry(config, kind, now)->0;
    let claims = minted_claims(user, connection, roles, exp);
    assert(signed_claims(config, claims) == Some(token));
    assert(carries(token, claims, config.secret));
    lemma_bearer_token_kept(token);
    lemma_claims_fields(claims);
}

/// The guard lets the bearer of a minted token pass exactly where one of the
/// roles that the token was minted with is the role of the guard, up to the
/// case of ASCII letters, and answers `Forbidden` where none is.
pub proof fn law_guard_follows_roles(
    config: ConfigView,
    user: u128,
    connection: u128,
    roles: Seq<Seq<char>>,
    kind: TokenKind,
    now: i64,
    role: Seq<char>,
    later: i64,
)
    requires
        minted_token(config, user, connection, roles, kind, now) is Ok,
        clock_reading(later),
        expiry(config, kind, now) matches Some(exp) && later <= exp,
    ensures
        ({
            let token = minted_token(config, user, connection, roles, kind, now)->Ok_0;
            &&& holds_role(roles, role) ==> guard_outcome(config, role, token, later) is Ok
            &&& !holds_role(roles, role) ==> guard_outcome(config, role, token, later) == Err::<
                (),
                UserError,
            >(UserError::Forbidden)
        }),
{
    law_round_trip(config, user, connection, roles, kind, now, later);
}

/// The guard answers `Forbidden` to a bearer whose token does not verify,
/// and to one whose claims do not hold its role; it lets every other pass.
pub proof fn law_guard_by_claims(config: ConfigView, role: Seq<char>, text: Seq<char>, now: i64)
    ensures
        guard_outcome(config, role, text, now) is Ok <==> (verified_claims(config, text, now) matches Ok(
            c,
        ) && holds_role(c.roles, role)),
        guard_outcome(config, role, text, now) matches Err(e) ==> e == UserError::Forbidden,
{
}

/// A session that was opened under a new id is the one live session of its
/// identity, and the sessions that the identity had before are live no
/// longer.
proof fn lemma_session_opened(s: StoreView, user: u128, connection: u128, now: i64, earlier: u128)
    requires
        s.wf(),
        open_connection_outcome(s, user, connection, now).1 is Ok,
    ensures
        open_connection_outcome(s, user, connection, now).0.wf(),
        open_connection_outcome(s, user, connection, now).0.users == s.users,
        open_connection_outcome(s, user, connection, now).0.roles == s.roles,
        open_connection_outcome(s, user, connection, now).0.is_live(user, connection),
        open_connection_outcome(s, user, connection, now).0.has_connection(connection),
        s.has_connection(earlier) ==> !open_connection_outcome(s, user, connection, now).0.is_live(
            user,
            earlier,
        ),
{
    let t = open_connection_outcome(s, user, connection, now).0;
    s.lemma_with_connection(user, connection, now);
    assert(t.live_sessions(user).contains(connection));
    if s.has_connection(earlier) && t.is_live(user, earlier) {
        assert(t.live_sessions(user).contains(earlier));
    }
}

/// A refresh token is good for one exchange: once a refresh with it has
/// succeeded, a second refresh with the same token is refused with
/// `ExpiredToken` and changes nothing. This holds for as long as the token
/// itself has not expired; after that it is refused as invalid.
pub proof fn law_refresh_single_use(
    s: StoreView,
    config: ConfigView,
    token: Seq<char>,
    first_connection: u128,
    first_time: i64,
    second_connection: u128,
    second_time: i64,
)
    requires
        s.wf(),
        refresh_outcome(s, config, token, first_connection, first_time).1 is Ok,
        verified_claims(config, token, second_time) is Ok,
    ensures
        ({
            let after = refresh_outcome(s, config, token, first_connection, first_time).0;
            refresh_outcome(after, config, token, second_connection, second_time) == (
                after,
                Err::<TokensView, UserError>(UserError::ExpiredToken),
            )
        }),
{
    let claims = verified_claims(config, token, first_time)->Ok_0;
    assert(verified_claims(config, token, second_time)->Ok_0 == claims);
    let user = uuid_parsed(claims.user_id)->0;
    let session = uuid_parsed(claims.connection_id)->0;
    assert(s.is_live(user, session));
    assert(s.has_connection(session)) by {
        let i = choose|i: int|
            0 <= i < s.connections.len() && (#[trigger] s.connections[i]).id_connection == session
                && s.connections[i].id_user == user && s.connections[i].live();
        assert(s.connections[i].id_connection == session);
    }
    let role = role_outcome(s, user)->Ok_0;
    assert(refresh_outcome(s, config, token, first_connection, first_time) == session_outcome(
        s,
        config,
        user,
        seq![role.description],
        first_connection,
        first_time,
    ));
    lemma_session_opened(s, user, first_connection, first_time, session);
}

/// A second login of an identity ends the session of its first login: the
/// refresh token of the first login is then refused with `ExpiredToken`,
/// and the store stays as the second login left it. This holds at every
/// time that the clock shows for as long as that token has not expired;
/// after that it is refused as invalid.
pub proof fn law_second_login_ends_first(
    s: StoreView,
    config: ConfigView,
    email: Seq<char>,
    first_password: Seq<char>,
    first_connection: u128,
    first_time: i64,
    second_password: Seq<char>,
    second_connection: u128,
    second_time: i64,
    third_connection: u128,
    third_time: i64,
)
    requires
        s.wf(),
        login_flow_outcome(s, config, email, first_password, first_connection, first_time).1 is Ok,
        login_flow_outcome(
            login_flow_outcome(s, config, email, first_password, first_connection, first_time).0,
            config,
            email,
            second_password,
            second_connection,
            second_time,
        ).1 is Ok,
        clock_reading(third_time),
        expiry(config, TokenKind::Refresh, first_time) matches Some(exp) && third_time <= exp,
    ensures
        ({
            let first = login_flow_outcome(
                s,
                config,
                email,
                first_password,
                first_connection,
                first_time,
            );
            let second = login_flow_outcome(
                first.0,
                config,
                email,
                second_password,
                second_connection,
                second_time,
            );
            refresh_outcome(
                second.0,
                config,
                first.1->Ok_0.refresh_token,
                third_connection,
                third_time,
            ) == (second.0, Err::<TokensView, UserError>(UserError::ExpiredToken))
        }),
{
    let first = login_flow_outcome(s, config, email, first_password, first_connection, first_time);
    let found = login_outcome(s, email, first_password)->Ok_0;
    let user = found.0.id_user;
    let roles = seq![found.1.description];
    assert(first == session_outcome(s, config, user, roles, first_connection, first_time));
    lemma_session_opened(s, user, first_connection, first_time, first_connection);
    let token = first.1->Ok_0.refresh_token;
    assert(minted_token(config, user, first_connection, roles, TokenKind::Refresh, first_time)
        == Ok::<Seq<char>, UserError>(token));
    law_round_trip(config, user, first_connection, roles, TokenKind::Refresh, first_time, third_time);
    assert(ids_readable(user, first_connection));

    let second = login_flow_outcome(
        first.0,
        config,
        email,
        second_password,
        second_connection,
        second_time,
    );
    let again = login_outcome(first.0, email, second_password)->Ok_0;
    assert(again.0 == first.0.user_by_email(email));
    assert(again.0.id_user == user);
    assert(second == session_outcome(
        first.0,
        config,
        user,
        seq![again.1.description],
        second_connection,
        second_time,
    ));
    lemma_session_opened(first.0, user, second_connection, second_time, first_connection);
}

} // verus!
