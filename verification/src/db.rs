//! The store of identities, roles and sessions, and the operations on it.
//!
//! A `Store` stands for the three tables. Each operation is one transaction:
//! it either changes the store as its contract says or leaves it as it was.

use crate::clock::{clock_reading, unix_now};
use crate::ident::{fresh_id, marked_random, parse_id, uuid_parsed};
use crate::model::{ConnectionModel, RLRole, RLUser, RoleRow, UserRow};
use crate::password::{bcrypt_verdict, check_password, hash_password};
use crate::users::{NewUser, UserError};
use vstd::prelude::*;

verus! {

/// The role that a newly registered identity gets.
pub const DEFAULT_ROLE_ID: i32 = 1;

/// What a `Store` holds: its rows, in the order in which they were added.
pub struct StoreView {
    pub users: Seq<UserRow>,
    pub roles: Seq<RoleRow>,
    pub connections: Seq<ConnectionModel>,
}

impl StoreView {
    /// A store without rows.
    pub open spec fn empty() -> StoreView {
        StoreView { users: Seq::empty(), roles: Seq::empty(), connections: Seq::empty() }
    }

    /// No two identities share an id.
    pub open spec fn user_ids_distinct(self) -> bool {
        forall|i: int, j: int|
            0 <= i < j < self.users.len() ==> self.users[i].id_user != self.users[j].id_user
    }

    /// No two identities share an email address.
    pub open spec fn emails_distinct(self) -> bool {
        forall|i: int, j: int|
            0 <= i < j < self.users.len() ==> self.users[i].email != self.users[j].email
    }

    /// No two roles share an id.
    pub open spec fn role_ids_distinct(self) -> bool {
        forall|i: int, j: int|
            0 <= i < j < self.roles.len() ==> self.roles[i].id_role != self.roles[j].id_role
    }

    /// No two sessions share an id.
    pub open spec fn connection_ids_distinct(self) -> bool {
        forall|i: int, j: int|
            0 <= i < j < self.connections.len() ==> self.connections[i].id_connection
                != self.connections[j].id_connection
    }

    /// No identity has two live sessions.
    pub open spec fn single_live(self) -> bool {
        forall|i: int, j: int|
            0 <= i < j < self.connections.len() && self.connections[i].id_user
                == self.connections[j].id_user ==> !(self.connections[i].live()
                && self.connections[j].live())
    }

    /// The invariant of the store: ids and email addresses are keys, and no
    /// identity has more than one live session.
    pub open spec fn wf(self) -> bool {
        &&& self.user_ids_distinct()
        &&& self.emails_distinct()
        &&& self.role_ids_distinct()
        &&& self.connection_ids_distinct()
        &&& self.single_live()
    }

    /// An identity with this id exists.
    pub open spec fn has_user(self, id: u128) -> bool {
        exists|i: int| 0 <= i < self.users.len() && #[trigger] self.users[i].id_user == id
    }

    /// The identity with this id, where one exists.
    pub open spec fn user(self, id: u128) -> UserRow {
        self.users[choose|i: int| 0 <= i < self.users.len() && #[trigger] self.users[i].id_user == id]
    }

    /// An identity with this email address exists.
    pub open spec fn has_email(self, email: Seq<char>) -> bool {
        exists|i: int| 0 <= i < self.users.len() && #[trigger] self.users[i].email == email
    }

    /// The identity with this email address, where one exists.
    pub open spec fn user_by_email(self, email: Seq<char>) -> UserRow {
        self.users[choose|i: int| 0 <= i < self.users.len() && #[trigger] self.users[i].email == email]
    }

    /// A role with this id exists.
    pub open spec fn has_role(self, id: i32) -> bool {
        exists|i: int| 0 <= i < self.roles.len() && #[trigger] self.roles[i].id_role == id
    }

    /// The role with this id, where one exists.
    pub open spec fn role(self, id: i32) -> RoleRow {
        self.roles[choose|i: int| 0 <= i < self.roles.len() && #[trigger] self.roles[i].id_role == id]
    }

    /// A session with this id exists, live or not.
    pub open spec fn has_connection(self, id: u128) -> bool {
        exists|i: int|
            0 <= i < self.connections.len() && #[trigger] self.connections[i].id_connection == id
    }

    /// `connection` is a live session of `user`.
    pub open spec fn is_live(self, user: u128, connection: u128) -> bool {
        exists|i: int|
            0 <= i < self.connections.len() && (#[trigger] self.connections[i]).id_connection
                == connection && self.connections[i].id_user == user && self.connections[i].live()
    }

    /// `connection` is a session of `user` that has ended.
    pub open spec fn is_ended(self, user: u128, connection: u128) -> bool {
        exists|i: int|
            0 <= i < self.connections.len() && (#[trigger] self.connections[i]).id_connection
                == connection && self.connections[i].id_user == user && !self.connections[i].live()
    }

    /// The live sessions of `user`.
    pub open spec fn live_sessions(self, user: u128) -> Set<u128> {
        Set::new(|connection: u128| self.is_live(user, connection))
    }

    /// The store with one more identity.
    pub open spec fn with_user(self, row: UserRow) -> StoreView {
        StoreView { users: self.users.push(row), ..self }
    }

    /// The store with one more role.
    pub open spec fn with_role(self, row: RoleRow) -> StoreView {
        StoreView { roles: self.roles.push(row), ..self }
    }

    /// The store after a session `connection` was opened for `user` at `now`:
    /// every session of `user` that was live has ended at `now`, the new
    /// session is the last row, and nothing else has changed.
    pub open spec fn with_connection(self, user: u128, connection: u128, now: i64) -> StoreView {
        StoreView {
            connections: Seq::new(
                self.connections.len(),
                |i: int| self.connections[i].superseded(user, now),
            ).push(ConnectionModel::opened(connection, user, now)),
            ..self
        }
    }
}

impl StoreView {
    /// Where email addresses are keys, a row is the identity with its address.
    pub proof fn lemma_user_by_email(self, i: int)
        requires
            self.emails_distinct(),
            0 <= i < self.users.len(),
        ensures
            self.has_email(self.users[i].email),
            self.user_by_email(self.users[i].email) == self.users[i],
    {
        let email = self.users[i].email;
        let k = choose|k: int| 0 <= k < self.users.len() && #[trigger] self.users[k].email == email;
        if k < i {
            assert(self.users[k].email != self.users[i].email);
        } else if i < k {
            assert(self.users[i].email != self.users[k].email);
        }
    }

    /// The identity that is found by its email address is found by its id.
    pub proof fn lemma_found_by_email(self, email: Seq<char>)
        requires
            self.has_email(email),
        ensures
            self.has_user(self.user_by_email(email).id_user),
    {
        let i = choose|i: int| 0 <= i < self.users.len() && #[trigger] self.users[i].email == email;
        assert(self.users[i].id_user == self.user_by_email(email).id_user);
    }

    /// Where ids are keys, a row is the identity with its id.
    pub proof fn lemma_user(self, i: int)
        requires
            self.user_ids_distinct(),
            0 <= i < self.users.len(),
        ensures
            self.has_user(self.users[i].id_user),
            self.user(self.users[i].id_user) == self.users[i],
    {
        let id = self.users[i].id_user;
        let k = choose|k: int| 0 <= k < self.users.len() && #[trigger] self.users[k].id_user == id;
        if k < i {
            assert(self.users[k].id_user != self.users[i].id_user);
        } else if i < k {
            assert(self.users[i].id_user != self.users[k].id_user);
        }
    }

    /// Where ids are keys, a row is the role with its id.
    pub proof fn lemma_role(self, i: int)
        requires
            self.role_ids_distinct(),
            0 <= i < self.roles.len(),
        ensures
            self.has_role(self.roles[i].id_role),
            self.role(self.roles[i].id_role) == self.roles[i],
    {
        let id = self.roles[i].id_role;
        let k = choose|k: int| 0 <= k < self.roles.len() && #[trigger] self.roles[k].id_role == id;
        if k < i {
            assert(self.roles[k].id_role != self.roles[i].id_role);
        } else if i < k {
            assert(self.roles[i].id_role != self.roles[k].id_role);
        }
    }

    /// A store from which the rows of some kind were taken out, and whose
    /// other rows were left as they are, keeps the invariant.
    pub proof fn lemma_rows_taken_out(self, hollow: StoreView)
        requires
            self.wf(),
            hollow.users == self.users || hollow.users.len() == 0,
            hollow.roles == self.roles || hollow.roles.len() == 0,
            hollow.connections == self.connections || hollow.connections.len() == 0,
        ensures
            hollow.wf(),
    {
        assert(hollow.user_ids_distinct());
        assert(hollow.emails_distinct());
        assert(hollow.role_ids_distinct());
        assert(hollow.connection_ids_distinct());
        assert(hollow.single_live());
    }

    /// Adding an identity whose id and email address are new keeps the
    /// invariant, and every identity that existed is found as before.
    pub proof fn lemma_with_user(self, row: UserRow)
        requires
            self.wf(),
            !self.has_user(row.id_user),
            !self.has_email(row.email),
        ensures
            self.with_user(row).wf(),
            self.with_user(row).has_user(row.id_user),
            self.with_user(row).user(row.id_user) == row,
            self.with_user(row).has_email(row.email),
            self.with_user(row).user_by_email(row.email) == row,
            forall|id: u128| self.has_user(id) ==> self.with_user(row).has_user(id),
    {
        let t = self.with_user(row);
        let n = self.users.len() as int;
        assert forall|i: int, j: int| 0 <= i < j < t.users.len() implies t.users[i].id_user
            != t.users[j].id_user && t.users[i].email != t.users[j].email by {
            if j == n {
                assert(self.users[i].id_user != row.id_user);
                assert(self.users[i].email != row.email);
            } else {
                assert(self.users[i].id_user != self.users[j].id_user);
                assert(self.users[i].email != self.users[j].email);
            }
        }
        assert(t.users[n] == row);
        t.lemma_user(n);
        t.lemma_user_by_email(n);
        assert forall|id: u128| self.has_user(id) implies t.has_user(id) by {
            let k = choose|k: int| 0 <= k < self.users.len() && #[trigger] self.users[k].id_user == id;
            assert(t.users[k].id_user == id);
        }
    }

    /// Opening a session under a new id keeps the invariant. The new session
    /// is then the one live session of its identity, every session of that
    /// identity that existed has ended, and the sessions of every other
    /// identity are as they were.
    pub proof fn lemma_with_connection(self, user: u128, connection: u128, now: i64)
        requires
            self.wf(),
            !self.has_connection(connection),
        ensures
            self.with_connection(user, connection, now).wf(),
            self.with_connection(user, connection, now).live_sessions(user) == set![connection],
            forall|c: u128|
                c != connection ==> (self.with_connection(user, connection, now).has_connection(c)
                    <==> self.has_connection(c)),
            self.with_connection(user, connection, now).has_connection(connection),
            forall|c: u128|
                self.is_live(user, c) || self.is_ended(user, c) ==> self.with_connection(
                    user,
                    connection,
                    now,
                ).is_ended(user, c),
            forall|other: u128, c: u128|
                other != user ==> (self.with_connection(user, connection, now).is_live(other, c)
                    <==> self.is_live(other, c)),
            forall|other: u128, c: u128|
                self.is_ended(other, c) ==> self.with_connection(user, connection, now).is_ended(
                    other,
                    c,
                ),
    {
        let t = self.with_connection(user, connection, now);
        assert forall|other: u128, c: u128| self.is_ended(other, c) implies t.is_ended(other, c) by {
            let k = choose|k: int|
                0 <= k < self.connections.len() && (#[trigger] self.connections[k]).id_connection
                    == c && self.connections[k].id_user == other && !self.connections[k].live();
            assert(t.connections[k] == self.connections[k].superseded(user, now));
            assert(t.connections[k].id_connection == c && !t.connections[k].live());
        }
        let n = self.connections.len() as int;
        assert(t.connections.len() == n + 1);
        assert(t.connections[n] == ConnectionModel::opened(connection, user, now));
        assert forall|i: int| 0 <= i < n implies #[trigger] t.connections[i]
            == self.connections[i].superseded(user, now) by {}
        assert forall|i: int, j: int| 0 <= i < j < t.connections.len() implies t.connections[i].id_connection
            != t.connections[j].id_connection by {
            if j == n {
                assert(self.connections[i].id_connection != connection);
            } else {
                assert(self.connections[i].id_connection != self.connections[j].id_connection);
            }
        }
        assert forall|i: int, j: int|
            0 <= i < j < t.connections.len() && t.connections[i].id_user
                == t.connections[j].id_user implies !(t.connections[i].live()
            && t.connections[j].live()) by {
            if j < n {
                assert(!(self.connections[i].live() && self.connections[j].live()));
            }
        }
        assert(t.is_live(user, connection));
        assert forall|c: u128| t.is_live(user, c) implies c == connection by {
            let k = choose|k: int|
                0 <= k < t.connections.len() && (#[trigger] t.connections[k]).id_connection == c
                    && t.connections[k].id_user == user && t.connections[k].live();
            assert(k == n);
        }
        assert(t.live_sessions(user) =~= set![connection]);
        assert forall|c: u128| c != connection implies (t.has_connection(c)
            <==> self.has_connection(c)) by {
            if t.has_connection(c) {
                let k = choose|k: int|
                    0 <= k < t.connections.len() && #[trigger] t.connections[k].id_connection == c;
                assert(self.connections[k].id_connection == c);
            }
            if self.has_connection(c) {
                let k = choose|k: int|
                    0 <= k < self.connections.len() && #[trigger] self.connections[k].id_connection
                        == c;
                assert(t.connections[k].id_connection == c);
            }
        }
        assert(t.connections[n].id_connection == connection);
        assert forall|c: u128| self.is_live(user, c) || self.is_ended(user, c) implies t.is_ended(
            user,
            c,
        ) by {
            let k = choose|k: int|
                0 <= k < self.connections.len() && (#[trigger] self.connections[k]).id_connection
                    == c && self.connections[k].id_user == user;
            assert(t.connections[k].id_connection == c && !t.connections[k].live());
        }
        assert forall|other: u128, c: u128| other != user implies (t.is_live(other, c)
            <==> self.is_live(other, c)) by {
            if t.is_live(other, c) {
                let k = choose|k: int|
                    0 <= k < t.connections.len() && (#[trigger] t.connections[k]).id_connection == c
                        && t.connections[k].id_user == other && t.connections[k].live();
                assert(self.connections[k] == t.connections[k]);
            }
            if self.is_live(other, c) {
                let k = choose|k: int|
                    0 <= k < self.connections.len() && (
                    #[trigger] self.connections[k]).id_connection == c
                        && self.connections[k].id_user == other && self.connections[k].live();
                assert(t.connections[k] == self.connections[k]);
            }
        }
    }
}

/// The identities, roles and sessions that the service knows.
pub struct Store {
    users: Vec<RLUser>,
    roles: Vec<RLRole>,
    connections: Vec<ConnectionModel>,
}

impl View for Store {
    type V = StoreView;

    closed spec fn view(&self) -> StoreView {
        rows_view(self.users@, self.roles@, self.connections@)
    }
}

/// What a store with the given rows holds.
pub open spec fn rows_view(
    users: Seq<RLUser>,
    roles: Seq<RLRole>,
    connections: Seq<ConnectionModel>,
) -> StoreView {
    StoreView {
        users: Seq::new(users.len(), |i: int| users[i]@),
        roles: Seq::new(roles.len(), |i: int| roles[i]@),
        connections,
    }
}

/// The row of an identity registered under `id` by `new_user`, with the
/// hash of its password.
pub open spec fn new_user_row(new_user: NewUser, hashed_password: Seq<char>, id: u128) -> UserRow {
    UserRow {
        id_user: id,
        email: new_user.email@,
        nickname: new_user.nickname@,
        password: hashed_password,
        id_role: DEFAULT_ROLE_ID,
    }
}

/// What adding an identity does: refused where the email address is taken,
/// an internal error where the id is, and else the row is added.
pub open spec fn insert_user_outcome(s: StoreView, row: UserRow) -> (StoreView, Result<u128, UserError>) {
    if s.has_email(row.email) {
        (s, Err(UserError::EmailNotAvailable))
    } else if s.has_user(row.id_user) {
        (s, Err(UserError::InternalError))
    } else {
        (s.with_user(row), Ok(row.id_user))
    }
}

/// What opening a session does: refused for an unknown identity, an
/// internal error where the session id is taken, and else the live sessions
/// of the identity end and the new one is added.
pub open spec fn open_connection_outcome(s: StoreView, user: u128, connection: u128, now: i64) -> (
    StoreView,
    Result<u128, UserError>,
) {
    if !s.has_user(user) {
        (s, Err(UserError::UserNotFound))
    } else if s.has_connection(connection) {
        (s, Err(UserError::InternalError))
    } else {
        (s.with_connection(user, connection, now), Ok(connection))
    }
}

/// What a login attempt gives, once the password has been held against the
/// stored hash with the answer `verdict`: the identity and its role where
/// the address is known and the password accepted, the same refusal for an
/// unknown address and for a wrong password, and an internal error where the
/// identity has a role that the store does not hold.
pub open spec fn credentials_outcome(s: StoreView, email: Seq<char>, verdict: Option<bool>) -> Result<
    (UserRow, RoleRow),
    UserError,
> {
    if !s.has_email(email) || verdict != Some(true) {
        Err(UserError::InvalidCredentials)
    } else if !s.has_role(s.user_by_email(email).id_role) {
        Err(UserError::InternalError)
    } else {
        Ok((s.user_by_email(email), s.role(s.user_by_email(email).id_role)))
    }
}

/// What a login attempt gives: `credentials_outcome` with the answer of
/// `bcrypt` on the password and the hash stored for the address.
pub open spec fn login_outcome(s: StoreView, email: Seq<char>, password: Seq<char>) -> Result<
    (UserRow, RoleRow),
    UserError,
> {
    credentials_outcome(s, email, bcrypt_verdict(password, s.user_by_email(email).password))
}

/// The role of an identity: refused for an unknown identity, an internal
/// error where the store does not hold the role.
pub open spec fn role_outcome(s: StoreView, user: u128) -> Result<RoleRow, UserError> {
    if !s.has_user(user) {
        Err(UserError::UserNotFound)
    } else if !s.has_role(s.user(user).id_role) {
        Err(UserError::InternalError)
    } else {
        Ok(s.role(s.user(user).id_role))
    }
}

/// The role of the identity whose id was read from a text: an internal
/// error where the text was no id.
pub open spec fn role_by_text_outcome(s: StoreView, parsed: Option<u128>) -> Result<RoleRow, UserError> {
    match parsed {
        Some(user) => role_outcome(s, user),
        None => Err(UserError::InternalError),
    }
}

/// What a result with rows in it holds.
pub open spec fn login_rows(r: Result<(RLUser, RLRole), UserError>) -> Result<
    (UserRow, RoleRow),
    UserError,
> {
    match r {
        Ok(pair) => Ok((pair.0@, pair.1@)),
        Err(e) => Err(e),
    }
}

/// What a result with a role in it holds.
pub open spec fn role_row(r: Result<RLRole, UserError>) -> Result<RoleRow, UserError> {
    match r {
        Ok(role) => Ok(role@),
        Err(e) => Err(e),
    }
}

impl Store {
    /// Every store keeps the invariant of what it holds.
    #[verifier::type_invariant]
    pub open spec fn keeps_invariant(self) -> bool {
        self@.wf()
    }

    /// A store without rows.
    pub fn new() -> (r: Store)
        ensures
            r@ == StoreView::empty(),
            r@.wf(),
    {
        let r = Store { users: Vec::new(), roles: Vec::new(), connections: Vec::new() };
        assert(r@.users =~= Seq::empty());
        assert(r@.roles =~= Seq::empty());
        assert(r@.connections =~= Seq::empty());
        r
    }

    /// The identities, in the order in which they were added.
    pub fn users(&self) -> (r: &Vec<RLUser>)
        ensures
            r@.len() == self@.users.len(),
            forall|i: int| 0 <= i < r@.len() ==> (#[trigger] r@[i])@ == self@.users[i],
    {
        &self.users
    }

    /// The roles, in the order in which they were added.
    pub fn roles(&self) -> (r: &Vec<RLRole>)
        ensures
            r@.len() == self@.roles.len(),
            forall|i: int| 0 <= i < r@.len() ==> (#[trigger] r@[i])@ == self@.roles[i],
    {
        &self.roles
    }

    /// The sessions, in the order in which they were opened.
    pub fn connections(&self) -> (r: &Vec<ConnectionModel>)
        ensures
            r@ == self@.connections,
    {
        &self.connections
    }

    fn user_index(&self, id: u128) -> (r: Option<usize>)
        ensures
            match r {
                Some(i) => i < self@.users.len() && self@.users[i as int].id_user == id
                    && self.users@[i as int]@ == self@.users[i as int],
                None => !self@.has_user(id),
            },
    {
        let mut i: usize = 0;
        while i < self.users.len()
            invariant
                i <= self.users@.len(),
                forall|k: int| 0 <= k < i ==> (#[trigger] self@.users[k]).id_user != id,
            decreases self.users@.len() - i,
        {
            if self.users[i].id_user == id {
                return Some(i);
            }
            i += 1;
        }
        None
    }

    fn email_index(&self, email: &String) -> (r: Option<usize>)
        ensures
            match r {
                Some(i) => i < self@.users.len() && self@.users[i as int].email == email@
                    && self.users@[i as int]@ == self@.users[i as int],
                None => !self@.has_email(email@),
            },
    {
        let mut i: usize = 0;
        while i < self.users.len()
            invariant
                i <= self.users@.len(),
                forall|k: int| 0 <= k < i ==> (#[trigger] self@.users[k]).email != email@,
            decreases self.users@.len() - i,
        {
            if self.users[i].email == *email {
                return Some(i);
            }
            i += 1;
        }
        None
    }

    fn role_index(&self, id: i32) -> (r: Option<usize>)
        ensures
            match r {
                Some(i) => i < self@.roles.len() && self@.roles[i as int].id_role == id
                    && self.roles@[i as int]@ == self@.roles[i as int],
                None => !self@.has_role(id),
            },
    {
        let mut i: usize = 0;
        while i < self.roles.len()
            invariant
                i <= self.roles@.len(),
                forall|k: int| 0 <= k < i ==> (#[trigger] self@.roles[k]).id_role != id,
            decreases self.roles@.len() - i,
        {
            if self.roles[i].id_role == id {
                return Some(i);
            }
            i += 1;
        }
        None
    }

    fn connection_index(&self, id: u128) -> (r: Option<usize>)
        ensures
            match r {
                Some(i) => i < self@.connections.len() && self@.connections[i as int].id_connection
                    == id,
                None => !self@.has_connection(id),
            },
    {
        let mut i: usize = 0;
        while i < self.connections.len()
            invariant
                i <= self.connections@.len(),
                forall|k: int| 0 <= k < i ==> (#[trigger] self@.connections[k]).id_connection != id,
            decreases self.connections@.len() - i,
        {
            if self.connections[i].id_connection == id {
                return Some(i);
            }
            i += 1;
        }
        None
    }

    /// The store that holds the given rows, in their order, or `None` where
    /// they break the invariant: two identities with one id or one email
    /// address, two roles or two sessions with one id, or two live sessions
    /// of one identity.
    pub fn from_rows(users: Vec<RLUser>, roles: Vec<RLRole>, connections: Vec<ConnectionModel>) -> (r:
        Option<Store>)
        ensures
            match r {
                Some(store) => {
                    &&& store@.wf()
                    &&& store@ == rows_view(users@, roles@, connections@)
                },
                None => !rows_view(users@, roles@, connections@).wf(),
            },
    {
        proof {
            let all = rows_view(users@, roles@, connections@);
            assert(all.users == rows_view(users@, Seq::empty(), Seq::empty()).users);
            assert(all.roles == rows_view(Seq::empty(), roles@, Seq::empty()).roles);
            assert(all.connections == rows_view(
                Seq::empty(),
                Seq::empty(),
                connections@,
            ).connections);
        }
        if users_are_keyed(&users) && roles_are_keyed(&roles) && connections_are_keyed(&connections) {
            Some(Store { users, roles, connections })
        } else {
            None
        }
    }

    /// Adds a role, unless a role with the same id exists: then the store is
    /// left as it was and the answer is `false`.
    pub fn add_role(&mut self, role: RLRole) -> (added: bool)
        ensures
            final(self)@.wf(),
            added == !old(self)@.has_role(role.id_role),
            added ==> final(self)@ == old(self)@.with_role(role@),
            !added ==> final(self)@ == old(self)@,
    {
        proof {
            use_type_invariant(&*self);
        }
        if self.role_index(role.id_role).is_some() {
            return false;
        }
        let ghost before = self@;
        let ghost row = role@;
        let mut rows: Vec<RLRole> = Vec::new();
        proof {
            before.lemma_rows_taken_out(rows_view(self.users@, rows@, self.connections@));
        }
        std::mem::swap(&mut rows, &mut self.roles);
        rows.push(role);
        proof {
            let after = rows_view(self.users@, rows@, self.connections@);
            assert(after.roles =~= before.roles.push(row));
            assert(after.users =~= before.users);
            assert forall|i: int, j: int| 0 <= i < j < after.roles.len() implies after.roles[i].id_role
                != after.roles[j].id_role by {
                if j == before.roles.len() {
                    assert(before.roles[i].id_role != row.id_role);
                } else {
                    assert(before.roles[i].id_role != before.roles[j].id_role);
                }
            }
            assert(after == before.with_role(row));
        }
        self.roles = rows;
        true
    }
}

fn users_are_keyed(users: &Vec<RLUser>) -> (r: bool)
    ensures
        r == (rows_view(users@, Seq::empty(), Seq::empty()).user_ids_distinct() && rows_view(
            users@,
            Seq::empty(),
            Seq::empty(),
        ).emails_distinct()),
{
    let ghost rows = rows_view(users@, Seq::empty(), Seq::empty()).users;
    let n = users.len();
    let mut j: usize = 0;
    while j < n
        invariant
            j <= n,
            n == users@.len(),
            rows == rows_view(users@, Seq::empty(), Seq::empty()).users,
            forall|a: int, b: int|
                0 <= a < b < j ==> rows[a].id_user != rows[b].id_user && rows[a].email
                    != rows[b].email,
        decreases n - j,
    {
        let mut i: usize = 0;
        while i < j
            invariant
                i <= j < n,
                n == users@.len(),
                rows == rows_view(users@, Seq::empty(), Seq::empty()).users,
                forall|a: int|
                    0 <= a < i ==> (#[trigger] rows[a]).id_user != rows[j as int].id_user
                        && rows[a].email != rows[j as int].email,
            decreases j - i,
        {
            if users[i].id_user == users[j].id_user || users[i].email == users[j].email {
                assert(rows[i as int].id_user == rows[j as int].id_user || rows[i as int].email
                    == rows[j as int].email);
                return false;
            }
            i += 1;
        }
        j += 1;
    }
    true
}

fn roles_are_keyed(roles: &Vec<RLRole>) -> (r: bool)
    ensures
        r == rows_view(Seq::empty(), roles@, Seq::empty()).role_ids_distinct(),
{
    let ghost rows = rows_view(Seq::empty(), roles@, Seq::empty()).roles;
    let n = roles.len();
    let mut j: usize = 0;
    while j < n
        invariant
            j <= n,
            n == roles@.len(),
            rows == rows_view(Seq::empty(), roles@, Seq::empty()).roles,
            forall|a: int, b: int| 0 <= a < b < j ==> rows[a].id_role != rows[b].id_role,
        decreases n - j,
    {
        let mut i: usize = 0;
        while i < j
            invariant
                i <= j < n,
                n == roles@.len(),
                rows == rows_view(Seq::empty(), roles@, Seq::empty()).roles,
                forall|a: int| 0 <= a < i ==> (#[trigger] rows[a]).id_role != rows[j as int].id_role,
            decreases j - i,
        {
            if roles[i].id_role == roles[j].id_role {
                assert(rows[i as int].id_role == rows[j as int].id_role);
                return false;
            }
            i += 1;
        }
        j += 1;
    }
    true
}

fn connections_are_keyed(connections: &Vec<ConnectionModel>) -> (r: bool)
    ensures
        r == (rows_view(Seq::empty(), Seq::empty(), connections@).connection_ids_distinct()
            && rows_view(Seq::empty(), Seq::empty(), connections@).single_live()),
{
    let n = connections.len();
    let mut j: usize = 0;
    while j < n
        invariant
            j <= n,
            n == connections@.len(),
            forall|a: int, b: int|
                0 <= a < b < j ==> connections@[a].id_connection != connections@[b].id_connection
                    && !(connections@[a].id_user == connections@[b].id_user
                    && connections@[a].live() && connections@[b].live()),
        decreases n - j,
    {
        let later = connections[j];
        let mut i: usize = 0;
        while i < j
            invariant
                i <= j < n,
                n == connections@.len(),
                later == connections@[j as int],
                forall|a: int|
                    0 <= a < i ==> (#[trigger] connections@[a]).id_connection != later.id_connection
                        && !(connections@[a].id_user == later.id_user && connections@[a].live()
                        && later.live()),
            decreases j - i,
        {
            let earlier = connections[i];
            if earlier.id_connection == later.id_connection || (earlier.id_user == later.id_user
                && earlier.ended_at.is_none() && later.ended_at.is_none()) {
                assert(connections@[i as int] == earlier);
                return false;
            }
            i += 1;
        }
        j += 1;
    }
    true
}

/// The session at place `i` is one of several live sessions of its
/// identity.
pub open spec fn contested(rows: Seq<ConnectionModel>, i: int) -> bool {
    rows[i].live() && exists|j: int|
        0 <= j < rows.len() && j != i && (#[trigger] rows[j]).live() && rows[j].id_user
            == rows[i].id_user
}

/// The rows in which every session that was one of several live sessions
/// of its identity has ended at `now`, and every other row is as it was.
pub open spec fn settled(rows: Seq<ConnectionModel>, now: i64) -> Seq<ConnectionModel> {
    Seq::new(
        rows.len(),
        |i: int|
            if contested(rows, i) {
                ConnectionModel { ended_at: Some(now), ..rows[i] }
            } else {
                rows[i]
            },
    )
}

/// In settled rows no identity has two live sessions, and rows in which
/// none had are settled as they are.
pub proof fn lemma_settled(rows: Seq<ConnectionModel>, now: i64)
    ensures
        rows_view(Seq::empty(), Seq::empty(), settled(rows, now)).single_live(),
        rows_view(Seq::empty(), Seq::empty(), rows).single_live() ==> settled(rows, now) == rows,
        rows_view(Seq::empty(), Seq::empty(), rows).connection_ids_distinct() ==> rows_view(
            Seq::empty(),
            Seq::empty(),
            settled(rows, now),
        ).connection_ids_distinct(),
{
    let after = settled(rows, now);
    assert forall|i: int, j: int|
        0 <= i < j < after.len() && after[i].id_user == after[j].id_user implies !(after[i].live()
        && after[j].live()) by {
        if after[i].live() && after[j].live() {
            assert(!contested(rows, i));
            assert(rows[j].live() && rows[j].id_user == rows[i].id_user);
        }
    }
    if rows_view(Seq::empty(), Seq::empty(), rows).single_live() {
        assert forall|i: int| 0 <= i < rows.len() implies !contested(rows, i) by {
            if contested(rows, i) {
                let j = choose|j: int|
                    0 <= j < rows.len() && j != i && (#[trigger] rows[j]).live() && rows[j].id_user
                        == rows[i].id_user;
                if i < j {
                    assert(!(rows[i].live() && rows[j].live()));
                } else {
                    assert(!(rows[j].live() && rows[i].live()));
                }
            }
        }
        assert(after =~= rows);
    }
    if rows_view(Seq::empty(), Seq::empty(), rows).connection_ids_distinct() {
        assert forall|i: int, j: int| 0 <= i < j < after.len() implies after[i].id_connection
            != after[j].id_connection by {
            assert(rows[i].id_connection != rows[j].id_connection);
        }
    }
}

/// Settles rows that were written without regard to the invariant: where
/// an identity has several live sessions, all of them end at `now`, as they
/// would when the next session of that identity is opened. Rows in which no
/// identity has two live sessions are given back as they are.
pub fn settle_sessions(rows: &Vec<ConnectionModel>, now: i64) -> (r: Vec<ConnectionModel>)
    ensures
        r@ == settled(rows@, now),
        rows_view(Seq::empty(), Seq::empty(), r@).single_live(),
{
    let n = rows.len();
    let mut out: Vec<ConnectionModel> = Vec::new();
    let mut i: usize = 0;
    while i < n
        invariant
            i <= n,
            n == rows@.len(),
            out@.len() == i,
            forall|k: int| 0 <= k < i ==> #[trigger] out@[k] == settled(rows@, now)[k],
        decreases n - i,
    {
        let current = rows[i];
        let mut several = false;
        if current.ended_at.is_none() {
            let mut j: usize = 0;
            while j < n
                invariant
                    j <= n,
                    i < n,
                    n == rows@.len(),
                    current == rows@[i as int],
                    current.live(),
                    several <==> exists|k: int|
                        0 <= k < j && k != i && (#[trigger] rows@[k]).live() && rows@[k].id_user
                            == current.id_user,
                decreases n - j,
            {
                let other = rows[j];
                if j != i && other.ended_at.is_none() && other.id_user == current.id_user {
                    several = true;
                }
                j += 1;
            }
        }
        assert(several == contested(rows@, i as int));
        if several {
            out.push(
                ConnectionModel {
                    id_connection: current.id_connection,
                    id_user: current.id_user,
                    connect_at: current.connect_at,
                    ended_at: Some(now),
                },
            );
        } else {
            out.push(current);
        }
        i += 1;
    }
    proof {
        assert(out@ =~= settled(rows@, now));
        lemma_settled(rows@, now);
    }
    out
}

/// Adds the identity that `new_user` asks for, under the id `id` and with
/// the password hash `hashed_password`.
pub fn insert_user(store: &mut Store, new_user: NewUser, hashed_password: String, id: u128) -> (r:
    Result<u128, UserError>)
    ensures
        final(store)@.wf(),
        (final(store)@, r) == insert_user_outcome(
            old(store)@,
            new_user_row(new_user, hashed_password@, id),
        ),
{
    proof {
        use_type_invariant(&*store);
    }
    let ghost before = store@;
    let ghost row = new_user_row(new_user, hashed_password@, id);
    if store.email_index(&new_user.email).is_some() {
        return Err(UserError::EmailNotAvailable);
    }
    if store.user_index(id).is_some() {
        return Err(UserError::InternalError);
    }
    let user = RLUser {
        id_user: id,
        email: new_user.email,
        nickname: new_user.nickname,
        password: hashed_password,
        id_role: DEFAULT_ROLE_ID,
    };
    let mut rows: Vec<RLUser> = Vec::new();
    proof {
        before.lemma_rows_taken_out(rows_view(rows@, store.roles@, store.connections@));
    }
    std::mem::swap(&mut rows, &mut store.users);
    rows.push(user);
    proof {
        let after = rows_view(rows@, store.roles@, store.connections@);
        assert(after.users =~= before.users.push(row));
        assert(after.roles =~= before.roles);
        before.lemma_with_user(row);
        assert(after == before.with_user(row));
    }
    store.users = rows;
    Ok(id)
}

/// Registers an identity: hashes the password, draws a fresh id and adds
/// the row with the default role. The store changes only on success.
pub fn save_new_user(store: &mut Store, new_user: NewUser) -> (r: Result<u128, UserError>)
    ensures
        final(store)@.wf(),
        (r matches Err(e) && e == UserError::InternalError && final(store)@ == old(store)@) || exists|
            hashed_password: Seq<char>,
            id: u128,
        |
            bcrypt_verdict(new_user.password@, hashed_password) == Some(true) && marked_random(id)
                && (final(store)@, r) == insert_user_outcome(
                old(store)@,
                #[trigger] new_user_row(new_user, hashed_password, id),
            ),
{
    proof {
        use_type_invariant(&*store);
    }
    match hash_password(new_user.password.as_str()) {
        Err(_) => Err(UserError::InternalError),
        Ok(hashed_password) => {
            let id = fresh_id();
            let ghost before = store@;
            let ghost hashed = hashed_password@;
            let r = insert_user(store, new_user, hashed_password, id);
            assert((store@, r) == insert_user_outcome(before, new_user_row(new_user, hashed, id)));
            r
        },
    }
}

/// Opens the session `connection_id` for the identity `id` at the time
/// `now`, ending the sessions of that identity that were live.
pub fn open_connection(store: &mut Store, id: u128, connection_id: u128, now: i64) -> (r: Result<
    u128,
    UserError,
>)
    ensures
        final(store)@.wf(),
        (final(store)@, r) == open_connection_outcome(old(store)@, id, connection_id, now),
{
    proof {
        use_type_invariant(&*store);
    }
    let ghost before = store@;
    if store.user_index(id).is_none() {
        return Err(UserError::UserNotFound);
    }
    if store.connection_index(connection_id).is_some() {
        return Err(UserError::InternalError);
    }
    let mut rows: Vec<ConnectionModel> = Vec::new();
    proof {
        before.lemma_rows_taken_out(rows_view(store.users@, store.roles@, rows@));
    }
    std::mem::swap(&mut rows, &mut store.connections);
    let n = rows.len();
    let mut i: usize = 0;
    while i < n
        invariant
            i <= n,
            n == before.connections.len(),
            rows@.len() == n,
            forall|k: int|
                0 <= k < i ==> #[trigger] rows@[k] == before.connections[k].superseded(id, now),
            forall|k: int| i <= k < n ==> #[trigger] rows@[k] == before.connections[k],
        decreases n - i,
    {
        let current = rows[i];
        if current.id_user == id && current.ended_at.is_none() {
            rows.set(
                i,
                ConnectionModel {
                    id_connection: current.id_connection,
                    id_user: current.id_user,
                    connect_at: current.connect_at,
                    ended_at: Some(now),
                },
            );
        }
        i += 1;
    }
    rows.push(
        ConnectionModel {
            id_connection: connection_id,
            id_user: id,
            connect_at: Some(now),
            ended_at: None,
        },
    );
    proof {
        let after = rows_view(store.users@, store.roles@, rows@);
        assert(after.connections =~= before.with_connection(id, connection_id, now).connections);
        assert(after.users =~= before.users);
        assert(after.roles =~= before.roles);
        before.lemma_with_connection(id, connection_id, now);
        assert(after == before.with_connection(id, connection_id, now));
    }
    store.connections = rows;
    Ok(connection_id)
}

/// Opens a session for the identity `id` under a fresh id, at the time that
/// the clock shows. The store changes only on success.
pub fn generate_new_connection(store: &mut Store, id: u128) -> (r: Result<u128, UserError>)
    ensures
        final(store)@.wf(),
        exists|connection_id: u128, now: i64|
            marked_random(connection_id) && clock_reading(now) && (final(store)@, r)
                == #[trigger] open_connection_outcome(old(store)@, id, connection_id, now),
{
    let connection_id = fresh_id();
    let now = unix_now();
    let ghost before = store@;
    let r = open_connection(store, id, connection_id, now);
    assert((store@, r) == open_connection_outcome(before, id, connection_id, now));
    r
}

/// Decides a login attempt for `email`, given the answer of the password
/// check against the hash stored for it.
pub fn login_with_verdict(store: &Store, email: &String, verdict: Option<bool>) -> (r: Result<
    (RLUser, RLRole),
    UserError,
>)
    ensures
        login_rows(r) == credentials_outcome(store@, email@, verdict),
{
    proof {
        use_type_invariant(store);
    }
    match store.email_index(email) {
        None => Err(UserError::InvalidCredentials),
        Some(i) => {
            proof {
                store@.lemma_user_by_email(i as int);
            }
            match verdict {
                Some(true) => {
                    match store.role_index(store.users[i].id_role) {
                        None => Err(UserError::InternalError),
                        Some(k) => {
                            proof {
                                store@.lemma_role(k as int);
                            }
                            Ok((store.users[i].duplicate(), store.roles[k].duplicate()))
                        },
                    }
                },
                _ => Err(UserError::InvalidCredentials),
            }
        },
    }
}

/// Verifies the credentials of a login attempt and gives the identity with
/// its role. An unknown address and a wrong password are refused alike.
pub fn login(store: &Store, email_login: String, password_login: String) -> (r: Result<
    (RLUser, RLRole),
    UserError,
>)
    ensures
        login_rows(r) == login_outcome(store@, email_login@, password_login@),
{
    proof {
        use_type_invariant(store);
    }
    match store.email_index(&email_login) {
        None => Err(UserError::InvalidCredentials),
        Some(i) => {
            proof {
                store@.lemma_user_by_email(i as int);
            }
            let verdict = match check_password(
                password_login.as_str(),
                store.users[i].password.as_str(),
            ) {
                Ok(accepted) => Some(accepted),
                Err(_) => None,
            };
            login_with_verdict(store, &email_login, verdict)
        },
    }
}

/// The role of the identity `user`.
pub fn role_of(store: &Store, user: u128) -> (r: Result<RLRole, UserError>)
    ensures
        role_row(r) == role_outcome(store@, user),
{
    proof {
        use_type_invariant(store);
    }
    match store.user_index(user) {
        None => Err(UserError::UserNotFound),
        Some(i) => {
            proof {
                store@.lemma_user(i as int);
            }
            match store.role_index(store.users[i].id_role) {
                None => Err(UserError::InternalError),
                Some(k) => {
                    proof {
                        store@.lemma_role(k as int);
                    }
                    Ok(store.roles[k].duplicate())
                },
            }
        },
    }
}

/// The role of the identity whose id `user_id` writes.
pub fn get_role_by_user_id(store: &Store, user_id: String) -> (r: Result<RLRole, UserError>)
    ensures
        role_row(r) == role_by_text_outcome(store@, uuid_parsed(user_id@)),
{
    match parse_id(user_id.as_str()) {
        Err(_) => Err(UserError::InternalError),
        Ok(user) => role_of(store, user),
    }
}

/// Whether `connection_id` is a live session of `user_id`. A session that
/// the store does not hold is not live.
pub fn is_live(store: &Store, user_id: u128, connection_id: u128) -> (r: bool)
    ensures
        r == store@.is_live(user_id, connection_id),
{
    let mut i: usize = 0;
    while i < store.connections.len()
        invariant
            i <= store.connections@.len(),
            forall|k: int|
                0 <= k < i ==> !((#[trigger] store@.connections[k]).id_connection == connection_id
                    && store@.connections[k].id_user == user_id && store@.connections[k].live()),
        decreases store.connections@.len() - i,
    {
        let current = store.connections[i];
        if current.id_connection == connection_id && current.id_user == user_id
            && current.ended_at.is_none() {
            return true;
        }
        i += 1;
    }
    false
}

/// Accepts a session that is live, and refuses every other with
/// `ExpiredToken`.
pub fn validate_connection(store: &Store, user_id: u128, connection_id: u128) -> (r: Result<
    (),
    UserError,
>)
    ensures
        r is Ok <==> store@.is_live(user_id, connection_id),
        r matches Err(e) ==> e == UserError::ExpiredToken,
{
    if is_live(store, user_id, connection_id) {
        Ok(())
    } else {
        Err(UserError::ExpiredToken)
    }
}

} // verus!
