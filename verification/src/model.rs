//! The rows of the store: identities, roles and sessions.

use vstd::prelude::*;

verus! {

/// A registered identity.
#[derive(Debug, Clone, PartialEq, Eq)]
pub struct RLUser {
    pub id_user: u128,
    pub email: String,
    pub nickname: String,
    /// The hash of the password, never the password.
    pub password: String,
    pub id_role: i32,
}

/// What an `RLUser` holds.
pub struct UserRow {
    pub id_user: u128,
    pub email: Seq<char>,
    pub nickname: Seq<char>,
    pub password: Seq<char>,
    pub id_role: i32,
}

impl View for RLUser {
    type V = UserRow;

    open spec fn view(&self) -> UserRow {
        UserRow {
            id_user: self.id_user,
            email: self.email@,
            nickname: self.nickname@,
            password: self.password@,
            id_role: self.id_role,
        }
    }
}

impl RLUser {
    /// A copy of the row.
    pub fn duplicate(&self) -> (r: RLUser)
        ensures
            r == *self,
    {
        RLUser {
            id_user: self.id_user,
            email: self.email.clone(),
            nickname: self.nickname.clone(),
            password: self.password.clone(),
            id_role: self.id_role,
        }
    }
}

/// A role that an identity can have.
#[derive(Debug, Clone, PartialEq, Eq)]
pub struct RLRole {
    pub id_role: i32,
    pub description: String,
}

/// What an `RLRole` holds.
pub struct RoleRow {
    pub id_role: i32,
    pub description: Seq<char>,
}

impl View for RLRole {
    type V = RoleRow;

    open spec fn view(&self) -> RoleRow {
        RoleRow { id_role: self.id_role, description: self.description@ }
    }
}

impl RLRole {
    /// A copy of the row.
    pub fn duplicate(&self) -> (r: RLRole)
        ensures
            r == *self,
    {
        RLRole { id_role: self.id_role, description: self.description.clone() }
    }
}

/// A session of an identity. Times are seconds since the Unix epoch; a
/// session is live for as long as `ended_at` is `None`.
#[derive(Debug, Clone, Copy, PartialEq, Eq)]
pub struct ConnectionModel {
    pub id_connection: u128,
    pub id_user: u128,
    pub connect_at: Option<i64>,
    pub ended_at: Option<i64>,
}

impl ConnectionModel {
    /// The session is live: nothing has ended it.
    pub open spec fn live(self) -> bool {
        self.ended_at is None
    }

    /// The session as it is once a session opened at `now` for `user` has
    /// superseded it: ended at `now` if it was a live session of `user`, and
    /// unchanged otherwise.
    pub open spec fn superseded(self, user: u128, now: i64) -> ConnectionModel {
        if self.id_user == user && self.live() {
            ConnectionModel { ended_at: Some(now), ..self }
        } else {
            self
        }
    }

    /// A session of `user` that is opened at `now` and live.
    pub open spec fn opened(id: u128, user: u128, now: i64) -> ConnectionModel {
        ConnectionModel { id_connection: id, id_user: user, connect_at: Some(now), ended_at: None }
    }
}

} // verus!
