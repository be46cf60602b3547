//! Session and token lifecycle for a service in which every identity holds at
//! most one live session: signed claim sets, the session ledger, the three
//! flows that open sessions, and the guard that authorizes a bearer token.

pub mod auth;
pub mod clock;
pub mod config;
pub mod db;
pub mod ident;
pub mod jwt;
pub mod laws;
pub mod model;
pub mod password;
pub mod payload;
pub mod text;
pub mod users;
