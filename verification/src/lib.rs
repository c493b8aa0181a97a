//! An in-memory credential store. It registers users by username and
//! password, authenticates a username/password pair to the user's durable
//! identity token, and deletes users by that token. Passwords are stored only
//! as salted, one-way digests; identity tokens are random and unique across
//! the store.

pub mod errors;
pub mod hashing;
pub mod laws;
pub mod model;
pub mod store;
mod token;

pub use errors::AuthError;
pub use store::{User, Users, UsersImpl};
