//! User-account persistence: create a user with a bcrypt-hashed password,
//! look a user up by email, delete a user by email.

mod outside;

pub mod laws;
pub mod record;
pub mod store;
pub mod user;

pub use record::{CreateUser, StoreError, Timestamp, User, UserError};
pub use store::{DEFAULT_HASH_COST, UserStore};
