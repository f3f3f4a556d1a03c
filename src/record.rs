use vstd::prelude::*;

verus! {

/// A UTC instant, as microseconds since the Unix epoch.
#[derive(Clone, Copy, Debug, PartialEq, Eq, Structural)]
pub struct Timestamp {
    pub micros: i64,
}

/// Input for creating an account. The password is plaintext and is only
/// ever hashed, never stored.
#[derive(Clone, Debug, PartialEq, Eq)]
pub struct CreateUser {
    pub full_name: String,
    pub email: String,
    pub password: String,
}

/// The abstract value of a `CreateUser`.
pub struct CreateUserView {
    pub full_name: Seq<char>,
    pub email: Seq<char>,
    pub password: Seq<char>,
}

impl View for CreateUser {
    type V = CreateUserView;

    open spec fn view(&self) -> CreateUserView {
        CreateUserView {
            full_name: self.full_name@,
            email: self.email@,
            password: self.password@,
        }
    }
}

/// A persisted account. `id` is the 128-bit value of a version-4 UUID;
/// `password` holds a bcrypt hash.
#[derive(Clone, Debug, PartialEq, Eq)]
pub struct User {
    pub id: u128,
    pub full_name: String,
    pub email: String,
    pub password: String,
    pub created_at: Timestamp,
    pub updated_at: Timestamp,
}

/// The abstract value of a `User`: one row of the `users` relation.
pub struct UserView {
    pub id: u128,
    pub full_name: Seq<char>,
    pub email: Seq<char>,
    pub password: Seq<char>,
    pub created_at: Timestamp,
    pub updated_at: Timestamp,
}

impl View for User {
    type V = UserView;

    open spec fn view(&self) -> UserView {
        UserView {
            id: self.id,
            full_name: self.full_name@,
            email: self.email@,
            password: self.password@,
            created_at: self.created_at,
            updated_at: self.updated_at,
        }
    }
}

/// Why the store refused an insert.
#[derive(Clone, Copy, Debug, PartialEq, Eq, Structural)]
pub enum StoreError {
    /// A row with the same id already exists.
    DuplicateId,
    /// A row with the same email already exists.
    DuplicateEmail,
}

/// The errors of the account operations.
#[derive(Clone, Copy, Debug, PartialEq, Eq, Structural)]
pub enum UserError {
    /// The password could not be hashed.
    Hashing,
    /// No account has the given email.
    NotFound,
    /// The store refused the write.
    Persistence(StoreError),
}

/// What bcrypt's `hash` yields in the `2b` format: 60 characters that start
/// with `$2b$`.
pub open spec fn is_bcrypt_hash(h: Seq<char>) -> bool {
    &&& h.len() == 60
    &&& h[0] == '$'
    &&& h[1] == '2'
    &&& h[2] == 'b'
    &&& h[3] == '$'
}

/// The version nibble of a 128-bit UUID value.
pub open spec fn uuid_version(v: u128) -> u128 {
    (v >> 76u128) & 0xfu128
}

/// The two variant bits of a 128-bit UUID value.
pub open spec fn uuid_variant(v: u128) -> u128 {
    (v >> 62u128) & 0x3u128
}

/// `u` is the record built from `data`: name and email copied, a bcrypt
/// hash in place of the password, both timestamps equal.
pub open spec fn is_record_for(u: UserView, data: CreateUserView) -> bool {
    &&& u.full_name == data.full_name
    &&& u.email == data.email
    &&& is_bcrypt_hash(u.password)
    &&& u.created_at == u.updated_at
}

impl User {
    /// Builds the record for `data` from a fresh id, the hash of its password
    /// and the instant of creation.
    pub fn new_record(data: &CreateUser, id: u128, password_hash: String, now: Timestamp) -> (r: User)
        ensures
            r@.id == id,
            r@.full_name == data@.full_name,
            r@.email == data@.email,
            r@.password == password_hash@,
            r@.created_at == now,
            r@.updated_at == now,
    {
        User {
            id,
            full_name: data.full_name.clone(),
            email: data.email.clone(),
            password: password_hash,
            created_at: now,
            updated_at: now,
        }
    }

    /// A copy of this record with the same value.
    pub fn duplicate(&self) -> (r: User)
        ensures
            r@ == self@,
    {
        User {
            id: self.id,
            full_name: self.full_name.clone(),
            email: self.email.clone(),
            password: self.password.clone(),
            created_at: self.created_at,
            updated_at: self.updated_at,
        }
    }
}

} // verus!
