use vstd::prelude::*;

use crate::outside::{current_time, hash_password, new_user_id};
use crate::record::{
    CreateUser,
    StoreError,
    User,
    UserError,
    is_record_for,
    uuid_variant,
    uuid_version,
};
use crate::store::{UserStore, has_email, has_id, lookup, remove_email};

verus! {

impl User {
    /// The record for `data`, not yet stored: a fresh id, the bcrypt hash of
    /// the password at work factor `cost`, and the current instant as both
    /// timestamps. `Hashing` if the password could not be hashed.
    pub fn create_record(data: &CreateUser, cost: u32) -> (r: Result<User, UserError>)
        ensures
            match r {
                Ok(u) => {
                    &&& is_record_for(u@, data@)
                    &&& uuid_version(u@.id) == 4
                    &&& uuid_variant(u@.id) == 2
                },
                Err(e) => e == UserError::Hashing,
            },
            cost < 4 || cost > 31 ==> r is Err,
    {
        let id = new_user_id();
        let now = current_time();
        match hash_password(data.password.as_str(), cost) {
            Ok(h) => Ok(User::new_record(data, id, h, now)),
            Err(_) => Err(UserError::Hashing),
        }
    }

    /// Creates an account: draws a fresh id, hashes the password with the
    /// store's work factor, stamps both timestamps with the current instant,
    /// and inserts the record as one row. Either the row is there with all
    /// fields set, or the store is unchanged.
    pub fn add_user(store: &mut UserStore, data: &CreateUser) -> (r: Result<User, UserError>)
        requires
            old(store).wf(),
        ensures
            final(store).wf(),
            final(store).spec_hash_cost() == old(store).spec_hash_cost(),
            match r {
                Ok(u) => {
                    &&& is_record_for(u@, data@)
                    &&& uuid_version(u@.id) == 4
                    &&& uuid_variant(u@.id) == 2
                    &&& !has_id(old(store).rows(), u@.id)
                    &&& !has_email(old(store).rows(), data@.email)
                    &&& final(store).rows() == old(store).rows().push(u@)
                },
                Err(UserError::NotFound) => false,
                Err(_) => final(store).rows() == old(store).rows(),
            },
            has_email(old(store).rows(), data@.email) ==> r is Err,
            r == Err::<User, UserError>(UserError::Persistence(StoreError::DuplicateEmail))
                ==> has_email(old(store).rows(), data@.email),
            old(store).spec_hash_cost() < 4 || old(store).spec_hash_cost() > 31 ==> r == Err::<
                User,
                UserError,
            >(UserError::Hashing),
    {
        let user = match User::create_record(data, store.hash_cost()) {
            Ok(u) => u,
            Err(e) => {
                return Err(e);
            },
        };
        match store.insert(user.duplicate()) {
            Ok(()) => Ok(user),
            Err(e) => Err(UserError::Persistence(e)),
        }
    }

    /// The account with email `user_email`, compared exactly; `NotFound` if
    /// there is none.
    pub fn find_user_by_email(store: &UserStore, user_email: &str) -> (r: Result<User, UserError>)
        requires
            store.wf(),
        ensures
            match r {
                Ok(u) => lookup(store.rows(), user_email@) == Some(u@),
                Err(e) => e == UserError::NotFound && lookup(store.rows(), user_email@) is None,
            },
    {
        let key = user_email.to_owned();
        match store.find_by_email(&key) {
            Some(u) => Ok(u),
            None => Err(UserError::NotFound),
        }
    }

    /// Deletes the account with email `user_email` and returns its email;
    /// `NotFound`, with the store unchanged, if there is none. The lookup
    /// and the removal happen under one exclusive borrow of the store, so
    /// nothing can come between them.
    pub fn delete_user(store: &mut UserStore, user_email: &str) -> (r: Result<String, UserError>)
        requires
            old(store).wf(),
        ensures
            final(store).wf(),
            final(store).spec_hash_cost() == old(store).spec_hash_cost(),
            match r {
                Ok(s) => {
                    &&& lookup(old(store).rows(), user_email@) is Some
                    &&& s@ == user_email@
                    &&& final(store).rows() == remove_email(old(store).rows(), user_email@)
                },
                Err(e) => {
                    &&& e == UserError::NotFound
                    &&& lookup(old(store).rows(), user_email@) is None
                    &&& final(store).rows() == old(store).rows()
                },
            },
    {
        let key = user_email.to_owned();
        match store.find_by_email(&key) {
            Some(found) => {
                proof {
                    crate::store::lemma_lookup_some_iff_has_email(store.rows(), user_email@);
                }
                store.remove_by_email(&key);
                Ok(found.email)
            },
            None => Err(UserError::NotFound),
        }
    }
}

} // verus!
