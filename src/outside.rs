use vstd::prelude::*;

use crate::record::{Timestamp, is_bcrypt_hash, uuid_variant, uuid_version};

verus! {

#[verifier::external_type_specification]
#[verifier::external_body]
pub struct ExBcryptError(bcrypt::BcryptError);

/// Relies on bcrypt::hash: a work factor outside 4..=31 is an error; a hash
/// is a 60-character string in the `$2b$` format. The salt is random, so
/// nothing more is known of the result.
#[verifier::external_body]
pub(crate) fn hash_password(password: &str, cost: u32) -> (r: Result<String, bcrypt::BcryptError>)
    ensures
        cost < 4 || cost > 31 ==> r is Err,
        r matches Ok(h) ==> is_bcrypt_hash(h@),
{
    bcrypt::hash(password, cost)
}

/// Relies on uuid::Uuid::new_v4 and Uuid::as_u128: a random UUID whose
/// version is 4 and whose variant is the RFC one.
#[verifier::external_body]
pub(crate) fn new_user_id() -> (r: u128)
    ensures
        uuid_version(r) == 4,
        uuid_variant(r) == 2,
{
    uuid::Uuid::new_v4().as_u128()
}

/// Relies on chrono::Utc::now and DateTime::timestamp_micros: the current
/// UTC instant. Nothing is known of its value.
#[verifier::external_body]
pub(crate) fn current_time() -> (r: Timestamp) {
    Timestamp { micros: chrono::Utc::now().timestamp_micros() }
}

} // verus!
