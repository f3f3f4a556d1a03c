use vstd::prelude::*;

use crate::record::{CreateUserView, UserView, is_bcrypt_hash, is_record_for};
use crate::store::{
    has_email,
    is_first_with_email,
    lemma_first_unique,
    lemma_lookup_some_iff_has_email,
    lookup,
    remove_email,
    rows_wf,
};

verus! {

/// A user that `add_user` created from `data` is what a lookup by the same
/// email then finds: name and email as given, and a stored password that
/// differs from the plaintext (unless the plaintext is itself a bcrypt hash
/// string).
pub proof fn lemma_added_user_is_found(before: Seq<UserView>, data: CreateUserView, u: UserView)
    requires
        rows_wf(before),
        is_record_for(u, data),
        !has_email(before, data.email),
        !is_bcrypt_hash(data.password),
    ensures
        lookup(before.push(u), data.email) == Some(u),
        u.full_name == data.full_name,
        u.email == data.email,
        u.password != data.password,
{
    let after = before.push(u);
    let i = before.len() as int;
    assert forall|j: int| 0 <= j < i implies (#[trigger] after[j]).email != data.email by {
        assert(after[j] == before[j]);
    }
    assert(is_first_with_email(after, data.email, i));
    lemma_first_unique(after, data.email, i);
}

/// An email that no row holds is not found. Rows come only from `add_user`,
/// so this is the case of every email never passed to it.
pub proof fn lemma_unknown_email_not_found(rows: Seq<UserView>, e: Seq<char>)
    requires
        !has_email(rows, e),
    ensures
        lookup(rows, e) is None,
{
    lemma_lookup_some_iff_has_email(rows, e);
}

/// Once the rows with an email are removed, a lookup of that email finds
/// nothing; so a second `delete_user` of the same email returns `NotFound`.
pub proof fn lemma_removed_email_not_found(rows: Seq<UserView>, e: Seq<char>)
    ensures
        lookup(remove_email(rows, e), e) is None,
{
    broadcast use Seq::lemma_filter_pred;

    let after = remove_email(rows, e);
    assert forall|i: int| 0 <= i < after.len() implies (#[trigger] after[i]).email != e by {}
    lemma_unknown_email_not_found(after, e);
}

/// After `add_user` inserted `u` and `delete_user` removed its email, a
/// lookup of that email finds nothing.
pub proof fn lemma_added_then_deleted_not_found(before: Seq<UserView>, u: UserView)
    ensures
        lookup(remove_email(before.push(u), u.email), u.email) is None,
{
    lemma_removed_email_not_found(before.push(u), u.email);
}

} // verus!
