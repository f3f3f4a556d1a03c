use vstd::prelude::*;

use crate::record::{StoreError, User, UserView};

verus! {

/// Some row of `rows` has email `e`.
pub open spec fn has_email(rows: Seq<UserView>, e: Seq<char>) -> bool {
    exists|i: int| 0 <= i < rows.len() && (#[trigger] rows[i]).email == e
}

/// Some row of `rows` has id `id`.
pub open spec fn has_id(rows: Seq<UserView>, id: u128) -> bool {
    exists|i: int| 0 <= i < rows.len() && (#[trigger] rows[i]).id == id
}

/// Row `i` is the first row of `rows` with email `e`.
pub open spec fn is_first_with_email(rows: Seq<UserView>, e: Seq<char>, i: int) -> bool {
    &&& 0 <= i < rows.len()
    &&& rows[i].email == e
    &&& forall|j: int| 0 <= j < i ==> (#[trigger] rows[j]).email != e
}

/// The first row of `rows` with email `e`, if there is one.
pub open spec fn lookup(rows: Seq<UserView>, e: Seq<char>) -> Option<UserView> {
    if exists|i: int| is_first_with_email(rows, e, i) {
        Some(rows[choose|i: int| is_first_with_email(rows, e, i)])
    } else {
        None
    }
}

/// `rows` without every row whose email is `e`, the others kept in order.
pub open spec fn remove_email(rows: Seq<UserView>, e: Seq<char>) -> Seq<UserView> {
    rows.filter(|u: UserView| u.email != e)
}

/// The invariant of the relation: ids and emails are unique, and no row was
/// updated before it was created.
pub open spec fn rows_wf(rows: Seq<UserView>) -> bool {
    &&& forall|i: int, j: int|
        0 <= i < rows.len() && 0 <= j < rows.len() && i != j ==> (#[trigger] rows[i]).id
            != (#[trigger] rows[j]).id
    &&& forall|i: int, j: int|
        0 <= i < rows.len() && 0 <= j < rows.len() && i != j ==> (#[trigger] rows[i]).email
            != (#[trigger] rows[j]).email
    &&& forall|i: int|
        0 <= i < rows.len() ==> (#[trigger] rows[i]).created_at.micros
            <= rows[i].updated_at.micros
}

/// The first row with email `e` exists exactly when some row has that email.
pub proof fn lemma_lookup_some_iff_has_email(rows: Seq<UserView>, e: Seq<char>)
    ensures
        lookup(rows, e) is Some <==> has_email(rows, e),
        lookup(rows, e) matches Some(u) ==> u.email == e,
{
    if has_email(rows, e) {
        let k = choose|k: int| 0 <= k < rows.len() && (#[trigger] rows[k]).email == e;
        lemma_first_exists(rows, e, k);
    }
    if exists|i: int| is_first_with_email(rows, e, i) {
        let i = choose|i: int| is_first_with_email(rows, e, i);
        assert(rows[i].email == e);
    }
}

/// Below a row with email `e` stands a first such row.
proof fn lemma_first_exists(rows: Seq<UserView>, e: Seq<char>, k: int)
    requires
        0 <= k < rows.len(),
        rows[k].email == e,
    ensures
        exists|i: int| is_first_with_email(rows, e, i),
    decreases k,
{
    if exists|j: int| 0 <= j < k && (#[trigger] rows[j]).email == e {
        let j = choose|j: int| 0 <= j < k && (#[trigger] rows[j]).email == e;
        lemma_first_exists(rows, e, j);
    } else {
        assert(is_first_with_email(rows, e, k));
    }
}

/// The first row with a given email is unique.
pub proof fn lemma_first_unique(rows: Seq<UserView>, e: Seq<char>, i: int)
    requires
        is_first_with_email(rows, e, i),
    ensures
        lookup(rows, e) == Some(rows[i]),
{
    let c = choose|c: int| is_first_with_email(rows, e, c);
    if c < i {
        assert(rows[c].email != e);
    } else if i < c {
        assert(rows[i].email != e);
    }
}

/// Removing the rows with one email keeps the invariant of the relation.
pub proof fn lemma_remove_email_wf(rows: Seq<UserView>, e: Seq<char>)
    requires
        rows_wf(rows),
    ensures
        rows_wf(remove_email(rows, e)),
        forall|k: int|
            0 <= k < remove_email(rows, e).len() ==> rows.contains(
                #[trigger] remove_email(rows, e)[k],
            ),
    decreases rows.len(),
{
    broadcast use Seq::lemma_filter_contains_rev;

    reveal(Seq::filter);
    if rows.len() > 0 {
        let init = rows.drop_last();
        assert forall|i: int, j: int|
            0 <= i < init.len() && 0 <= j < init.len() && i != j implies (#[trigger] init[i]).id
                != (#[trigger] init[j]).id && init[i].email != init[j].email by {
            assert(init[i] == rows[i] && init[j] == rows[j]);
        }
        assert forall|i: int| 0 <= i < init.len() implies (#[trigger] init[i]).created_at.micros
            <= init[i].updated_at.micros by {
            assert(init[i] == rows[i]);
        }
        lemma_remove_email_wf(init, e);
        let sub = remove_email(init, e);
        let last = rows.last();
        assert forall|k: int| 0 <= k < sub.len() implies (#[trigger] sub[k]).id != last.id
            && sub[k].email != last.email && rows.contains(sub[k]) by {
            assert(init.contains(sub[k]));
            let j = choose|j: int| 0 <= j < init.len() && init[j] == sub[k];
            assert(rows[j] == init[j]);
            assert(rows[rows.len() - 1] == last);
        }
        if last.email != e {
            let out = sub.push(last);
            assert(remove_email(rows, e) == out);
            assert forall|k: int| 0 <= k < out.len() implies rows.contains(#[trigger] out[k]) by {
                if k == out.len() - 1 {
                    assert(rows[rows.len() - 1] == out[k]);
                } else {
                    assert(out[k] == sub[k]);
                }
            }
            assert forall|i: int, j: int|
                0 <= i < out.len() && 0 <= j < out.len() && i != j implies (#[trigger] out[i]).id
                    != (#[trigger] out[j]).id && out[i].email != out[j].email by {
                if i < sub.len() {
                    assert(out[i] == sub[i]);
                }
                if j < sub.len() {
                    assert(out[j] == sub[j]);
                }
            }
            assert forall|i: int| 0 <= i < out.len() implies (#[trigger] out[i]).created_at.micros
                <= out[i].updated_at.micros by {
                if i < sub.len() {
                    assert(out[i] == sub[i]);
                } else {
                    assert(rows[rows.len() - 1] == out[i]);
                }
            }
        } else {
            assert(remove_email(rows, e) == sub);
            assert forall|k: int| 0 <= k < sub.len() implies rows.contains(#[trigger] sub[k]) by {
                let j = choose|j: int| 0 <= j < init.len() && init[j] == sub[k];
                assert(rows[j] == init[j]);
            }
        }
    }
}

/// The `users` relation, held in memory: the rows in order of insertion.
pub struct UserStore {
    rows: Vec<User>,
    hash_cost: u32,
}

/// The bcrypt work factor used unless another is chosen.
pub const DEFAULT_HASH_COST: u32 = 12;

impl UserStore {
    /// The rows, as values.
    pub closed spec fn rows(&self) -> Seq<UserView> {
        self.rows@.map_values(|u: User| u@)
    }

    /// The bcrypt work factor that new passwords are hashed with.
    pub closed spec fn spec_hash_cost(&self) -> u32 {
        self.hash_cost
    }

    pub open spec fn wf(&self) -> bool {
        rows_wf(self.rows())
    }

    /// An empty store that hashes with the default work factor.
    pub fn new() -> (r: UserStore)
        ensures
            r.wf(),
            r.rows() == Seq::<UserView>::empty(),
            r.spec_hash_cost() == DEFAULT_HASH_COST,
    {
        let r = UserStore { rows: Vec::new(), hash_cost: DEFAULT_HASH_COST };
        assert(r.rows() =~= Seq::<UserView>::empty());
        r
    }

    /// An empty store that hashes with work factor `cost`.
    pub fn with_hash_cost(cost: u32) -> (r: UserStore)
        ensures
            r.wf(),
            r.rows() == Seq::<UserView>::empty(),
            r.spec_hash_cost() == cost,
    {
        let r = UserStore { rows: Vec::new(), hash_cost: cost };
        assert(r.rows() =~= Seq::<UserView>::empty());
        r
    }

    /// The bcrypt work factor that new passwords are hashed with.
    pub fn hash_cost(&self) -> (r: u32)
        ensures
            r == self.spec_hash_cost(),
    {
        self.hash_cost
    }

    /// The index of the first row with email `e`, if any.
    fn position_of_email(&self, e: &String) -> (r: Option<usize>)
        ensures
            match r {
                Some(i) => is_first_with_email(self.rows(), e@, i as int),
                None => !has_email(self.rows(), e@),
            },
    {
        let mut i: usize = 0;
        while i < self.rows.len()
            invariant
                0 <= i <= self.rows@.len(),
                forall|j: int| 0 <= j < i ==> (#[trigger] self.rows()[j]).email != e@,
            decreases self.rows@.len() - i,
        {
            if self.rows[i].email == *e {
                return Some(i);
            }
            i = i + 1;
        }
        None
    }

    /// Whether some row has id `id`.
    fn contains_id(&self, id: u128) -> (r: bool)
        ensures
            r == has_id(self.rows(), id),
    {
        let mut i: usize = 0;
        while i < self.rows.len()
            invariant
                0 <= i <= self.rows@.len(),
                forall|j: int| 0 <= j < i ==> (#[trigger] self.rows()[j]).id != id,
            decreases self.rows@.len() - i,
        {
            if self.rows[i].id == id {
                assert(self.rows()[i as int].id == id);
                return true;
            }
            i = i + 1;
        }
        false
    }

    /// Inserts `user` as a new row, unless a row with its id, or else one
    /// with its email, is already there.
    pub fn insert(&mut self, user: User) -> (r: Result<(), StoreError>)
        requires
            old(self).wf(),
            user@.created_at.micros <= user@.updated_at.micros,
        ensures
            final(self).wf(),
            final(self).spec_hash_cost() == old(self).spec_hash_cost(),
            has_id(old(self).rows(), user@.id) ==> r == Err::<(), StoreError>(
                StoreError::DuplicateId,
            ) && final(self).rows() == old(self).rows(),
            !has_id(old(self).rows(), user@.id) && has_email(old(self).rows(), user@.email) ==> r
                == Err::<(), StoreError>(StoreError::DuplicateEmail) && final(self).rows() == old(
                self,
            ).rows(),
            !has_id(old(self).rows(), user@.id) && !has_email(old(self).rows(), user@.email) ==> r
                is Ok && final(self).rows() == old(self).rows().push(user@),
    {
        if self.contains_id(user.id) {
            return Err(StoreError::DuplicateId);
        }
        match self.position_of_email(&user.email) {
            Some(_) => Err(StoreError::DuplicateEmail),
            None => {
                let ghost before = self.rows();
                let ghost u = user@;
                self.rows.push(user);
                assert(self.rows() =~= before.push(u));
                assert forall|i: int| 0 <= i < before.len() implies (#[trigger] before[i]).id
                    != u.id && before[i].email != u.email by {}
                Ok(())
            }
        }
    }

    /// The first row with email `e`, if any.
    pub fn find_by_email(&self, e: &String) -> (r: Option<User>)
        requires
            self.wf(),
        ensures
            match r {
                Some(u) => lookup(self.rows(), e@) == Some(u@),
                None => lookup(self.rows(), e@) is None,
            },
    {
        proof {
            lemma_lookup_some_iff_has_email(self.rows(), e@);
        }
        match self.position_of_email(e) {
            Some(i) => {
                proof {
                    lemma_first_unique(self.rows(), e@, i as int);
                }
                Some(self.rows[i].duplicate())
            },
            None => None,
        }
    }

    /// Removes every row with email `e`, keeping the others in order.
    pub fn remove_by_email(&mut self, e: &String)
        requires
            old(self).wf(),
        ensures
            final(self).wf(),
            final(self).spec_hash_cost() == old(self).spec_hash_cost(),
            final(self).rows() == remove_email(old(self).rows(), e@),
    {
        let ghost rows = self.rows();
        let mut kept: Vec<User> = Vec::new();
        let mut i: usize = 0;
        while i < self.rows.len()
            invariant
                0 <= i <= self.rows@.len(),
                self.rows() == rows,
                kept@.map_values(|u: User| u@) == remove_email(rows.subrange(0, i as int), e@),
            decreases self.rows@.len() - i,
        {
            let ghost before = kept@.map_values(|u: User| u@);
            proof {
                reveal(Seq::filter);
                assert(rows.subrange(0, i + 1).drop_last() =~= rows.subrange(0, i as int));
            }
            if self.rows[i].email != *e {
                kept.push(self.rows[i].duplicate());
                assert(kept@.map_values(|u: User| u@) =~= before.push(rows[i as int]));
            }
            i = i + 1;
        }
        assert(rows.subrange(0, i as int) =~= rows);
        self.rows = kept;
        proof {
            lemma_remove_email_wf(rows, e@);
        }
    }

    /// The number of rows.
    pub fn len(&self) -> (r: usize)
        ensures
            r == self.rows().len(),
    {
        self.rows.len()
    }
}

} // verus!
