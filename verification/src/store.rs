use vstd::prelude::*;
use vstd::string::StringExecFns;

use crate::errors::{ensure_affected, RepoError};
use crate::model::{
    add_mfa_method_next, add_mfa_method_result, clock_has_headroom, create_user_next,
    create_user_result, delete_mfa_method_next, delete_mfa_method_result, delete_user_next,
    delete_user_result, email_taken_by_other, empty_store, fresh_mfa_method, fresh_user,
    get_user_by_email_result, get_user_by_id_result, has_mfa_for_user, has_mfa_with_id,
    has_user_with_email, has_user_with_id, ids_have_headroom, lemma_add_mfa_method_preserves_inv,
    lemma_create_user_preserves_inv, lemma_delete_mfa_method_preserves_inv,
    lemma_delete_user_preserves_inv, lemma_mfa_for_user_sorted, lemma_mfa_index_by_id_first_match,
    lemma_update_user_email_preserves_inv, lemma_user_index_by_email_first_match,
    lemma_user_index_by_id_first_match, lemma_user_index_by_id_in_range, list_mfa_methods_result,
    mfa_for_user, mfa_index_by_id, mfa_list_result_view, mfa_methods_view, mfa_result_view,
    sorted_by_created_at, store_inv, update_user_email_next, update_user_email_result,
    updated_user, user_index_by_email, user_index_by_id, user_result_view, users_view, StoreView,
};
use crate::records::{Timestamp, User, UserMfaMethod, Uuid};

verus! {

/// The users table, the user_mfa_methods table, and the store-side state
/// (identifier supply and clock) they draw on.
///
/// This is the relational store as the repository sees it: every repository
/// operation is a method on this type, and its contract says exactly which
/// rows the operation returns and how it moves the store from one
/// [`StoreView`] to the next.
pub struct StoreState {
    users: Vec<User>,
    mfa_methods: Vec<UserMfaMethod>,
    next_id: u128,
    clock: i64,
}

impl View for StoreState {
    type V = StoreView;

    closed spec fn view(&self) -> StoreView {
        StoreView {
            users: users_view(self.users@),
            mfa_methods: mfa_methods_view(self.mfa_methods@),
            next_id: self.next_id as int,
            clock: self.clock as int,
        }
    }
}

// ---------------------------------------------------------------------------
// Point-lookup scans
// ---------------------------------------------------------------------------

fn find_user_index_by_id(users: &Vec<User>, id: Uuid) -> (r: Option<usize>)
    ensures
        match r {
            Some(i) => {
                &&& has_user_with_id(users_view(users@), id@)
                &&& i == user_index_by_id(users_view(users@), id@)
                &&& i < users@.len()
            },
            None => !has_user_with_id(users_view(users@), id@),
        },
{
    let ghost us = users_view(users@);
    let mut i: usize = 0;
    while i < users.len()
        invariant
            i <= users@.len(),
            us == users_view(users@),
            forall|j: int| 0 <= j < i ==> (#[trigger] us[j]).id != id@,
        decreases users@.len() - i,
    {
        if users[i].id == id {
            proof {
                assert(us[i as int] == users@[i as int]@);
                lemma_user_index_by_id_first_match(us, id@, i as int);
            }
            return Some(i);
        }
        proof {
            assert(us[i as int] == users@[i as int]@);
        }
        i = i + 1;
    }
    proof {
        assert forall|k: int| 0 <= k < us.len() implies (#[trigger] us[k]).id != id@ by {}
        assert(!has_user_with_id(us, id@));
    }
    None
}

fn find_user_index_by_email(users: &Vec<User>, email: &String) -> (r: Option<usize>)
    ensures
        match r {
            Some(i) => {
                &&& has_user_with_email(users_view(users@), email@)
                &&& i == user_index_by_email(users_view(users@), email@)
                &&& i < users@.len()
            },
            None => !has_user_with_email(users_view(users@), email@),
        },
{
    let ghost us = users_view(users@);
    let mut i: usize = 0;
    while i < users.len()
        invariant
            i <= users@.len(),
            us == users_view(users@),
            forall|j: int| 0 <= j < i ==> (#[trigger] us[j]).email != email@,
        decreases users@.len() - i,
    {
        if users[i].email == *email {
            proof {
                assert(us[i as int] == users@[i as int]@);
                lemma_user_index_by_email_first_match(us, email@, i as int);
            }
            return Some(i);
        }
        proof {
            assert(us[i as int] == users@[i as int]@);
        }
        i = i + 1;
    }
    proof {
        assert forall|k: int| 0 <= k < us.len() implies (#[trigger] us[k]).email != email@ by {}
        assert(!has_user_with_email(us, email@));
    }
    None
}

fn find_mfa_index_by_id(methods: &Vec<UserMfaMethod>, id: Uuid) -> (r: Option<usize>)
    ensures
        match r {
            Some(i) => {
                &&& has_mfa_with_id(mfa_methods_view(methods@), id@)
                &&& i == mfa_index_by_id(mfa_methods_view(methods@), id@)
                &&& i < methods@.len()
            },
            None => !has_mfa_with_id(mfa_methods_view(methods@), id@),
        },
{
    let ghost ms = mfa_methods_view(methods@);
    let mut i: usize = 0;
    while i < methods.len()
        invariant
            i <= methods@.len(),
            ms == mfa_methods_view(methods@),
            forall|j: int| 0 <= j < i ==> (#[trigger] ms[j]).id != id@,
        decreases methods@.len() - i,
    {
        if methods[i].id == id {
            proof {
                assert(ms[i as int] == methods@[i as int]@);
                lemma_mfa_index_by_id_first_match(ms, id@, i as int);
            }
            return Some(i);
        }
        proof {
            assert(ms[i as int] == methods@[i as int]@);
        }
        i = i + 1;
    }
    proof {
        assert forall|k: int| 0 <= k < ms.len() implies (#[trigger] ms[k]).id != id@ by {}
        assert(!has_mfa_with_id(ms, id@));
    }
    None
}

fn any_mfa_for_user(methods: &Vec<UserMfaMethod>, user_id: Uuid) -> (r: bool)
    ensures
        r == has_mfa_for_user(mfa_methods_view(methods@), user_id@),
{
    let ghost ms = mfa_methods_view(methods@);
    let mut i: usize = 0;
    while i < methods.len()
        invariant
            i <= methods@.len(),
            ms == mfa_methods_view(methods@),
            forall|j: int| 0 <= j < i ==> (#[trigger] ms[j]).user_id != user_id@,
        decreases methods@.len() - i,
    {
        if methods[i].user_id == user_id {
            proof {
                assert(ms[i as int] == methods@[i as int]@);
                assert(ms[i as int].user_id == user_id@);
                assert(has_mfa_for_user(ms, user_id@));
            }
            return true;
        }
        proof {
            assert(ms[i as int] == methods@[i as int]@);
        }
        i = i + 1;
    }
    proof {
        assert forall|k: int| 0 <= k < ms.len() implies (#[trigger] ms[k]).user_id != user_id@ by {}
        assert(!has_mfa_for_user(ms, user_id@));
    }
    false
}

fn email_taken_by_other_exec(users: &Vec<User>, id: Uuid, email: &String) -> (r: bool)
    ensures
        r == email_taken_by_other(users_view(users@), id@, email@),
{
    let ghost us = users_view(users@);
    let mut i: usize = 0;
    while i < users.len()
        invariant
            i <= users@.len(),
            us == users_view(users@),
            forall|j: int|
                0 <= j < i ==> !((#[trigger] us[j]).id != id@ && us[j].email == email@),
        decreases users@.len() - i,
    {
        let other = !(users[i].id == id);
        if other && users[i].email == *email {
            proof {
                assert(us[i as int] == users@[i as int]@);
                assert(us[i as int].id != id@);
                assert(us[i as int].email == email@);
                assert(email_taken_by_other(us, id@, email@));
            }
            return true;
        }
        proof {
            assert(us[i as int] == users@[i as int]@);
        }
        i = i + 1;
    }
    proof {
        assert forall|k: int| 0 <= k < us.len() implies !((#[trigger] us[k]).id != id@ && us[k].email
            == email@) by {}
        assert(!email_taken_by_other(us, id@, email@));
    }
    false
}

// ---------------------------------------------------------------------------
// The repository operations
// ---------------------------------------------------------------------------

impl StoreState {
    /// A store before any row was inserted.
    pub fn new() -> (s: StoreState)
        ensures
            s@ == empty_store(),
            store_inv(s@),
    {
        let s = StoreState { users: Vec::new(), mfa_methods: Vec::new(), next_id: 1, clock: 0 };
        proof {
            assert(s@ =~= empty_store());
        }
        s
    }

    /// An exact copy of the store, for use as the pending state of a
    /// transaction.
    pub fn snapshot(&self) -> (r: StoreState)
        ensures
            r@ == self@,
    {
        let mut users: Vec<User> = Vec::new();
        let mut i: usize = 0;
        while i < self.users.len()
            invariant
                i <= self.users@.len(),
                users@.len() == i,
                forall|j: int| 0 <= j < i ==> users@[j] == self.users@[j],
            decreases self.users@.len() - i,
        {
            users.push(self.users[i].clone());
            i = i + 1;
        }
        let mut mfa_methods: Vec<UserMfaMethod> = Vec::new();
        let mut k: usize = 0;
        while k < self.mfa_methods.len()
            invariant
                k <= self.mfa_methods@.len(),
                mfa_methods@.len() == k,
                forall|j: int| 0 <= j < k ==> mfa_methods@[j] == self.mfa_methods@[j],
            decreases self.mfa_methods@.len() - k,
        {
            mfa_methods.push(self.mfa_methods[k].clone());
            k = k + 1;
        }
        let r = StoreState { users, mfa_methods, next_id: self.next_id, clock: self.clock };
        proof {
            assert(r.users@ =~= self.users@);
            assert(r.mfa_methods@ =~= self.mfa_methods@);
            assert(r@ =~= self@);
        }
        r
    }

    /// The insert behind `create_user`, executable against the store directly
    /// or against the pending state of an open transaction.
    pub(crate) fn insert_user_core(&mut self, email: &str) -> (r: Result<User, RepoError>)
        requires
            store_inv(old(self)@),
            clock_has_headroom(old(self)@, 1),
            ids_have_headroom(old(self)@, 1),
        ensures
            store_inv(final(self)@),
            user_result_view(r) == create_user_result(old(self)@, email@),
            final(self)@ == create_user_next(old(self)@, email@),
    {
        let key: String = String::from_str(email);
        if let Some(_dup) = find_user_index_by_email(&self.users, &key) {
            return Err(RepoError::ConstraintViolation);
        }
        let id = Uuid { value: self.next_id };
        let now = Timestamp { micros: self.clock + 1 };
        let row = User { id, email: key, created_at: now, updated_at: now };
        let ghost rv = row@;
        let returned = row.clone();
        self.users.push(row);
        self.next_id = self.next_id + 1;
        self.clock = self.clock + 1;
        proof {
            assert(rv == fresh_user(old(self)@, email@));
            assert(self@.users =~= old(self)@.users.push(rv));
            assert(self@ =~= create_user_next(old(self)@, email@));
            lemma_create_user_preserves_inv(old(self)@, email@);
        }
        Ok(returned)
    }

    /// The insert behind `add_mfa_method`, executable against the store
    /// directly or against the pending state of an open transaction.
    pub(crate) fn insert_mfa_core(&mut self, user_id: Uuid, kind: &str, secret: &str) -> (r: Result<
        UserMfaMethod,
        RepoError,
    >)
        requires
            store_inv(old(self)@),
            clock_has_headroom(old(self)@, 1),
            ids_have_headroom(old(self)@, 1),
        ensures
            store_inv(final(self)@),
            mfa_result_view(r) == add_mfa_method_result(old(self)@, user_id@, kind@, secret@),
            final(self)@ == add_mfa_method_next(old(self)@, user_id@, kind@, secret@),
    {
        if find_user_index_by_id(&self.users, user_id).is_none() {
            // The foreign key would dangle; the store rejects the insert.
            return Err(RepoError::ConstraintViolation);
        }
        let id = Uuid { value: self.next_id };
        let now = Timestamp { micros: self.clock + 1 };
        let row = UserMfaMethod {
            id,
            user_id,
            kind: String::from_str(kind),
            secret: String::from_str(secret),
            created_at: now,
            updated_at: now,
        };
        let ghost rv = row@;
        let returned = row.clone();
        self.mfa_methods.push(row);
        self.next_id = self.next_id + 1;
        self.clock = self.clock + 1;
        proof {
            assert(rv == fresh_mfa_method(old(self)@, user_id@, kind@, secret@));
            assert(self@.mfa_methods =~= old(self)@.mfa_methods.push(rv));
            assert(self@ =~= add_mfa_method_next(old(self)@, user_id@, kind@, secret@));
            lemma_add_mfa_method_preserves_inv(old(self)@, user_id@, kind@, secret@);
        }
        Ok(returned)
    }

    /// Point lookup of one user row by its identifier.
    pub fn get_user_by_id(&self, id: Uuid) -> (r: Result<User, RepoError>)
        ensures
            user_result_view(r) == get_user_by_id_result(self@, id@),
    {
        match find_user_index_by_id(&self.users, id) {
            Some(i) => {
                let row = self.users[i].clone();
                proof {
                    assert(self@.users[i as int] == self.users@[i as int]@);
                }
                Ok(row)
            },
            None => Err(RepoError::NotFound),
        }
    }

    /// Point lookup of one user row by its unique email.
    pub fn get_user_by_email(&self, email: &str) -> (r: Result<User, RepoError>)
        ensures
            user_result_view(r) == get_user_by_email_result(self@, email@),
    {
        let key: String = String::from_str(email);
        match find_user_index_by_email(&self.users, &key) {
            Some(i) => {
                let row = self.users[i].clone();
                proof {
                    assert(self@.users[i as int] == self.users@[i as int]@);
                }
                Ok(row)
            },
            None => Err(RepoError::NotFound),
        }
    }

    /// Sets the email of the row carrying `id`, refreshes its `updated_at`
    /// from `now()`, and returns the new row state.
    pub fn update_user_email(&mut self, id: Uuid, email: &str) -> (r: Result<User, RepoError>)
        requires
            store_inv(old(self)@),
            clock_has_headroom(old(self)@, 1),
        ensures
            store_inv(final(self)@),
            user_result_view(r) == update_user_email_result(old(self)@, id@, email@),
            final(self)@ == update_user_email_next(old(self)@, id@, email@),
    {
        let idx = match find_user_index_by_id(&self.users, id) {
            Some(i) => i,
            None => {
                return Err(RepoError::NotFound);
            },
        };
        let key: String = String::from_str(email);
        if email_taken_by_other_exec(&self.users, id, &key) {
            return Err(RepoError::ConstraintViolation);
        }
        let now = Timestamp { micros: self.clock + 1 };
        let row = User { id, email: key, created_at: self.users[idx].created_at, updated_at: now };
        let ghost rv = row@;
        let returned = row.clone();
        self.users.set(idx, row);
        self.clock = self.clock + 1;
        proof {
            let s0 = old(self)@;
            lemma_user_index_by_id_in_range(s0.users, id@);
            assert(s0.users[idx as int] == old(self).users@[idx as int]@);
            assert(rv == updated_user(s0, id@, email@));
            assert(self@.users =~= s0.users.update(idx as int, rv));
            assert(self@ =~= update_user_email_next(s0, id@, email@));
            lemma_update_user_email_preserves_inv(s0, id@, email@);
        }
        Ok(returned)
    }

    /// Deletes the user row carrying `id`; exactly one row must be affected.
    pub fn delete_user(&mut self, id: Uuid) -> (r: Result<(), RepoError>)
        requires
            store_inv(old(self)@),
        ensures
            store_inv(final(self)@),
            r == delete_user_result(old(self)@, id@),
            final(self)@ == delete_user_next(old(self)@, id@),
    {
        let affected: u64;
        match find_user_index_by_id(&self.users, id) {
            Some(i) => {
                if any_mfa_for_user(&self.mfa_methods, id) {
                    // The store refuses to orphan the MFA rows referencing
                    // this user.
                    return Err(RepoError::ConstraintViolation);
                }
                self.users.remove(i);
                affected = 1;
                proof {
                    let s0 = old(self)@;
                    assert(self@.users =~= s0.users.remove(i as int));
                    assert(self@ =~= delete_user_next(s0, id@));
                    lemma_delete_user_preserves_inv(s0, id@);
                }
            },
            None => {
                affected = 0;
            },
        }
        ensure_affected(1, affected)
    }

    /// All MFA rows of `user_id`, in ascending `created_at` order; an empty
    /// listing is a valid answer, not an error.
    pub fn list_mfa_methods(&self, user_id: Uuid) -> (r: Result<Vec<UserMfaMethod>, RepoError>)
        requires
            store_inv(self@),
        ensures
            mfa_list_result_view(r) == list_mfa_methods_result(self@, user_id@),
            r is Ok,
            sorted_by_created_at(mfa_methods_view(r.unwrap()@)),
    {
        let ghost ms = mfa_methods_view(self.mfa_methods@);
        let mut out: Vec<UserMfaMethod> = Vec::new();
        let mut i: usize = 0;
        while i < self.mfa_methods.len()
            invariant
                i <= self.mfa_methods@.len(),
                ms == mfa_methods_view(self.mfa_methods@),
                mfa_methods_view(out@) == mfa_for_user(ms.take(i as int), user_id@),
            decreases self.mfa_methods@.len() - i,
        {
            proof {
                assert(ms[i as int] == self.mfa_methods@[i as int]@);
                assert(ms.take(i as int + 1).drop_last() =~= ms.take(i as int));
                assert(ms.take(i as int + 1).last() == ms[i as int]);
            }
            if self.mfa_methods[i].user_id == user_id {
                out.push(self.mfa_methods[i].clone());
                proof {
                    assert(mfa_methods_view(out@) =~= mfa_for_user(
                        ms.take(i as int + 1),
                        user_id@,
                    ));
                }
            } else {
                proof {
                    assert(mfa_methods_view(out@) =~= mfa_for_user(
                        ms.take(i as int + 1),
                        user_id@,
                    ));
                }
            }
            i = i + 1;
        }
        proof {
            assert(ms.take(self.mfa_methods@.len() as int) =~= ms);
            lemma_mfa_for_user_sorted(ms, user_id@);
        }
        Ok(out)
    }

    /// Deletes the MFA row carrying `mfa_id`; exactly one row must be
    /// affected.
    pub fn delete_mfa_method(&mut self, mfa_id: Uuid) -> (r: Result<(), RepoError>)
        requires
            store_inv(old(self)@),
        ensures
            store_inv(final(self)@),
            r == delete_mfa_method_result(old(self)@, mfa_id@),
            final(self)@ == delete_mfa_method_next(old(self)@, mfa_id@),
    {
        let affected: u64;
        match find_mfa_index_by_id(&self.mfa_methods, mfa_id) {
            Some(i) => {
                self.mfa_methods.remove(i);
                affected = 1;
                proof {
                    let s0 = old(self)@;
                    assert(self@.mfa_methods =~= s0.mfa_methods.remove(i as int));
                    assert(self@ =~= delete_mfa_method_next(s0, mfa_id@));
                    lemma_delete_mfa_method_preserves_inv(s0, mfa_id@);
                }
            },
            None => {
                affected = 0;
            },
        }
        ensure_affected(1, affected)
    }
}

} // verus!
