use vstd::prelude::*;

use crate::errors::RepoError;
use crate::model::{
    add_mfa_method_next, add_mfa_method_result, clock_has_headroom, create_user_next,
    create_user_result, create_user_with_mfa_next, create_user_with_mfa_result, fresh_user,
    ids_have_headroom, mfa_result_view, pair_result_view, store_inv, user_result_view, StoreView,
};
use crate::records::{User, UserMfaMethod, Uuid};
use crate::store::StoreState;

verus! {

/// Anything a parameterized statement can be executed against: the store
/// itself (a pooled connection) or the pending state of an open transaction.
///
/// The two insert statements are written once against this capability, so the
/// same logic runs standalone and inside the composite transaction.
pub trait PgExecutor {
    /// The database state this executor reads and writes.
    spec fn db(&self) -> StoreView;

    /// Executes the user insert statement and returns the inserted row.
    fn insert_user_row(&mut self, email: &str) -> (r: Result<User, RepoError>)
        requires
            store_inv(old(self).db()),
            clock_has_headroom(old(self).db(), 1),
            ids_have_headroom(old(self).db(), 1),
        ensures
            store_inv(final(self).db()),
            user_result_view(r) == create_user_result(old(self).db(), email@),
            final(self).db() == create_user_next(old(self).db(), email@),
    ;

    /// Executes the MFA-method insert statement and returns the inserted row.
    fn insert_mfa_row(&mut self, user_id: Uuid, kind: &str, secret: &str) -> (r: Result<
        UserMfaMethod,
        RepoError,
    >)
        requires
            store_inv(old(self).db()),
            clock_has_headroom(old(self).db(), 1),
            ids_have_headroom(old(self).db(), 1),
        ensures
            store_inv(final(self).db()),
            mfa_result_view(r) == add_mfa_method_result(old(self).db(), user_id@, kind@, secret@),
            final(self).db() == add_mfa_method_next(old(self).db(), user_id@, kind@, secret@),
    ;
}

impl PgExecutor for StoreState {
    open spec fn db(&self) -> StoreView {
        self@
    }

    fn insert_user_row(&mut self, email: &str) -> (r: Result<User, RepoError>) {
        self.insert_user_core(email)
    }

    fn insert_mfa_row(&mut self, user_id: Uuid, kind: &str, secret: &str) -> (r: Result<
        UserMfaMethod,
        RepoError,
    >) {
        self.insert_mfa_core(user_id, kind, secret)
    }
}

/// An open transaction: a pending copy of the store that becomes visible only
/// on commit.  Dropping it without committing discards every pending
/// statement, so rollback is the default outcome.
pub struct Transaction {
    state: StoreState,
}

impl View for Transaction {
    type V = StoreView;

    closed spec fn view(&self) -> StoreView {
        self.state@
    }
}

impl PgExecutor for Transaction {
    open spec fn db(&self) -> StoreView {
        self@
    }

    fn insert_user_row(&mut self, email: &str) -> (r: Result<User, RepoError>) {
        self.state.insert_user_core(email)
    }

    fn insert_mfa_row(&mut self, user_id: Uuid, kind: &str, secret: &str) -> (r: Result<
        UserMfaMethod,
        RepoError,
    >) {
        self.state.insert_mfa_core(user_id, kind, secret)
    }
}

/// Inserts a new user row through any executor; the store generates the
/// identifier and both timestamps.
pub fn create_user_with_executor<E: PgExecutor>(executor: &mut E, email: &str) -> (r: Result<
    User,
    RepoError,
>)
    requires
        store_inv(old(executor).db()),
        clock_has_headroom(old(executor).db(), 1),
        ids_have_headroom(old(executor).db(), 1),
    ensures
        store_inv(final(executor).db()),
        user_result_view(r) == create_user_result(old(executor).db(), email@),
        final(executor).db() == create_user_next(old(executor).db(), email@),
{
    executor.insert_user_row(email)
}

/// Inserts a new MFA row referencing `user_id` through any executor.
pub fn add_mfa_method_with_executor<E: PgExecutor>(
    executor: &mut E,
    user_id: Uuid,
    kind: &str,
    secret: &str,
) -> (r: Result<UserMfaMethod, RepoError>)
    requires
        store_inv(old(executor).db()),
        clock_has_headroom(old(executor).db(), 1),
        ids_have_headroom(old(executor).db(), 1),
    ensures
        store_inv(final(executor).db()),
        mfa_result_view(r) == add_mfa_method_result(old(executor).db(), user_id@, kind@, secret@),
        final(executor).db() == add_mfa_method_next(old(executor).db(), user_id@, kind@, secret@),
{
    executor.insert_mfa_row(user_id, kind, secret)
}

impl StoreState {
    /// Opens a transaction: a pending copy of the store.
    pub fn begin(&self) -> (tx: Transaction)
        ensures
            tx@ == self@,
    {
        Transaction { state: self.snapshot() }
    }

    /// Commits a transaction, making its pending state the store's state.
    pub fn commit(&mut self, tx: Transaction)
        ensures
            final(self)@ == tx@,
    {
        *self = tx.state;
    }

    /// Inserts a new user row; the store generates its identifier and
    /// timestamps.  Rejected when the email is already taken.
    pub fn create_user(&mut self, email: &str) -> (r: Result<User, RepoError>)
        requires
            store_inv(old(self)@),
            clock_has_headroom(old(self)@, 1),
            ids_have_headroom(old(self)@, 1),
        ensures
            store_inv(final(self)@),
            user_result_view(r) == create_user_result(old(self)@, email@),
            final(self)@ == create_user_next(old(self)@, email@),
    {
        create_user_with_executor(self, email)
    }

    /// Inserts a new MFA row bound to `user_id`.  Rejected when `user_id`
    /// references no user row.
    pub fn add_mfa_method(&mut self, user_id: Uuid, kind: &str, secret: &str) -> (r: Result<
        UserMfaMethod,
        RepoError,
    >)
        requires
            store_inv(old(self)@),
            clock_has_headroom(old(self)@, 1),
            ids_have_headroom(old(self)@, 1),
        ensures
            store_inv(final(self)@),
            mfa_result_view(r) == add_mfa_method_result(old(self)@, user_id@, kind@, secret@),
            final(self)@ == add_mfa_method_next(old(self)@, user_id@, kind@, secret@),
    {
        add_mfa_method_with_executor(self, user_id, kind, secret)
    }

    /// The composite operation: one transaction inserts a user and an MFA
    /// method referencing it, then commits; if either insert fails the
    /// transaction is rolled back and the store is left exactly as it was.
    pub fn create_user_with_mfa(&mut self, email: &str, kind: &str, secret: &str) -> (r: Result<
        (User, UserMfaMethod),
        RepoError,
    >)
        requires
            store_inv(old(self)@),
            clock_has_headroom(old(self)@, 2),
            ids_have_headroom(old(self)@, 2),
        ensures
            store_inv(final(self)@),
            pair_result_view(r) == create_user_with_mfa_result(old(self)@, email@, kind@, secret@),
            final(self)@ == create_user_with_mfa_next(old(self)@, email@, kind@, secret@),
            r is Err ==> final(self)@ == old(self)@,
    {
        let mut tx = self.begin();
        let user = match create_user_with_executor(&mut tx, email) {
            Ok(u) => u,
            Err(e) => {
                // Dropping the transaction rolls its pending insert back.
                return Err(e);
            },
        };
        let method = match add_mfa_method_with_executor(&mut tx, user.id, kind, secret) {
            Ok(m) => m,
            Err(e) => {
                return Err(e);
            },
        };
        proof {
            let s0 = old(self)@;
            assert(user@ == fresh_user(s0, email@));
        }
        self.commit(tx);
        Ok((user, method))
    }
}

} // verus!
