use vstd::prelude::*;

use crate::errors::RepoError;
use crate::model::{
    add_mfa_method_next, add_mfa_method_result, create_user_next, create_user_result,
    create_user_with_mfa_next, create_user_with_mfa_result, delete_mfa_method_next,
    delete_mfa_method_result, delete_user_next, delete_user_result, email_taken_by_other,
    fresh_mfa_method, fresh_user, get_user_by_email_result, get_user_by_id_result,
    has_mfa_for_user, has_mfa_with_id, has_user_with_email, has_user_with_id,
    lemma_create_user_preserves_inv, lemma_delete_mfa_method_preserves_inv,
    lemma_mfa_for_user_empty, lemma_mfa_for_user_sorted, lemma_mfa_index_by_id_in_range,
    lemma_update_user_email_preserves_inv, lemma_user_index_by_email_first_match,
    lemma_user_index_by_id_first_match, lemma_user_index_by_id_in_range, list_mfa_methods_result,
    mfa_for_user, mfa_index_by_id, sorted_by_created_at, store_inv, update_user_email_result,
    user_index_by_id, StoreView,
};
use crate::records::UserView;

verus! {

/// Creating a user with a fresh email and immediately looking that email up
/// finds exactly the created row, whose `created_at` equals its `updated_at`.
pub proof fn lemma_create_then_get_user_by_email(s: StoreView, email: Seq<char>)
    requires
        store_inv(s),
        !has_user_with_email(s.users, email),
    ensures
        create_user_result(s, email) is Ok,
        ({
            let u = fresh_user(s, email);
            let s1 = create_user_next(s, email);
            &&& store_inv(s1)
            &&& get_user_by_email_result(s1, email) == Ok::<UserView, RepoError>(u)
            &&& u.email == email
            &&& u.created_at == u.updated_at
        }),
{
    lemma_create_user_preserves_inv(s, email);
    let u = fresh_user(s, email);
    let s1 = create_user_next(s, email);
    let n = s.users.len() as int;
    assert(s1.users[n] == u);
    assert forall|j: int| 0 <= j < n implies (#[trigger] s1.users[j]).email != email by {
        assert(s1.users[j] == s.users[j]);
        assert(!(s.users[j].email == email));
    }
    lemma_user_index_by_email_first_match(s1.users, email, n);
}

/// Creating a user and immediately looking its identifier up returns the
/// created row with its store-generated defaults present: a nonzero
/// identifier and both timestamps populated and equal.
pub proof fn lemma_create_then_get_user_by_id(s: StoreView, email: Seq<char>)
    requires
        store_inv(s),
        !has_user_with_email(s.users, email),
    ensures
        ({
            let u = fresh_user(s, email);
            let s1 = create_user_next(s, email);
            &&& get_user_by_id_result(s1, u.id) == Ok::<UserView, RepoError>(u)
            &&& u.id > 0
            &&& u.created_at == u.updated_at
        }),
{
    let u = fresh_user(s, email);
    let s1 = create_user_next(s, email);
    let n = s.users.len() as int;
    assert(s1.users[n] == u);
    assert forall|j: int| 0 <= j < n implies (#[trigger] s1.users[j]).id != u.id by {
        assert(s1.users[j] == s.users[j]);
        assert(s.users[j].id < s.next_id);
    }
    lemma_user_index_by_id_first_match(s1.users, u.id, n);
}

/// An identifier that matches no row can neither be read nor deleted: the
/// lookup reports the missing row and the delete reports the affected-row
/// mismatch, leaving the store untouched.
pub proof fn lemma_missing_id_never_succeeds(s: StoreView, id: int)
    requires
        !has_user_with_id(s.users, id),
    ensures
        get_user_by_id_result(s, id) == Err::<UserView, RepoError>(RepoError::NotFound),
        delete_user_result(s, id) == Err::<(), RepoError>(RepoError::AffectedMismatch),
        delete_user_next(s, id) == s,
{
}

/// A successful email update strictly increases `updated_at`, keeps
/// `created_at` untouched, and carries the new email.
pub proof fn lemma_update_user_email_bumps_updated_at(s: StoreView, id: int, email: Seq<char>)
    requires
        store_inv(s),
        has_user_with_id(s.users, id),
        !email_taken_by_other(s.users, id, email),
    ensures
        update_user_email_result(s, id, email) is Ok,
        ({
            let before = s.users[user_index_by_id(s.users, id)];
            let after = update_user_email_result(s, id, email).unwrap();
            &&& after.updated_at > before.updated_at
            &&& after.created_at == before.created_at
            &&& after.email == email
            &&& after.id == before.id
        }),
{
    lemma_user_index_by_id_in_range(s.users, id);
    lemma_update_user_email_preserves_inv(s, id, email);
    let idx = user_index_by_id(s.users, id);
    assert(s.users[idx].updated_at <= s.clock);
}

/// Listing MFA methods never fails; it returns only rows of the requested
/// user, in non-decreasing `created_at` order, and it is empty exactly for a
/// user with no MFA rows.
pub proof fn lemma_list_mfa_methods_ordered(s: StoreView, user_id: int)
    requires
        store_inv(s),
    ensures
        list_mfa_methods_result(s, user_id) is Ok,
        ({
            let listed = list_mfa_methods_result(s, user_id).unwrap();
            &&& sorted_by_created_at(listed)
            &&& (forall|k: int| 0 <= k < listed.len() ==> (#[trigger] listed[k]).user_id == user_id)
            &&& (listed.len() == 0 <==> !has_mfa_for_user(s.mfa_methods, user_id))
        }),
{
    lemma_mfa_for_user_sorted(s.mfa_methods, user_id);
    lemma_mfa_for_user_empty(s.mfa_methods, user_id);
}

/// The composite create-user-with-MFA operation is all-or-nothing: when it
/// fails, the store is exactly what it was, and in particular a user row
/// inserted by its first step does not persist — looking the email up
/// afterwards still reports a missing row.
pub proof fn lemma_create_user_with_mfa_atomic(
    s: StoreView,
    email: Seq<char>,
    kind: Seq<char>,
    secret: Seq<char>,
)
    ensures
        create_user_with_mfa_result(s, email, kind, secret) is Err ==> create_user_with_mfa_next(
            s,
            email,
            kind,
            secret,
        ) == s,
        (create_user_with_mfa_result(s, email, kind, secret) is Err && !has_user_with_email(
            s.users,
            email,
        )) ==> get_user_by_email_result(
            create_user_with_mfa_next(s, email, kind, secret),
            email,
        ) == Err::<UserView, RepoError>(RepoError::NotFound),
{
}

/// With a fresh email the composite operation succeeds end-to-end and
/// returns a pair whose `user_id` fields match and whose identifiers are two
/// distinct well-formed (nonzero) identifiers.
pub proof fn lemma_create_user_with_mfa_success(
    s: StoreView,
    email: Seq<char>,
    kind: Seq<char>,
    secret: Seq<char>,
)
    requires
        store_inv(s),
        !has_user_with_email(s.users, email),
    ensures
        create_user_with_mfa_result(s, email, kind, secret) is Ok,
        ({
            let (u, m) = create_user_with_mfa_result(s, email, kind, secret).unwrap();
            &&& m.user_id == u.id
            &&& u.id > 0
            &&& m.id > 0
            &&& u.id != m.id
            &&& u.email == email
            &&& m.kind == kind
            &&& m.secret == secret
        }),
{
    let u = fresh_user(s, email);
    let s1 = create_user_next(s, email);
    let n = s.users.len() as int;
    assert(s1.users[n] == u);
    assert(has_user_with_id(s1.users, u.id));
}

/// Deleting the same MFA identifier twice: the first delete succeeds, the
/// second reports the affected-row mismatch.
pub proof fn lemma_delete_mfa_method_twice(s: StoreView, mfa_id: int)
    requires
        store_inv(s),
        has_mfa_with_id(s.mfa_methods, mfa_id),
    ensures
        delete_mfa_method_result(s, mfa_id) == Ok::<(), RepoError>(()),
        ({
            let s1 = delete_mfa_method_next(s, mfa_id);
            &&& store_inv(s1)
            &&& delete_mfa_method_result(s1, mfa_id) == Err::<(), RepoError>(
                RepoError::AffectedMismatch,
            )
        }),
{
    lemma_mfa_index_by_id_in_range(s.mfa_methods, mfa_id);
    lemma_delete_mfa_method_preserves_inv(s, mfa_id);
    let idx = mfa_index_by_id(s.mfa_methods, mfa_id);
    let s1 = delete_mfa_method_next(s, mfa_id);
    assert(s1.mfa_methods == s.mfa_methods.remove(idx));
    s.mfa_methods.remove_ensures(idx);
    assert forall|k: int| 0 <= k < s1.mfa_methods.len() implies (#[trigger] s1.mfa_methods[k]).id
        != mfa_id by {
        let k0: int = if k < idx {
            k
        } else {
            k + 1
        };
        assert(s1.mfa_methods[k] == s.mfa_methods[k0]);
        if k0 < idx {
            assert(s.mfa_methods[k0].id != s.mfa_methods[idx].id);
        } else {
            assert(s.mfa_methods[idx].id != s.mfa_methods[k0].id);
        }
    }
    assert(!has_mfa_with_id(s1.mfa_methods, mfa_id));
}

/// Inserting an MFA method and immediately listing the owner's methods shows
/// the inserted row, field for field, as the newest entry, with its
/// store-generated defaults present.
pub proof fn lemma_add_mfa_then_listed(
    s: StoreView,
    user_id: int,
    kind: Seq<char>,
    secret: Seq<char>,
)
    requires
        store_inv(s),
        has_user_with_id(s.users, user_id),
    ensures
        add_mfa_method_result(s, user_id, kind, secret) is Ok,
        ({
            let m = add_mfa_method_result(s, user_id, kind, secret).unwrap();
            let s1 = add_mfa_method_next(s, user_id, kind, secret);
            let listed = list_mfa_methods_result(s1, user_id).unwrap();
            &&& listed.len() > 0
            &&& listed.last() == m
            &&& m.user_id == user_id
            &&& m.kind == kind
            &&& m.secret == secret
            &&& m.id > 0
            &&& m.created_at == m.updated_at
        }),
{
    let m = fresh_mfa_method(s, user_id, kind, secret);
    let s1 = add_mfa_method_next(s, user_id, kind, secret);
    assert(s1.mfa_methods == s.mfa_methods.push(m));
    assert(s1.mfa_methods.drop_last() =~= s.mfa_methods);
    assert(s1.mfa_methods.last() == m);
    assert(mfa_for_user(s1.mfa_methods, user_id) == mfa_for_user(s.mfa_methods, user_id).push(m));
}

} // verus!
