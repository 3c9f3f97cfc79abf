use vstd::prelude::*;

use crate::errors::RepoError;
use crate::records::{MfaMethodView, User, UserMfaMethod, UserView};

verus! {

/// The mathematical value of the whole store: both tables, the supply of
/// fresh identifiers, and the store clock from which `now()` is drawn.
#[verifier::ext_equal]
pub struct StoreView {
    pub users: Seq<UserView>,
    pub mfa_methods: Seq<MfaMethodView>,
    /// The next identifier the store will generate; identifiers are unique
    /// across all time because this only ever grows.
    pub next_id: int,
    /// Every timestamp the store has handed out so far is at most this value;
    /// each statement that draws `now()` sees a strictly later instant.
    pub clock: int,
}

pub open spec fn users_view(users: Seq<User>) -> Seq<UserView> {
    users.map_values(|u: User| u@)
}

pub open spec fn mfa_methods_view(methods: Seq<UserMfaMethod>) -> Seq<MfaMethodView> {
    methods.map_values(|m: UserMfaMethod| m@)
}

// ---------------------------------------------------------------------------
// Point-lookup predicates and indexes
// ---------------------------------------------------------------------------

pub open spec fn has_user_with_id(users: Seq<UserView>, id: int) -> bool {
    exists|i: int| 0 <= i < users.len() && #[trigger] users[i].id == id
}

pub open spec fn has_user_with_email(users: Seq<UserView>, email: Seq<char>) -> bool {
    exists|i: int| 0 <= i < users.len() && #[trigger] users[i].email == email
}

pub open spec fn email_taken_by_other(users: Seq<UserView>, id: int, email: Seq<char>) -> bool {
    exists|i: int|
        0 <= i < users.len() && (#[trigger] users[i].id) != id && users[i].email == email
}

pub open spec fn has_mfa_with_id(methods: Seq<MfaMethodView>, id: int) -> bool {
    exists|i: int| 0 <= i < methods.len() && #[trigger] methods[i].id == id
}

pub open spec fn has_mfa_for_user(methods: Seq<MfaMethodView>, user_id: int) -> bool {
    exists|i: int| 0 <= i < methods.len() && #[trigger] methods[i].user_id == user_id
}

/// The index of the first user row carrying `id`.
pub open spec fn user_index_by_id(users: Seq<UserView>, id: int) -> int
    decreases users.len(),
{
    if users.len() == 0 {
        0
    } else if users[0].id == id {
        0
    } else {
        1 + user_index_by_id(users.drop_first(), id)
    }
}

/// The index of the first user row carrying `email`.
pub open spec fn user_index_by_email(users: Seq<UserView>, email: Seq<char>) -> int
    decreases users.len(),
{
    if users.len() == 0 {
        0
    } else if users[0].email == email {
        0
    } else {
        1 + user_index_by_email(users.drop_first(), email)
    }
}

/// The index of the first MFA row carrying `id`.
pub open spec fn mfa_index_by_id(methods: Seq<MfaMethodView>, id: int) -> int
    decreases methods.len(),
{
    if methods.len() == 0 {
        0
    } else if methods[0].id == id {
        0
    } else {
        1 + mfa_index_by_id(methods.drop_first(), id)
    }
}

/// The MFA rows that belong to `user_id`, in table order.
pub open spec fn mfa_for_user(methods: Seq<MfaMethodView>, user_id: int) -> Seq<MfaMethodView>
    decreases methods.len(),
{
    if methods.len() == 0 {
        Seq::<MfaMethodView>::empty()
    } else {
        let rest = mfa_for_user(methods.drop_last(), user_id);
        if methods.last().user_id == user_id {
            rest.push(methods.last())
        } else {
            rest
        }
    }
}

pub open spec fn sorted_by_created_at(methods: Seq<MfaMethodView>) -> bool {
    forall|i: int, j: int|
        0 <= i < j < methods.len() ==> #[trigger] methods[i].created_at <= #[trigger] methods[
            j
        ].created_at
}

// ---------------------------------------------------------------------------
// Well-formedness
// ---------------------------------------------------------------------------

pub open spec fn user_row_wf(u: UserView, s: StoreView) -> bool {
    &&& 0 < u.id < s.next_id
    &&& u.created_at <= u.updated_at
    &&& 0 <= u.created_at
    &&& u.updated_at <= s.clock
}

pub open spec fn mfa_row_wf(m: MfaMethodView, s: StoreView) -> bool {
    &&& 0 < m.id < s.next_id
    &&& m.created_at <= m.updated_at
    &&& 0 <= m.created_at
    &&& m.updated_at <= s.clock
}

/// Everything the store itself guarantees of its tables: well-formed rows,
/// identifiers unique across both tables, unique emails, referential
/// integrity of `user_id`, and MFA rows sitting in `created_at` order
/// (each insert draws a later `now()` than every row already present).
pub open spec fn store_inv(s: StoreView) -> bool {
    &&& 1 <= s.next_id
    &&& 0 <= s.clock
    &&& (forall|i: int| 0 <= i < s.users.len() ==> user_row_wf(#[trigger] s.users[i], s))
    &&& (forall|i: int| 0 <= i < s.mfa_methods.len() ==> mfa_row_wf(#[trigger] s.mfa_methods[i], s))
    &&& (forall|i: int, j: int|
        0 <= i < j < s.users.len() ==> (#[trigger] s.users[i]).id != (#[trigger] s.users[j]).id)
    &&& (forall|i: int, j: int|
        0 <= i < j < s.users.len() ==> (#[trigger] s.users[i]).email != (
        #[trigger] s.users[j]).email)
    &&& (forall|i: int, j: int|
        0 <= i < j < s.mfa_methods.len() ==> (#[trigger] s.mfa_methods[i]).id != (
        #[trigger] s.mfa_methods[j]).id)
    &&& (forall|i: int, j: int|
        0 <= i < s.users.len() && 0 <= j < s.mfa_methods.len() ==> (#[trigger] s.users[i]).id != (
        #[trigger] s.mfa_methods[j]).id)
    &&& (forall|i: int|
        0 <= i < s.mfa_methods.len() ==> has_user_with_id(
            s.users,
            (#[trigger] s.mfa_methods[i]).user_id,
        ))
    &&& sorted_by_created_at(s.mfa_methods)
}

/// The store as it stands before any row was inserted.
pub open spec fn empty_store() -> StoreView {
    StoreView { users: Seq::<UserView>::empty(), mfa_methods: Seq::<MfaMethodView>::empty(), next_id: 1, clock: 0 }
}

/// The store clock is an `i64`, so a statement can only draw `now()` while
/// there is room left above the clock; a machine limit of the model, not a
/// rule of the repository.
pub open spec fn clock_has_headroom(s: StoreView, n: int) -> bool {
    s.clock + n <= i64::MAX
}

/// Identifiers are drawn from a `u128` supply; same machine limit.
pub open spec fn ids_have_headroom(s: StoreView, n: int) -> bool {
    s.next_id + n <= u128::MAX
}

// ---------------------------------------------------------------------------
// One transition per repository operation
// ---------------------------------------------------------------------------

/// The row a user insert returns: a fresh identifier and both timestamps
/// drawn from the same `now()`.
pub open spec fn fresh_user(s: StoreView, email: Seq<char>) -> UserView {
    UserView { id: s.next_id, email, created_at: s.clock + 1, updated_at: s.clock + 1 }
}

pub open spec fn create_user_result(s: StoreView, email: Seq<char>) -> Result<UserView, RepoError> {
    if has_user_with_email(s.users, email) {
        Err(RepoError::ConstraintViolation)
    } else {
        Ok(fresh_user(s, email))
    }
}

pub open spec fn create_user_next(s: StoreView, email: Seq<char>) -> StoreView {
    if create_user_result(s, email) is Ok {
        StoreView {
            users: s.users.push(fresh_user(s, email)),
            mfa_methods: s.mfa_methods,
            next_id: s.next_id + 1,
            clock: s.clock + 1,
        }
    } else {
        s
    }
}

pub open spec fn get_user_by_id_result(s: StoreView, id: int) -> Result<UserView, RepoError> {
    if has_user_with_id(s.users, id) {
        Ok(s.users[user_index_by_id(s.users, id)])
    } else {
        Err(RepoError::NotFound)
    }
}

pub open spec fn get_user_by_email_result(s: StoreView, email: Seq<char>) -> Result<
    UserView,
    RepoError,
> {
    if has_user_with_email(s.users, email) {
        Ok(s.users[user_index_by_email(s.users, email)])
    } else {
        Err(RepoError::NotFound)
    }
}

/// The row an email update returns: the email replaced, `updated_at`
/// refreshed from a strictly later `now()`, everything else untouched.
pub open spec fn updated_user(s: StoreView, id: int, email: Seq<char>) -> UserView {
    let before = s.users[user_index_by_id(s.users, id)];
    UserView { id: before.id, email, created_at: before.created_at, updated_at: s.clock + 1 }
}

pub open spec fn update_user_email_result(s: StoreView, id: int, email: Seq<char>) -> Result<
    UserView,
    RepoError,
> {
    if !has_user_with_id(s.users, id) {
        Err(RepoError::NotFound)
    } else if email_taken_by_other(s.users, id, email) {
        Err(RepoError::ConstraintViolation)
    } else {
        Ok(updated_user(s, id, email))
    }
}

pub open spec fn update_user_email_next(s: StoreView, id: int, email: Seq<char>) -> StoreView {
    if update_user_email_result(s, id, email) is Ok {
        StoreView {
            users: s.users.update(user_index_by_id(s.users, id), updated_user(s, id, email)),
            mfa_methods: s.mfa_methods,
            next_id: s.next_id,
            clock: s.clock + 1,
        }
    } else {
        s
    }
}

pub open spec fn delete_user_result(s: StoreView, id: int) -> Result<(), RepoError> {
    if !has_user_with_id(s.users, id) {
        // The statement affected zero rows.
        Err(RepoError::AffectedMismatch)
    } else if has_mfa_for_user(s.mfa_methods, id) {
        // The store refuses to orphan the rows that reference this one.
        Err(RepoError::ConstraintViolation)
    } else {
        Ok(())
    }
}

pub open spec fn delete_user_next(s: StoreView, id: int) -> StoreView {
    if delete_user_result(s, id) is Ok {
        StoreView {
            users: s.users.remove(user_index_by_id(s.users, id)),
            mfa_methods: s.mfa_methods,
            next_id: s.next_id,
            clock: s.clock,
        }
    } else {
        s
    }
}

/// The row an MFA insert returns, referencing its owner.
pub open spec fn fresh_mfa_method(
    s: StoreView,
    user_id: int,
    kind: Seq<char>,
    secret: Seq<char>,
) -> MfaMethodView {
    MfaMethodView {
        id: s.next_id,
        user_id,
        kind,
        secret,
        created_at: s.clock + 1,
        updated_at: s.clock + 1,
    }
}

pub open spec fn add_mfa_method_result(
    s: StoreView,
    user_id: int,
    kind: Seq<char>,
    secret: Seq<char>,
) -> Result<MfaMethodView, RepoError> {
    if has_user_with_id(s.users, user_id) {
        Ok(fresh_mfa_method(s, user_id, kind, secret))
    } else {
        Err(RepoError::ConstraintViolation)
    }
}

pub open spec fn add_mfa_method_next(
    s: StoreView,
    user_id: int,
    kind: Seq<char>,
    secret: Seq<char>,
) -> StoreView {
    if add_mfa_method_result(s, user_id, kind, secret) is Ok {
        StoreView {
            users: s.users,
            mfa_methods: s.mfa_methods.push(fresh_mfa_method(s, user_id, kind, secret)),
            next_id: s.next_id + 1,
            clock: s.clock + 1,
        }
    } else {
        s
    }
}

pub open spec fn list_mfa_methods_result(s: StoreView, user_id: int) -> Result<
    Seq<MfaMethodView>,
    RepoError,
> {
    Ok(mfa_for_user(s.mfa_methods, user_id))
}

pub open spec fn delete_mfa_method_result(s: StoreView, mfa_id: int) -> Result<(), RepoError> {
    if has_mfa_with_id(s.mfa_methods, mfa_id) {
        Ok(())
    } else {
        Err(RepoError::AffectedMismatch)
    }
}

pub open spec fn delete_mfa_method_next(s: StoreView, mfa_id: int) -> StoreView {
    if delete_mfa_method_result(s, mfa_id) is Ok {
        StoreView {
            users: s.users,
            mfa_methods: s.mfa_methods.remove(mfa_index_by_id(s.mfa_methods, mfa_id)),
            next_id: s.next_id,
            clock: s.clock,
        }
    } else {
        s
    }
}

/// The composite transaction: insert a user, then insert an MFA method that
/// references it, inside one transaction.  Either both land or neither does.
pub open spec fn create_user_with_mfa_result(
    s: StoreView,
    email: Seq<char>,
    kind: Seq<char>,
    secret: Seq<char>,
) -> Result<(UserView, MfaMethodView), RepoError> {
    match create_user_result(s, email) {
        Err(e) => Err(e),
        Ok(u) => match add_mfa_method_result(create_user_next(s, email), u.id, kind, secret) {
            Err(e) => Err(e),
            Ok(m) => Ok((u, m)),
        },
    }
}

pub open spec fn create_user_with_mfa_next(
    s: StoreView,
    email: Seq<char>,
    kind: Seq<char>,
    secret: Seq<char>,
) -> StoreView {
    match create_user_with_mfa_result(s, email, kind, secret) {
        Err(_) => s,
        Ok((u, _)) => add_mfa_method_next(create_user_next(s, email), u.id, kind, secret),
    }
}

// ---------------------------------------------------------------------------
// Result views: the mathematical value of an executable result
// ---------------------------------------------------------------------------

pub open spec fn user_result_view(r: Result<User, RepoError>) -> Result<UserView, RepoError> {
    match r {
        Ok(u) => Ok(u@),
        Err(e) => Err(e),
    }
}

pub open spec fn mfa_result_view(r: Result<UserMfaMethod, RepoError>) -> Result<
    MfaMethodView,
    RepoError,
> {
    match r {
        Ok(m) => Ok(m@),
        Err(e) => Err(e),
    }
}

pub open spec fn mfa_list_result_view(r: Result<Vec<UserMfaMethod>, RepoError>) -> Result<
    Seq<MfaMethodView>,
    RepoError,
> {
    match r {
        Ok(v) => Ok(mfa_methods_view(v@)),
        Err(e) => Err(e),
    }
}

pub open spec fn pair_result_view(r: Result<(User, UserMfaMethod), RepoError>) -> Result<
    (UserView, MfaMethodView),
    RepoError,
> {
    match r {
        Ok(p) => Ok((p.0@, p.1@)),
        Err(e) => Err(e),
    }
}

// ---------------------------------------------------------------------------
// Facts about the first-match indexes
// ---------------------------------------------------------------------------

/// If `i` is the first index whose row carries `id`, the index function
/// returns `i`.
pub proof fn lemma_user_index_by_id_first_match(users: Seq<UserView>, id: int, i: int)
    requires
        0 <= i < users.len(),
        users[i].id == id,
        forall|j: int| 0 <= j < i ==> (#[trigger] users[j]).id != id,
    ensures
        has_user_with_id(users, id),
        user_index_by_id(users, id) == i,
    decreases users.len(),
{
    if i == 0 {
    } else {
        assert(users[0].id != id);
        assert(users.drop_first()[i - 1] == users[i]);
        assert(forall|j: int|
            0 <= j < i - 1 ==> (#[trigger] users.drop_first()[j]) == users[j + 1]);
        lemma_user_index_by_id_first_match(users.drop_first(), id, i - 1);
    }
}

/// When some row carries `id`, the index function lands in range and on a
/// row carrying `id`.
pub proof fn lemma_user_index_by_id_in_range(users: Seq<UserView>, id: int)
    requires
        has_user_with_id(users, id),
    ensures
        0 <= user_index_by_id(users, id) < users.len(),
        users[user_index_by_id(users, id)].id == id,
    decreases users.len(),
{
    if users.len() == 0 {
    } else if users[0].id == id {
    } else {
        assert forall|k: int| 0 <= k < users.drop_first().len() implies users.drop_first()[k]
            == users[k + 1] by {}
        let w = choose|i: int| 0 <= i < users.len() && #[trigger] users[i].id == id;
        assert(users.drop_first()[w - 1].id == id);
        lemma_user_index_by_id_in_range(users.drop_first(), id);
    }
}

pub proof fn lemma_user_index_by_email_first_match(users: Seq<UserView>, email: Seq<char>, i: int)
    requires
        0 <= i < users.len(),
        users[i].email == email,
        forall|j: int| 0 <= j < i ==> (#[trigger] users[j]).email != email,
    ensures
        has_user_with_email(users, email),
        user_index_by_email(users, email) == i,
    decreases users.len(),
{
    if i == 0 {
    } else {
        assert(users[0].email != email);
        assert(users.drop_first()[i - 1] == users[i]);
        assert(forall|j: int|
            0 <= j < i - 1 ==> (#[trigger] users.drop_first()[j]) == users[j + 1]);
        lemma_user_index_by_email_first_match(users.drop_first(), email, i - 1);
    }
}

pub proof fn lemma_user_index_by_email_in_range(users: Seq<UserView>, email: Seq<char>)
    requires
        has_user_with_email(users, email),
    ensures
        0 <= user_index_by_email(users, email) < users.len(),
        users[user_index_by_email(users, email)].email == email,
    decreases users.len(),
{
    if users.len() == 0 {
    } else if users[0].email == email {
    } else {
        assert forall|k: int| 0 <= k < users.drop_first().len() implies users.drop_first()[k]
            == users[k + 1] by {}
        let w = choose|i: int| 0 <= i < users.len() && #[trigger] users[i].email == email;
        assert(users.drop_first()[w - 1].email == email);
        lemma_user_index_by_email_in_range(users.drop_first(), email);
    }
}

pub proof fn lemma_mfa_index_by_id_first_match(methods: Seq<MfaMethodView>, id: int, i: int)
    requires
        0 <= i < methods.len(),
        methods[i].id == id,
        forall|j: int| 0 <= j < i ==> (#[trigger] methods[j]).id != id,
    ensures
        has_mfa_with_id(methods, id),
        mfa_index_by_id(methods, id) == i,
    decreases methods.len(),
{
    if i == 0 {
    } else {
        assert(methods[0].id != id);
        assert(methods.drop_first()[i - 1] == methods[i]);
        assert(forall|j: int|
            0 <= j < i - 1 ==> (#[trigger] methods.drop_first()[j]) == methods[j + 1]);
        lemma_mfa_index_by_id_first_match(methods.drop_first(), id, i - 1);
    }
}

pub proof fn lemma_mfa_index_by_id_in_range(methods: Seq<MfaMethodView>, id: int)
    requires
        has_mfa_with_id(methods, id),
    ensures
        0 <= mfa_index_by_id(methods, id) < methods.len(),
        methods[mfa_index_by_id(methods, id)].id == id,
    decreases methods.len(),
{
    if methods.len() == 0 {
    } else if methods[0].id == id {
    } else {
        assert forall|k: int| 0 <= k < methods.drop_first().len() implies methods.drop_first()[k]
            == methods[k + 1] by {}
        let w = choose|i: int| 0 <= i < methods.len() && #[trigger] methods[i].id == id;
        assert(methods.drop_first()[w - 1].id == id);
        lemma_mfa_index_by_id_in_range(methods.drop_first(), id);
    }
}

// ---------------------------------------------------------------------------
// The store invariant is preserved by every transition
// ---------------------------------------------------------------------------

pub proof fn lemma_create_user_preserves_inv(s: StoreView, email: Seq<char>)
    requires
        store_inv(s),
        !has_user_with_email(s.users, email),
    ensures
        store_inv(create_user_next(s, email)),
{
    let u = fresh_user(s, email);
    let s1 = create_user_next(s, email);
    assert(s1.users == s.users.push(u));
    assert forall|i: int| 0 <= i < s1.users.len() implies user_row_wf(#[trigger] s1.users[i], s1) by {
        if i < s.users.len() {
            assert(s1.users[i] == s.users[i]);
            assert(user_row_wf(s.users[i], s));
        } else {
            assert(s1.users[i] == u);
        }
    }
    assert forall|i: int, j: int| 0 <= i < j < s1.users.len() implies (#[trigger] s1.users[i]).id
        != (#[trigger] s1.users[j]).id by {
        if j < s.users.len() {
            assert(s1.users[i] == s.users[i] && s1.users[j] == s.users[j]);
        } else {
            assert(s1.users[i] == s.users[i] && s1.users[j] == u);
            assert(user_row_wf(s.users[i], s));
        }
    }
    assert forall|i: int, j: int| 0 <= i < j < s1.users.len() implies (#[trigger] s1.users[i]).email
        != (#[trigger] s1.users[j]).email by {
        if j < s.users.len() {
            assert(s1.users[i] == s.users[i] && s1.users[j] == s.users[j]);
        } else {
            assert(s1.users[i] == s.users[i] && s1.users[j] == u);
            assert(!(s.users[i].email == email));
        }
    }
    assert forall|i: int| 0 <= i < s1.mfa_methods.len() implies mfa_row_wf(
        #[trigger] s1.mfa_methods[i],
        s1,
    ) by {
        assert(mfa_row_wf(s.mfa_methods[i], s));
    }
    assert forall|i: int, j: int|
        0 <= i < s1.users.len() && 0 <= j < s1.mfa_methods.len() implies (
    #[trigger] s1.users[i]).id != (#[trigger] s1.mfa_methods[j]).id by {
        assert(mfa_row_wf(s.mfa_methods[j], s));
        if i < s.users.len() {
            assert(s1.users[i] == s.users[i]);
        } else {
            assert(s1.users[i] == u);
        }
    }
    assert forall|i: int| 0 <= i < s1.mfa_methods.len() implies has_user_with_id(
        s1.users,
        (#[trigger] s1.mfa_methods[i]).user_id,
    ) by {
        assert(has_user_with_id(s.users, s.mfa_methods[i].user_id));
        let w = choose|w: int|
            0 <= w < s.users.len() && #[trigger] s.users[w].id == s.mfa_methods[i].user_id;
        assert(s1.users[w].id == s.mfa_methods[i].user_id);
    }
}

pub proof fn lemma_update_user_email_preserves_inv(s: StoreView, id: int, email: Seq<char>)
    requires
        store_inv(s),
        has_user_with_id(s.users, id),
        !email_taken_by_other(s.users, id, email),
    ensures
        store_inv(update_user_email_next(s, id, email)),
{
    lemma_user_index_by_id_in_range(s.users, id);
    let idx = user_index_by_id(s.users, id);
    let u1 = updated_user(s, id, email);
    let s1 = update_user_email_next(s, id, email);
    assert(s1.users == s.users.update(idx, u1));
    assert forall|k: int| 0 <= k < s1.users.len() implies (#[trigger] s1.users[k]).id
        == s.users[k].id by {
        if k != idx {
            assert(s1.users[k] == s.users[k]);
        }
    }
    assert forall|k: int| 0 <= k < s1.users.len() implies user_row_wf(#[trigger] s1.users[k], s1) by {
        assert(user_row_wf(s.users[k], s));
        if k != idx {
            assert(s1.users[k] == s.users[k]);
        }
    }
    assert forall|i: int, j: int| 0 <= i < j < s1.users.len() implies (#[trigger] s1.users[i]).id
        != (#[trigger] s1.users[j]).id by {
        assert(s.users[i].id != s.users[j].id);
    }
    assert forall|i: int, j: int| 0 <= i < j < s1.users.len() implies (#[trigger] s1.users[i]).email
        != (#[trigger] s1.users[j]).email by {
        if i != idx && j != idx {
            assert(s1.users[i] == s.users[i] && s1.users[j] == s.users[j]);
        } else if i == idx {
            assert(s1.users[j] == s.users[j]);
            assert(s.users[i].id != s.users[j].id);
            assert(s.users[j].id != id);
            assert(!(s.users[j].id != id && s.users[j].email == email));
        } else {
            assert(s1.users[i] == s.users[i]);
            assert(s.users[i].id != s.users[j].id);
            assert(s.users[i].id != id);
            assert(!(s.users[i].id != id && s.users[i].email == email));
        }
    }
    assert forall|i: int| 0 <= i < s1.mfa_methods.len() implies mfa_row_wf(
        #[trigger] s1.mfa_methods[i],
        s1,
    ) by {
        assert(mfa_row_wf(s.mfa_methods[i], s));
    }
    assert forall|i: int, j: int|
        0 <= i < s1.users.len() && 0 <= j < s1.mfa_methods.len() implies (
    #[trigger] s1.users[i]).id != (#[trigger] s1.mfa_methods[j]).id by {
        assert(s.users[i].id != s.mfa_methods[j].id);
    }
    assert forall|i: int| 0 <= i < s1.mfa_methods.len() implies has_user_with_id(
        s1.users,
        (#[trigger] s1.mfa_methods[i]).user_id,
    ) by {
        assert(has_user_with_id(s.users, s.mfa_methods[i].user_id));
        let w = choose|w: int|
            0 <= w < s.users.len() && #[trigger] s.users[w].id == s.mfa_methods[i].user_id;
        assert(s1.users[w].id == s.mfa_methods[i].user_id);
    }
}

pub proof fn lemma_delete_user_preserves_inv(s: StoreView, id: int)
    requires
        store_inv(s),
        has_user_with_id(s.users, id),
        !has_mfa_for_user(s.mfa_methods, id),
    ensures
        store_inv(delete_user_next(s, id)),
{
    lemma_user_index_by_id_in_range(s.users, id);
    let idx = user_index_by_id(s.users, id);
    let s1 = delete_user_next(s, id);
    assert(s1.users == s.users.remove(idx));
    s.users.remove_ensures(idx);
    assert forall|k: int| 0 <= k < s1.users.len() implies user_row_wf(#[trigger] s1.users[k], s1) by {
        if k < idx {
            assert(s1.users[k] == s.users[k]);
            assert(user_row_wf(s.users[k], s));
        } else {
            assert(s1.users[k] == s.users[k + 1]);
            assert(user_row_wf(s.users[k + 1], s));
        }
    }
    assert forall|i: int, j: int| 0 <= i < j < s1.users.len() implies (#[trigger] s1.users[i]).id
        != (#[trigger] s1.users[j]).id && (s1.users[i]).email != (s1.users[j]).email by {
        let i0: int = if i < idx {
            i
        } else {
            i + 1
        };
        let j0: int = if j < idx {
            j
        } else {
            j + 1
        };
        assert(s1.users[i] == s.users[i0] && s1.users[j] == s.users[j0]);
        assert(s.users[i0].id != s.users[j0].id && s.users[i0].email != s.users[j0].email);
    }
    assert forall|i: int, j: int|
        0 <= i < s1.users.len() && 0 <= j < s1.mfa_methods.len() implies (
    #[trigger] s1.users[i]).id != (#[trigger] s1.mfa_methods[j]).id by {
        let i0: int = if i < idx {
            i
        } else {
            i + 1
        };
        assert(s1.users[i] == s.users[i0]);
        assert(s.users[i0].id != s.mfa_methods[j].id);
    }
    assert forall|i: int| 0 <= i < s1.mfa_methods.len() implies has_user_with_id(
        s1.users,
        (#[trigger] s1.mfa_methods[i]).user_id,
    ) by {
        assert(has_user_with_id(s.users, s.mfa_methods[i].user_id));
        let w = choose|w: int|
            0 <= w < s.users.len() && #[trigger] s.users[w].id == s.mfa_methods[i].user_id;
        assert(s.mfa_methods[i].user_id != id);
        assert(s.users[idx].id == id);
        assert(w != idx);
        if w < idx {
            assert(s1.users[w].id == s.mfa_methods[i].user_id);
        } else {
            assert(s1.users[w - 1] == s.users[w]);
            assert(s1.users[w - 1].id == s.mfa_methods[i].user_id);
        }
    }
}

pub proof fn lemma_add_mfa_method_preserves_inv(
    s: StoreView,
    user_id: int,
    kind: Seq<char>,
    secret: Seq<char>,
)
    requires
        store_inv(s),
        has_user_with_id(s.users, user_id),
    ensures
        store_inv(add_mfa_method_next(s, user_id, kind, secret)),
{
    let m = fresh_mfa_method(s, user_id, kind, secret);
    let s1 = add_mfa_method_next(s, user_id, kind, secret);
    assert(s1.mfa_methods == s.mfa_methods.push(m));
    assert forall|i: int| 0 <= i < s1.users.len() implies user_row_wf(#[trigger] s1.users[i], s1) by {
        assert(user_row_wf(s.users[i], s));
    }
    assert forall|i: int| 0 <= i < s1.mfa_methods.len() implies mfa_row_wf(
        #[trigger] s1.mfa_methods[i],
        s1,
    ) by {
        if i < s.mfa_methods.len() {
            assert(s1.mfa_methods[i] == s.mfa_methods[i]);
            assert(mfa_row_wf(s.mfa_methods[i], s));
        } else {
            assert(s1.mfa_methods[i] == m);
        }
    }
    assert forall|i: int, j: int|
        0 <= i < j < s1.mfa_methods.len() implies (#[trigger] s1.mfa_methods[i]).id != (
    #[trigger] s1.mfa_methods[j]).id by {
        if j < s.mfa_methods.len() {
            assert(s1.mfa_methods[i] == s.mfa_methods[i] && s1.mfa_methods[j] == s.mfa_methods[j]);
        } else {
            assert(s1.mfa_methods[i] == s.mfa_methods[i] && s1.mfa_methods[j] == m);
            assert(mfa_row_wf(s.mfa_methods[i], s));
        }
    }
    assert forall|i: int, j: int|
        0 <= i < s1.users.len() && 0 <= j < s1.mfa_methods.len() implies (
    #[trigger] s1.users[i]).id != (#[trigger] s1.mfa_methods[j]).id by {
        assert(user_row_wf(s.users[i], s));
        if j < s.mfa_methods.len() {
            assert(s1.mfa_methods[j] == s.mfa_methods[j]);
        } else {
            assert(s1.mfa_methods[j] == m);
        }
    }
    assert forall|i: int| 0 <= i < s1.mfa_methods.len() implies has_user_with_id(
        s1.users,
        (#[trigger] s1.mfa_methods[i]).user_id,
    ) by {
        if i < s.mfa_methods.len() {
            assert(s1.mfa_methods[i] == s.mfa_methods[i]);
            assert(has_user_with_id(s.users, s.mfa_methods[i].user_id));
        } else {
            assert(s1.mfa_methods[i] == m);
        }
    }
    assert forall|i: int, j: int|
        0 <= i < j < s1.mfa_methods.len() implies (#[trigger] s1.mfa_methods[i]).created_at <= (
    #[trigger] s1.mfa_methods[j]).created_at by {
        if j < s.mfa_methods.len() {
            assert(s1.mfa_methods[i] == s.mfa_methods[i] && s1.mfa_methods[j] == s.mfa_methods[j]);
        } else {
            assert(s1.mfa_methods[i] == s.mfa_methods[i] && s1.mfa_methods[j] == m);
            assert(mfa_row_wf(s.mfa_methods[i], s));
        }
    }
}

pub proof fn lemma_delete_mfa_method_preserves_inv(s: StoreView, mfa_id: int)
    requires
        store_inv(s),
        has_mfa_with_id(s.mfa_methods, mfa_id),
    ensures
        store_inv(delete_mfa_method_next(s, mfa_id)),
{
    lemma_mfa_index_by_id_in_range(s.mfa_methods, mfa_id);
    let idx = mfa_index_by_id(s.mfa_methods, mfa_id);
    let s1 = delete_mfa_method_next(s, mfa_id);
    assert(s1.mfa_methods == s.mfa_methods.remove(idx));
    s.mfa_methods.remove_ensures(idx);
    assert forall|k: int| 0 <= k < s1.mfa_methods.len() implies mfa_row_wf(
        #[trigger] s1.mfa_methods[k],
        s1,
    ) && has_user_with_id(s1.users, s1.mfa_methods[k].user_id) by {
        let k0: int = if k < idx {
            k
        } else {
            k + 1
        };
        assert(s1.mfa_methods[k] == s.mfa_methods[k0]);
        assert(mfa_row_wf(s.mfa_methods[k0], s));
        assert(has_user_with_id(s.users, s.mfa_methods[k0].user_id));
    }
    assert forall|i: int, j: int|
        0 <= i < j < s1.mfa_methods.len() implies (#[trigger] s1.mfa_methods[i]).id != (
    #[trigger] s1.mfa_methods[j]).id && (s1.mfa_methods[i]).created_at <= (
    s1.mfa_methods[j]).created_at by {
        let i0: int = if i < idx {
            i
        } else {
            i + 1
        };
        let j0: int = if j < idx {
            j
        } else {
            j + 1
        };
        assert(s1.mfa_methods[i] == s.mfa_methods[i0] && s1.mfa_methods[j] == s.mfa_methods[j0]);
        assert(s.mfa_methods[i0].id != s.mfa_methods[j0].id);
        assert(s.mfa_methods[i0].created_at <= s.mfa_methods[j0].created_at);
    }
    assert forall|i: int, j: int|
        0 <= i < s1.users.len() && 0 <= j < s1.mfa_methods.len() implies (
    #[trigger] s1.users[i]).id != (#[trigger] s1.mfa_methods[j]).id by {
        let j0: int = if j < idx {
            j
        } else {
            j + 1
        };
        assert(s1.mfa_methods[j] == s.mfa_methods[j0]);
        assert(s.users[i].id != s.mfa_methods[j0].id);
    }
}

// ---------------------------------------------------------------------------
// Facts about the per-user listing
// ---------------------------------------------------------------------------

/// Listing keeps table order, so a listing of a table that sits in
/// `created_at` order is itself in non-decreasing `created_at` order; every
/// returned row belongs to the requested user; and every returned row's
/// `created_at` is bounded by the last row of the table.
pub proof fn lemma_mfa_for_user_sorted(methods: Seq<MfaMethodView>, user_id: int)
    requires
        sorted_by_created_at(methods),
    ensures
        sorted_by_created_at(mfa_for_user(methods, user_id)),
        forall|k: int|
            0 <= k < mfa_for_user(methods, user_id).len() ==> (#[trigger] mfa_for_user(
                methods,
                user_id,
            )[k]).user_id == user_id,
        methods.len() > 0 ==> forall|k: int|
            0 <= k < mfa_for_user(methods, user_id).len() ==> (#[trigger] mfa_for_user(
                methods,
                user_id,
            )[k]).created_at <= methods.last().created_at,
    decreases methods.len(),
{
    if methods.len() == 0 {
    } else {
        let prefix = methods.drop_last();
        assert forall|i: int, j: int|
            0 <= i < j < prefix.len() implies (#[trigger] prefix[i]).created_at <= (
        #[trigger] prefix[j]).created_at by {
            assert(methods[i].created_at <= methods[j].created_at);
        }
        lemma_mfa_for_user_sorted(prefix, user_id);
        let rest = mfa_for_user(prefix, user_id);
        if prefix.len() > 0 {
            assert(prefix.last() == methods[methods.len() - 2]);
            assert(methods[methods.len() - 2].created_at <= methods.last().created_at);
        }
        if methods.last().user_id == user_id {
            let out = rest.push(methods.last());
            assert(mfa_for_user(methods, user_id) == out);
            assert forall|i: int, j: int|
                0 <= i < j < out.len() implies (#[trigger] out[i]).created_at <= (
            #[trigger] out[j]).created_at by {
                if j < rest.len() {
                    assert(out[i] == rest[i] && out[j] == rest[j]);
                } else {
                    assert(out[j] == methods.last());
                    assert(out[i] == rest[i]);
                }
            }
        }
    }
}

/// A user with no MFA rows gets the empty listing, and only such a user does.
pub proof fn lemma_mfa_for_user_empty(methods: Seq<MfaMethodView>, user_id: int)
    ensures
        mfa_for_user(methods, user_id).len() == 0 <==> !has_mfa_for_user(methods, user_id),
    decreases methods.len(),
{
    if methods.len() == 0 {
    } else {
        let prefix = methods.drop_last();
        lemma_mfa_for_user_empty(prefix, user_id);
        if methods.last().user_id == user_id {
            assert(has_mfa_for_user(methods, user_id));
        } else {
            assert(has_mfa_for_user(prefix, user_id) <==> has_mfa_for_user(methods, user_id)) by {
                if has_mfa_for_user(prefix, user_id) {
                    let w = choose|w: int|
                        0 <= w < prefix.len() && #[trigger] prefix[w].user_id == user_id;
                    assert(methods[w].user_id == user_id);
                }
                if has_mfa_for_user(methods, user_id) {
                    let w = choose|w: int|
                        0 <= w < methods.len() && #[trigger] methods[w].user_id == user_id;
                    assert(w != methods.len() - 1);
                    assert(prefix[w].user_id == user_id);
                }
            }
        }
    }
}

} // verus!
