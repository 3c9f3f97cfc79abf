use vstd::prelude::*;

verus! {

/// A store-generated row identifier.
///
/// The store hands out identifiers that are unique across all time and never
/// the nil value; this layer only ever compares them for equality, so the
/// model keeps them as plain integers.
#[derive(Clone, Copy, Debug, PartialEq, Eq, Structural)]
pub struct Uuid {
    pub value: u128,
}

impl View for Uuid {
    type V = int;

    open spec fn view(&self) -> int {
        self.value as int
    }
}

/// A store-generated point in time, in microseconds since an arbitrary epoch.
///
/// This layer never interprets timestamps beyond comparing them, so a single
/// integer carries everything the contracts speak of.
#[derive(Clone, Copy, Debug, PartialEq, Eq, Structural)]
pub struct Timestamp {
    pub micros: i64,
}

impl View for Timestamp {
    type V = int;

    open spec fn view(&self) -> int {
        self.micros as int
    }
}

/// One row of the users table.
#[derive(Debug)]
pub struct User {
    pub id: Uuid,
    pub email: String,
    pub created_at: Timestamp,
    pub updated_at: Timestamp,
}

/// The mathematical value of a [`User`] row.
#[verifier::ext_equal]
pub struct UserView {
    pub id: int,
    pub email: Seq<char>,
    pub created_at: int,
    pub updated_at: int,
}

impl View for User {
    type V = UserView;

    open spec fn view(&self) -> UserView {
        UserView {
            id: self.id@,
            email: self.email@,
            created_at: self.created_at@,
            updated_at: self.updated_at@,
        }
    }
}

impl Clone for User {
    fn clone(&self) -> (res: Self)
        ensures
            res == *self,
    {
        User {
            id: self.id,
            email: self.email.clone(),
            created_at: self.created_at,
            updated_at: self.updated_at,
        }
    }
}

/// One row of the user_mfa_methods table: a stored credential record for one
/// multi-factor-authentication mechanism bound to a user.  The `kind` and
/// `secret` strings are opaque to this layer.
#[derive(Debug)]
pub struct UserMfaMethod {
    pub id: Uuid,
    pub user_id: Uuid,
    pub kind: String,
    pub secret: String,
    pub created_at: Timestamp,
    pub updated_at: Timestamp,
}

/// The mathematical value of a [`UserMfaMethod`] row.
#[verifier::ext_equal]
pub struct MfaMethodView {
    pub id: int,
    pub user_id: int,
    pub kind: Seq<char>,
    pub secret: Seq<char>,
    pub created_at: int,
    pub updated_at: int,
}

impl View for UserMfaMethod {
    type V = MfaMethodView;

    open spec fn view(&self) -> MfaMethodView {
        MfaMethodView {
            id: self.id@,
            user_id: self.user_id@,
            kind: self.kind@,
            secret: self.secret@,
            created_at: self.created_at@,
            updated_at: self.updated_at@,
        }
    }
}

impl Clone for UserMfaMethod {
    fn clone(&self) -> (res: Self)
        ensures
            res == *self,
    {
        UserMfaMethod {
            id: self.id,
            user_id: self.user_id,
            kind: self.kind.clone(),
            secret: self.secret.clone(),
            created_at: self.created_at,
            updated_at: self.updated_at,
        }
    }
}

} // verus!
