//! Identity store: registration against the user table and the caller-driven
//! authentication flow.

use vstd::prelude::*;

use crate::menu::Register;
use crate::key::hash_password;
use crate::key::pwd_verifies;
use crate::key::random_bytes32;
use crate::key::verify_password;
use crate::peer::copy_bytes;
use crate::store::Store;
use crate::store::StoreError;
use crate::store::UserRecord;
use crate::store::copy_user;
use crate::store::find_by_phone;

verus! {

/// Authentication outcomes that are not errors: they drive the operator's
/// retry-or-register decision.
#[derive(Debug, Clone, Copy, PartialEq, Eq)]
pub enum AuthOutcome {
    /// No user has this phone number; the caller may offer registration.
    NoSuchUser,
    /// The password did not verify; the caller may retry or register.
    BadPassword,
}

/// Same row content, field for field, up to views.
pub open spec fn same_user(a: UserRecord, b: UserRecord) -> bool {
    &&& a.id == b.id
    &&& a.name@ == b.name@
    &&& a.phone_no == b.phone_no
    &&& a.password@ == b.password@
    &&& a.secret_key@ == b.secret_key@
    &&& a.admin == b.admin
}

/// Register a new user: hash the password, generate a 32-byte secret key,
/// insert the row with `admin` false, and return the persisted row. Fails
/// with `PhoneTaken`, leaving the store unchanged, exactly when the phone
/// number is already present; `Hash` reports a failure of the hashing
/// primitive, also leaving the store unchanged.
pub fn create_user(store: &mut Store, name: String, phone_no: u64, password: &str) -> (r: Result<
    UserRecord,
    StoreError,
>)
    requires
        old(store).wf(),
        old(store).next_user_id < u64::MAX,
    ensures
        final(store).wf(),
        final(store).groups@ == old(store).groups@,
        final(store).next_group_id == old(store).next_group_id,
        find_by_phone(old(store).users@, phone_no) is Some <==> r == Err::<
            UserRecord,
            StoreError,
        >(StoreError::PhoneTaken),
        r is Err ==> *final(store) == *old(store),
        find_by_phone(old(store).users@, phone_no) is None ==> (r is Ok || r == Err::<
            UserRecord,
            StoreError,
        >(StoreError::Hash)),
        r matches Ok(u) ==> {
            &&& u.id == old(store).next_user_id
            &&& u.name@ == name@
            &&& u.phone_no == phone_no
            &&& u.admin == false
            &&& pwd_verifies(u.password@, password@)
            &&& u.secret_key@.len() == 32
            &&& final(store).users@.len() == old(store).users@.len() + 1
            &&& final(store).users@.drop_last() == old(store).users@
            &&& same_user(final(store).users@.last(), u)
            &&& final(store).next_user_id == old(store).next_user_id + 1
            &&& final(store).groups@ == old(store).groups@
        },
{
    if store.find_user_by_phone(phone_no).is_some() {
        return Err(StoreError::PhoneTaken);
    }
    match hash_password(password) {
        None => Err(StoreError::Hash),
        Some(hash) => {
            let secret_key = random_bytes32();
            let ret = UserRecord {
                id: store.next_user_id,
                name: name.clone(),
                phone_no,
                password: hash.clone(),
                secret_key: copy_bytes(&secret_key),
                admin: false,
            };
            match store.insert_user(name, phone_no, hash, secret_key) {
                Ok(_) => Ok(ret),
                Err(e) => Err(e),
            }
        },
    }
}

/// Authenticate by phone number and password: `NoSuchUser` exactly when the
/// phone number is absent; otherwise the stored row exactly when the
/// password verifies against its stored hash, `BadPassword` otherwise.
pub fn authenticate(store: &Store, phone_no: u64, password: &str) -> (r: Result<
    UserRecord,
    AuthOutcome,
>)
    ensures
        match find_by_phone(store.users@, phone_no) {
            None => r == Err::<UserRecord, AuthOutcome>(AuthOutcome::NoSuchUser),
            Some(u) => if pwd_verifies(u.password@, password@) {
                r matches Ok(v) && same_user(v, u)
            } else {
                r == Err::<UserRecord, AuthOutcome>(AuthOutcome::BadPassword)
            },
        },
{
    match store.find_user_by_phone(phone_no) {
        None => Err(AuthOutcome::NoSuchUser),
        Some(u) => {
            if verify_password(u.password.as_str(), password) {
                Ok(copy_user(u))
            } else {
                Err(AuthOutcome::BadPassword)
            }
        },
    }
}

/// The next move of the authentication loop.
#[derive(Debug, Clone, Copy, PartialEq, Eq)]
pub enum AuthStep {
    /// The password verified: the session proceeds as this user.
    Verified,
    /// Ask for the password again.
    AwaitPassword,
    /// Give up on this account and register instead.
    FallbackToRegister,
}

/// One step of the caller-driven retry loop: a successful verification ends
/// it; after a failure the operator's choice selects retrying or falling
/// back to registration. The login choice is not offered at this prompt.
pub fn auth_step(verify_ok: bool, choice_after_failure: &Register) -> (r: AuthStep)
    requires
        !verify_ok ==> !(choice_after_failure matches Register::Login),
    ensures
        verify_ok ==> r == AuthStep::Verified,
        (!verify_ok && (choice_after_failure matches Register::Retry)) ==> r
            == AuthStep::AwaitPassword,
        (!verify_ok && (choice_after_failure matches Register::Register)) ==> r
            == AuthStep::FallbackToRegister,
{
    if verify_ok {
        AuthStep::Verified
    } else {
        match choice_after_failure {
            Register::Retry => AuthStep::AwaitPassword,
            _ => AuthStep::FallbackToRegister,
        }
    }
}

} // verus!
