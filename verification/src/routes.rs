//! The decisions behind the endpoints: what a login attempt is answered
//! with, and what a guarded request is answered with once the store has
//! done its part.

use crate::jwt_impl::current_seconds;
use crate::jwt_impl::decoded_claims;
use crate::jwt_impl::issued_claims;
use crate::jwt_impl::issued_token;
use crate::jwt_impl::jwt_generate_at;
use crate::jwt_impl::role_names;
use crate::jwt_impl::token_accepted;
use crate::jwt_impl::MIN_KEY_LEN;
use crate::jwt_impl::ONE_WEEK;
use crate::models::NewUser;
use crate::models::User;
use crate::pw_hashing::hash_data;
use crate::pw_hashing::input_ok;
use crate::pw_hashing::is_salt;
use crate::pw_hashing::local_salt_ok;
use crate::pw_hashing::password_hash;
use vstd::prelude::*;

verus! {

/// Status of an answer that carries what was asked for.
pub const STATUS_OK: u16 = 200;

/// Status of an answer to a request that was denied or found nothing.
pub const STATUS_NOT_FOUND: u16 = 404;

/// What a denied request is handed in place of a result.
pub const DENIED_RESULT: &'static str = "[]";

/// A login attempt, and the form in which a new user is submitted.
pub struct Login {
    pub username: String,
    pub password: String,
}

/// The answer to a login attempt: whether it succeeded, and the token if it
/// did (empty otherwise).
pub struct LoginResponse {
    pub status: bool,
    pub result: String,
}

/// The roles that every successful login is granted.
pub open spec fn login_roles() -> Seq<Seq<char>> {
    seq!["admin"@]
}

impl Login {
    /// Turns the submitted form into a storable user: the name as given, the
    /// password replaced by its hash under a fresh salt.
    pub fn hash_user(&self, local_salt: &str) -> (user: NewUser)
        requires
            input_ok(self.password@),
            local_salt_ok(local_salt@),
        ensures
            user.username@ == self.username@,
            is_salt(user.pw_salt@),
            user.pw_hash@ == password_hash(self.password@, user.pw_salt@, local_salt@),
    {
        let hashed_data = hash_data(self.password.as_str(), local_salt);
        NewUser {
            username: self.username.clone(),
            pw_hash: hashed_data.hash,
            pw_salt: hashed_data.salt,
        }
    }
}

/// What a login at the time `now` is answered with, given the record that
/// the store found for the name.
///
/// The attempt succeeds when the record admits it and a token could be
/// signed; the token then names the user, carries the one role `admin`, and
/// is accepted under the same key until it expires.
pub fn login_at(
    login_form: &Login,
    found: Option<User>,
    local_salt: &str,
    key: &[u8],
    now: i64,
) -> (response: LoginResponse)
    requires
        input_ok(login_form.password@),
        local_salt_ok(local_salt@),
        found matches Some(u) ==> input_ok(u.pw_salt@),
        key@.len() >= MIN_KEY_LEN,
        now + ONE_WEEK <= i64::MAX,
    ensures
        response.status == (User::admits(
            found,
            login_form.username@,
            login_form.password@,
            local_salt@,
        ) && issued_token(now, login_form.username@, login_roles(), key@) is Some),
        response.status ==> issued_token(now, login_form.username@, login_roles(), key@) == Some(
            response.result@,
        ),
        response.status ==> decoded_claims(response.result@, key@) == Some(
            issued_claims(now, login_form.username@, login_roles()),
        ),
        response.status ==> forall|at: i64|
            at <= now + ONE_WEEK ==> #[trigger] token_accepted(response.result@, key@, at),
        !response.status ==> response.result@ == Seq::<char>::empty(),
{
    let validation_ok = User::exists_with_username_and_password(
        login_form.username.as_str(),
        login_form.password.as_str(),
        found,
        local_salt,
    );
    let roles = vec!["admin".to_owned()];
    assert(role_names(roles@) =~= login_roles());
    let jwt_token = jwt_generate_at(login_form.username.clone(), roles, now, key);
    match jwt_token {
        Some(token) => {
            if validation_ok {
                LoginResponse { status: true, result: token }
            } else {
                LoginResponse { status: false, result: String::new() }
            }
        },
        None => LoginResponse { status: false, result: String::new() },
    }
}

/// What a login at the present time is answered with.
///
/// The answer is the one that `login_answer_at` describes for the clock's
/// reading. So an attempt that the record does not admit is refused with an
/// empty token, whatever the clock says; a token that is handed out is the
/// one issued at that reading and was accepted under the same key then.
pub fn login(login_form: &Login, found: Option<User>, local_salt: &str, key: &[u8]) -> (response:
    LoginResponse)
    requires
        input_ok(login_form.password@),
        local_salt_ok(local_salt@),
        found matches Some(u) ==> input_ok(u.pw_salt@),
        key@.len() >= MIN_KEY_LEN,
    ensures
        exists|now: i64| #[trigger]
            login_answer_at(
                response,
                User::admits(found, login_form.username@, login_form.password@, local_salt@),
                login_form.username@,
                key@,
                now,
            ),
        response.status ==> User::admits(
            found,
            login_form.username@,
            login_form.password@,
            local_salt@,
        ),
        !response.status ==> response.result@ == Seq::<char>::empty(),
{
    let ghost admitted = User::admits(
        found,
        login_form.username@,
        login_form.password@,
        local_salt@,
    );
    let now = current_seconds();
    if now > i64::MAX - ONE_WEEK {
        let response = LoginResponse { status: false, result: String::new() };
        assert(login_answer_at(response, admitted, login_form.username@, key@, now));
        return response;
    }
    let response = login_at(login_form, found, local_salt, key, now);
    assert(login_answer_at(response, admitted, login_form.username@, key@, now));
    response
}

/// The greeting at the root.
pub fn index() -> (greeting: &'static str)
    ensures
        greeting@ == "Hello, world!"@,
{
    "Hello, world!"
}

/// Status of the answer to a request for the list of users: the list is
/// handed out only to a caller with access.
pub fn all_users(has_access: bool) -> (status: u16)
    ensures
        status == if has_access { STATUS_OK } else { STATUS_NOT_FOUND },
{
    if has_access {
        STATUS_OK
    } else {
        STATUS_NOT_FOUND
    }
}

/// Answer to the submission of a new user: whether the store took it, and
/// the newest record of the list that the store then gave, if it has one.
pub fn new_user(insert_ok: bool, users: &Vec<User>) -> (answer: (bool, Option<&User>))
    ensures
        answer.0 == insert_ok,
        answer.1 == (if users@.len() > 0 { Some(&users@[0]) } else { None }),
{
    if users.len() > 0 {
        (insert_ok, Some(&users[0]))
    } else {
        (insert_ok, None)
    }
}

/// Status of the answer to a request for one user, given the rows that the
/// store found: a caller without access learns nothing, not even whether
/// the user exists.
pub fn show_user(has_access: bool, rows: &Vec<User>) -> (status: u16)
    ensures
        status == if has_access && rows@.len() > 0 { STATUS_OK } else { STATUS_NOT_FOUND },
{
    if has_access && !rows.is_empty() {
        STATUS_OK
    } else {
        STATUS_NOT_FOUND
    }
}

/// Status of the answer to an update, given whether the store changed a row.
pub fn update_user(has_access: bool, updated: bool) -> (status: u16)
    ensures
        status == if has_access && updated { STATUS_OK } else { STATUS_NOT_FOUND },
{
    if has_access && updated {
        STATUS_OK
    } else {
        STATUS_NOT_FOUND
    }
}

/// Status of the answer to a deletion, given whether the store removed a row.
pub fn delete_user(has_access: bool, deleted: bool) -> (status: u16)
    ensures
        status == if has_access && deleted { STATUS_OK } else { STATUS_NOT_FOUND },
{
    if has_access && deleted {
        STATUS_OK
    } else {
        STATUS_NOT_FOUND
    }
}

/// What a login is answered with when the clock reads `now`, given whether
/// the record admits the attempt.
///
/// Where the expiry cannot be represented the attempt is refused. Otherwise
/// it succeeds exactly when it is admitted and the token could be signed;
/// the result is then that token, which is accepted at `now`. A refusal
/// carries the empty token.
pub open spec fn login_answer_at(
    response: LoginResponse,
    admitted: bool,
    username: Seq<char>,
    key: Seq<u8>,
    now: i64,
) -> bool {
    if now + ONE_WEEK > i64::MAX {
        !response.status && response.result@ == Seq::<char>::empty()
    } else {
        &&& response.status == (admitted && issued_token(now, username, login_roles(), key)
            is Some)
        &&& response.status ==> issued_token(now, username, login_roles(), key) == Some(
            response.result@,
        )
        &&& response.status ==> token_accepted(response.result@, key, now)
        &&& !response.status ==> response.result@ == Seq::<char>::empty()
    }
}

} // verus!
