//! Signed session tokens: issued for a subject and its roles with an absolute
//! expiry one week ahead, and accepted while the signature holds under the
//! process key and the expiry has not passed.

use jsonwebtoken::DecodingKey;
use jsonwebtoken::EncodingKey;
use jsonwebtoken::Header;
use jsonwebtoken::Validation;
use serde_json::Value;
use vstd::prelude::*;

verus! {

/// Lifetime of a token in seconds: seven days.
pub const ONE_WEEK: i64 = 604800;

/// Name of the cookie that carries the token.
pub const JWT_COOKIE: &'static str = "jwt";

/// Fewest bytes a signing key may have.
pub const MIN_KEY_LEN: usize = 16;

/// The claims a token carries.
pub struct UserRolesToken {
    /// issued at, in seconds since the epoch
    pub iat: i64,
    /// expiration, in seconds since the epoch
    pub exp: i64,
    pub user: String,
    pub roles: Vec<String>,
}

/// The role names of a list of roles, each as its text.
pub open spec fn role_names(roles: Seq<String>) -> Seq<Seq<char>> {
    roles.map_values(|role: String| role@)
}

impl UserRolesToken {
    /// The claims as plain values: issue time, expiry, subject, roles.
    pub open spec fn fields(self) -> (i64, i64, Seq<char>, Seq<Seq<char>>) {
        (self.iat, self.exp, self.user@, role_names(self.roles@))
    }

    /// Is `role` among the roles that the token asserts?
    pub fn has_role(&self, role: &str) -> (found: bool)
        ensures
            found == role_names(self.roles@).contains(role@),
    {
        let wanted = role.to_owned();
        let mut i: usize = 0;
        while i < self.roles.len()
            invariant
                i <= self.roles.len(),
                wanted@ == role@,
                forall|j: int| 0 <= j < i ==> role_names(self.roles@)[j] != role@,
            decreases self.roles.len() - i,
        {
            if self.roles[i] == wanted {
                assert(role_names(self.roles@)[i as int] == role@);
                return true;
            }
            i += 1;
        }
        false
    }

    /// A token is live up to and including the second of its expiry.
    pub open spec fn live_at(self, now: i64) -> bool {
        self.exp >= now
    }

    /// Has the expiry not yet passed at `now`?
    pub fn is_live_at(&self, now: i64) -> (live: bool)
        ensures
            live == self.live_at(now),
    {
        self.exp >= now
    }
}

/// The token that signing the claims `{iat, exp, user, roles}` under `key`
/// with HMAC-SHA256 and the default header yields, if signing succeeds.
pub uninterp spec fn signed_token(
    iat: i64,
    exp: i64,
    user: Seq<char>,
    roles: Seq<Seq<char>>,
    key: Seq<u8>,
) -> Option<Seq<char>>;

/// The claims `(iat, exp, user, roles)` of a token whose structure is sound
/// and whose signature holds under `key`; `None` for every other text. The
/// expiry is not looked at.
pub uninterp spec fn decoded_claims(token: Seq<char>, key: Seq<u8>) -> Option<
    (i64, i64, Seq<char>, Seq<Seq<char>>),
>;

/// The token issued at `now`: it expires `ONE_WEEK` seconds later.
pub open spec fn issued_token(
    now: i64,
    user: Seq<char>,
    roles: Seq<Seq<char>>,
    key: Seq<u8>,
) -> Option<Seq<char>> {
    signed_token(now, (now + ONE_WEEK) as i64, user, roles, key)
}

/// The claims of the token issued at `now`.
pub open spec fn issued_claims(now: i64, user: Seq<char>, roles: Seq<Seq<char>>) -> (
    i64,
    i64,
    Seq<char>,
    Seq<Seq<char>>,
) {
    (now, (now + ONE_WEEK) as i64, user, roles)
}

/// A token is accepted at `now` when it decodes under `key` and is still live.
pub open spec fn token_accepted(token: Seq<char>, key: Seq<u8>, now: i64) -> bool {
    match decoded_claims(token, key) {
        Some(claims) => claims.1 >= now,
        None => false,
    }
}

/// Calls `jsonwebtoken::encode` with `Header::default()` and an HMAC key made
/// by `EncodingKey::from_secret`, on a JSON object with the four claims.
///
/// Trusted: the outcome is a function of the claims and the key, and a token
/// that was signed decodes under the same key to the claims it was made from.
#[verifier::external_body]
fn encode_claims(claims: &UserRolesToken, key: &[u8]) -> (token: Option<String>)
    ensures
        match token {
            Some(t) => signed_token(
                claims.iat,
                claims.exp,
                claims.user@,
                role_names(claims.roles@),
                key@,
            ) == Some(t@) && decoded_claims(t@, key@) == Some(claims.fields()),
            None => signed_token(
                claims.iat,
                claims.exp,
                claims.user@,
                role_names(claims.roles@),
                key@,
            ) is None,
        },
{
    let mut object = serde_json::Map::new();
    object.insert("iat".to_string(), Value::from(claims.iat));
    object.insert("exp".to_string(), Value::from(claims.exp));
    object.insert("user".to_string(), Value::from(claims.user.clone()));
    object.insert("roles".to_string(), Value::from(claims.roles.clone()));
    jsonwebtoken::encode(&Header::default(), &object, &EncodingKey::from_secret(key)).ok()
}

/// Calls `jsonwebtoken::decode` with an HMAC key made by
/// `DecodingKey::from_secret` and the default validation, its expiry check
/// switched off, then reads the four claims out of the JSON payload.
///
/// Trusted: the outcome is a function of the token and the key. Nothing is
/// claimed about which tokens decode.
#[verifier::external_body]
fn decode_claims(token: &str, key: &[u8]) -> (claims: Option<UserRolesToken>)
    ensures
        match claims {
            Some(c) => decoded_claims(token@, key@) == Some(c.fields()),
            None => decoded_claims(token@, key@) is None,
        },
{
    let mut checks = Validation::default();
    checks.validate_exp = false;
    checks.required_spec_claims.clear();
    let data = jsonwebtoken::decode::<Value>(token, &DecodingKey::from_secret(key), &checks).ok()?;
    let c = data.claims;
    let fields = Value::Array(vec![c["iat"].clone(), c["exp"].clone(), c["user"].clone(), c["roles"].clone()]);
    let (iat, exp, user, roles) = serde_json::from_value::<(i64, i64, String, Vec<String>)>(fields).ok()?;
    Some(UserRolesToken { iat, exp, user, roles })
}

/// Calls `time::get_time` and hands back its seconds since the epoch.
///
/// Trusted: nothing; the clock may say anything.
#[verifier::external_body]
pub(crate) fn current_seconds() -> i64 {
    time::get_time().sec
}

/// Issues a token for `user` with `roles` at the time `now`.
///
/// The token expires `ONE_WEEK` seconds after `now`, and is accepted under the
/// same key at every moment up to that expiry.
pub fn jwt_generate_at(user: String, roles: Vec<String>, now: i64, key: &[u8]) -> (token:
    Option<String>)
    requires
        key@.len() >= MIN_KEY_LEN,
        now + ONE_WEEK <= i64::MAX,
    ensures
        match token {
            Some(t) => issued_token(now, user@, role_names(roles@), key@) == Some(t@),
            None => issued_token(now, user@, role_names(roles@), key@) is None,
        },
        token matches Some(t) ==> decoded_claims(t@, key@) == Some(
            issued_claims(now, user@, role_names(roles@)),
        ),
        token matches Some(t) ==> forall|at: i64|
            at <= now + ONE_WEEK ==> #[trigger] token_accepted(t@, key@, at),
{
    let payload = UserRolesToken { iat: now, exp: now + ONE_WEEK, user: user, roles: roles };
    encode_claims(&payload, key)
}

/// Issues a token for `user` with `roles` at the present time.
///
/// The outcome is what issuing at the clock's reading gives: the token
/// issued at that moment, which is accepted at that moment, or `None` when
/// the reading is so far ahead that the expiry cannot be represented or
/// when signing fails.
pub fn jwt_generate(user: String, roles: Vec<String>, key: &[u8]) -> (token: Option<String>)
    requires
        key@.len() >= MIN_KEY_LEN,
    ensures
        exists|now: i64|
            token_text(token) == #[trigger] generated_at(now, user@, role_names(roles@), key@) && (
            token matches Some(t) ==> token_accepted(t@, key@, now)),
{
    let now = current_seconds();
    if now > i64::MAX - ONE_WEEK {
        assert(token_text(None) == generated_at(now, user@, role_names(roles@), key@));
        return None;
    }
    let token = jwt_generate_at(user, roles, now, key);
    assert(token_text(token) == generated_at(now, user@, role_names(roles@), key@));
    token
}

/// Is the presented token, if there is one, accepted at `now`?
pub fn has_access_at(token: Option<&str>, key: &[u8], now: i64) -> (granted: bool)
    requires
        key@.len() >= MIN_KEY_LEN,
    ensures
        granted == match token {
            Some(t) => token_accepted(t@, key@, now),
            None => false,
        },
{
    match token {
        Some(t) => match decode_claims(t, key) {
            Some(claims) => claims.is_live_at(now),
            None => false,
        },
        None => false,
    }
}

/// Is `i` the place of the first cookie called `name`?
pub open spec fn is_first_named(cookies: Seq<(String, String)>, name: Seq<char>, i: int) -> bool {
    &&& 0 <= i < cookies.len()
    &&& cookies[i].0@ == name
    &&& forall|j: int| 0 <= j < i ==> (#[trigger] cookies[j]).0@ != name
}

/// The value of the first cookie called `name`, if there is one.
pub open spec fn cookie_value(cookies: Seq<(String, String)>, name: Seq<char>) -> Option<
    Seq<char>,
> {
    if exists|i: int| is_first_named(cookies, name, i) {
        Some(cookies[choose|i: int| is_first_named(cookies, name, i)].1@)
    } else {
        None
    }
}

/// The token that a request presents: the value of its first `jwt` cookie.
/// `cookies` holds the request's cookies as pairs of name and value.
pub fn jwt_cookie(cookies: &Vec<(String, String)>) -> (token: Option<&str>)
    ensures
        match token {
            Some(t) => cookie_value(cookies@, JWT_COOKIE@) == Some(t@),
            None => cookie_value(cookies@, JWT_COOKIE@) is None,
        },
{
    let name = JWT_COOKIE.to_owned();
    let mut i: usize = 0;
    while i < cookies.len()
        invariant
            i <= cookies.len(),
            name@ == JWT_COOKIE@,
            forall|j: int| 0 <= j < i ==> (#[trigger] cookies@[j]).0@ != JWT_COOKIE@,
        decreases cookies.len() - i,
    {
        if cookies[i].0 == name {
            proof {
                assert(is_first_named(cookies@, JWT_COOKIE@, i as int));
                let k = choose|k: int| is_first_named(cookies@, JWT_COOKIE@, k);
                assert(k == i) by {
                    if k < i {
                        assert(cookies@[k].0@ != JWT_COOKIE@);
                    }
                    if i < k {
                        assert(cookies@[i as int].0@ != JWT_COOKIE@);
                    }
                }
            }
            return Some(cookies[i].1.as_str());
        }
        i += 1;
    }
    proof {
        assert forall|k: int| !is_first_named(cookies@, JWT_COOKIE@, k) by {
            if 0 <= k < cookies@.len() {
                assert(cookies@[k].0@ != JWT_COOKIE@);
            }
        }
    }
    None
}

/// Do the cookies of a request carry a token that is accepted at `now`?
pub open spec fn cookies_accepted(cookies: Seq<(String, String)>, key: Seq<u8>, now: i64) -> bool {
    match cookie_value(cookies, JWT_COOKIE@) {
        Some(token) => token_accepted(token, key, now),
        None => false,
    }
}

/// Does the request carry a `jwt` cookie whose token is accepted at the
/// present time?
///
/// The answer is that of `cookies_accepted` at the clock's reading. So a
/// request without that cookie is denied, and so is every token that does
/// not decode under `key`, whatever the clock says.
pub fn has_access(cookies: &Vec<(String, String)>, key: &[u8]) -> (granted: bool)
    requires
        key@.len() >= MIN_KEY_LEN,
    ensures
        exists|now: i64| granted == #[trigger] cookies_accepted(cookies@, key@, now),
        cookie_value(cookies@, JWT_COOKIE@) is None ==> !granted,
        granted ==> decoded_claims(cookie_value(cookies@, JWT_COOKIE@).unwrap(), key@) is Some,
{
    let token = jwt_cookie(cookies);
    let now = current_seconds();
    let granted = has_access_at(token, key, now);
    assert(granted == cookies_accepted(cookies@, key@, now));
    granted
}

/// Is `token` accepted at the present time?
///
/// The answer is that of `token_accepted` at the clock's reading, so a token
/// that does not decode under `key` is refused whatever the clock says.
pub fn has_access_from_jwt_token_str(token: &String, key: &[u8]) -> (granted: bool)
    requires
        key@.len() >= MIN_KEY_LEN,
    ensures
        exists|now: i64| granted == #[trigger] token_accepted(token@, key@, now),
        decoded_claims(token@, key@) is None ==> !granted,
{
    let now = current_seconds();
    let granted = has_access_at(Some(token.as_str()), key, now);
    assert(granted == token_accepted(token@, key@, now));
    granted
}

/// A token whose expiry lies before `now` is refused; one whose expiry lies
/// at `now` or later is accepted, so a token that expires one second ahead
/// still passes.
pub proof fn lemma_expiry_boundary(token: Seq<char>, key: Seq<u8>, now: i64)
    requires
        decoded_claims(token, key) is Some,
    ensures
        decoded_claims(token, key).unwrap().1 < now ==> !token_accepted(token, key, now),
        decoded_claims(token, key).unwrap().1 >= now ==> token_accepted(token, key, now),
        decoded_claims(token, key).unwrap().1 == now + 1 ==> token_accepted(token, key, now),
{
}

/// The text of a token, if there is one.
pub open spec fn token_text(token: Option<String>) -> Option<Seq<char>> {
    match token {
        Some(t) => Some(t@),
        None => None,
    }
}

/// What issuing gives when the clock reads `now`: nothing where the expiry
/// cannot be represented, and the token issued at `now` otherwise.
pub open spec fn generated_at(
    now: i64,
    user: Seq<char>,
    roles: Seq<Seq<char>>,
    key: Seq<u8>,
) -> Option<Seq<char>> {
    if now + ONE_WEEK > i64::MAX {
        None
    } else {
        issued_token(now, user, roles, key)
    }
}

} // verus!
