//! User records as the store holds them, and the check of a login attempt
//! against the record that the store found.

use crate::pw_hashing::compare_input_to_hashed_value;
use crate::pw_hashing::input_ok;
use crate::pw_hashing::local_salt_ok;
use crate::pw_hashing::password_hash;
use vstd::prelude::*;

verus! {

/// A stored user. The hash and the salt never hold the plaintext.
pub struct User {
    pub id: i32,
    pub username: String,
    pub pw_hash: String,
    pub pw_salt: String,
}

/// A user that is about to be stored: no identity key yet.
pub struct NewUser {
    pub username: String,
    pub pw_hash: String,
    pub pw_salt: String,
}

impl User {
    /// The record is the one for `username`, and `password` hashes to what it
    /// stores. Names are compared exactly, with no case folding.
    pub open spec fn matches_login(
        self,
        username: Seq<char>,
        password: Seq<char>,
        local_salt: Seq<char>,
    ) -> bool {
        &&& self.username@ == username
        &&& self.pw_hash@ == password_hash(password, self.pw_salt@, local_salt)
    }

    /// Does the record that the store found, if any, admit this login?
    pub open spec fn admits(
        found: Option<User>,
        username: Seq<char>,
        password: Seq<char>,
        local_salt: Seq<char>,
    ) -> bool {
        match found {
            Some(user) => user.matches_login(username, password, local_salt),
            None => false,
        }
    }

    /// Hands back the record that the store found for `username` if
    /// `password` is the one it was stored with, and nothing otherwise.
    pub fn get_by_username_and_password(
        username: &str,
        password: &str,
        found: Option<User>,
        local_salt: &str,
    ) -> (user: Option<User>)
        requires
            input_ok(password@),
            local_salt_ok(local_salt@),
            found matches Some(u) ==> input_ok(u.pw_salt@),
        ensures
            user == (if User::admits(found, username@, password@, local_salt@) {
                found
            } else {
                None
            }),
    {
        match found {
            None => None,
            Some(user_by_name) => {
                let wanted = username.to_owned();
                if user_by_name.username != wanted {
                    return None;
                }
                let pw_ok = compare_input_to_hashed_value(
                    password,
                    user_by_name.pw_hash.as_str(),
                    user_by_name.pw_salt.as_str(),
                    local_salt,
                );
                if pw_ok {
                    Some(user_by_name)
                } else {
                    None
                }
            },
        }
    }

    /// Is there a record for `username` that was stored with `password`?
    pub fn exists_with_username_and_password(
        username: &str,
        password: &str,
        found: Option<User>,
        local_salt: &str,
    ) -> (exists: bool)
        requires
            input_ok(password@),
            local_salt_ok(local_salt@),
            found matches Some(u) ==> input_ok(u.pw_salt@),
        ensures
            exists == User::admits(found, username@, password@, local_salt@),
    {
        let maybe_user = User::get_by_username_and_password(username, password, found, local_salt);
        match maybe_user {
            Some(_) => true,
            None => false,
        }
    }
}

} // verus!
