//! Two-stage password hashing: a fresh random salt is first hashed under the
//! process-wide local salt, and the plaintext is then hashed under that
//! intermediate value.

use argon2rs::verifier::Encoded;
use rand::distributions::Alphanumeric;
use rand::Rng;
use vstd::prelude::*;
use vstd::utf8::*;

verus! {

/// Number of characters in a freshly drawn salt.
pub const SALT_LEN: usize = 32;

/// Fewest bytes the hash function accepts as a mixing key.
pub const MIN_LOCAL_SALT_LEN: usize = 8;

/// Most bytes of local salt for which the intermediate hash still fits the
/// hash function's limit on a mixing key.
pub const MAX_LOCAL_SALT_LEN: usize = 0x7fff_ff00;

/// Most bytes the hash function accepts as an input.
pub const MAX_INPUT_LEN: usize = 0xffff_ffff;

/// A stored credential: the final hash and the salt it was derived with.
pub struct HashedData {
    pub hash: String,
    pub salt: String,
}

/// The text that Argon2d with the default cost parameters, no secret and no
/// associated data encodes for a password and a salt.
pub uninterp spec fn argon2d_encoding(password: Seq<u8>, salt: Seq<u8>) -> Seq<char>;

/// One hashing stage over text: `input` hashed with `mixing_key` as the salt.
pub open spec fn stage_hash(input: Seq<char>, mixing_key: Seq<char>) -> Seq<char> {
    argon2d_encoding(encode_utf8(input), encode_utf8(mixing_key))
}

/// The stored hash of `data` under a random salt and the local salt.
pub open spec fn password_hash(
    data: Seq<char>,
    random_salt: Seq<char>,
    local_salt: Seq<char>,
) -> Seq<char> {
    stage_hash(data, stage_hash(random_salt, local_salt))
}

/// A letter or a digit of ASCII.
pub open spec fn is_alphanumeric(c: char) -> bool {
    ('a' <= c && c <= 'z') || ('A' <= c && c <= 'Z') || ('0' <= c && c <= '9')
}

/// What every freshly drawn salt satisfies.
pub open spec fn is_salt(s: Seq<char>) -> bool {
    &&& s.len() == SALT_LEN
    &&& forall|i: int| 0 <= i < s.len() ==> is_alphanumeric(#[trigger] s[i])
}

/// The local salt is long enough to key the hash and short enough that the
/// intermediate hash can key it again.
pub open spec fn local_salt_ok(local_salt: Seq<char>) -> bool {
    MIN_LOCAL_SALT_LEN <= encode_utf8(local_salt).len() <= MAX_LOCAL_SALT_LEN
}

/// The text is short enough for the hash function to take as an input.
pub open spec fn input_ok(input: Seq<char>) -> bool {
    encode_utf8(input).len() <= MAX_INPUT_LEN
}

/// Can `text` be hashed: is it within the hash function's limit on an input?
pub fn is_input_ok(text: &str) -> (ok: bool)
    ensures
        ok == input_ok(text@),
{
    text.as_bytes().len() <= MAX_INPUT_LEN
}

/// Can `text` serve as the local salt?
pub fn is_local_salt_ok(text: &str) -> (ok: bool)
    ensures
        ok == local_salt_ok(text@),
{
    let len = text.as_bytes().len();
    MIN_LOCAL_SALT_LEN <= len && len <= MAX_LOCAL_SALT_LEN
}

/// Calls `argon2rs::verifier::Encoded::default2d` with empty secret and
/// associated data and renders the session with `Encoded::to_u8`.
///
/// Trusted: the text returned is the Argon2d encoding of the two arguments;
/// it is ASCII (`$argon2d$`, the decimal cost parameters, and two unpadded
/// base64 fields: the salt and the 32-byte hash), so it has at least nine
/// characters and at most `2 * salt.len() + 128`. The library panics on a
/// salt under 8 bytes or an argument over `u32::MAX` bytes, which the
/// precondition leaves out.
#[verifier::external_body]
fn argon2d_encode(password: &[u8], salt: &[u8]) -> (encoded: String)
    requires
        password@.len() <= MAX_INPUT_LEN,
        MIN_LOCAL_SALT_LEN <= salt@.len() <= MAX_INPUT_LEN,
    ensures
        encoded@ == argon2d_encoding(password@, salt@),
        is_ascii_chars(encoded@),
        9 <= encoded@.len() <= 2 * salt@.len() + 128,
{
    let bytes = Encoded::default2d(password, salt, b"", b"").to_u8();
    String::from_utf8_lossy(&bytes).into_owned()
}

/// Draws characters with `rand::thread_rng().sample_iter(&Alphanumeric)`.
///
/// Trusted: the string has `len` characters, each a letter or a digit of
/// ASCII. Nothing is claimed about which ones.
#[verifier::external_body]
fn random_alphanumeric(len: usize) -> (s: String)
    ensures
        s@.len() == len,
        forall|i: int| 0 <= i < s@.len() ==> is_alphanumeric(#[trigger] s@[i]),
{
    rand::thread_rng().sample_iter(&Alphanumeric).take(len).map(char::from).collect()
}

/// A salt is ASCII, so its byte length is its character count.
pub proof fn lemma_salt_is_input(s: Seq<char>)
    requires
        is_salt(s),
    ensures
        is_ascii_chars(s),
        encode_utf8(s).len() == SALT_LEN,
        input_ok(s),
{
    assert forall|i: int| 0 <= i < s.len() implies '\0' <= #[trigger] s[i] <= '\u{7f}' by {
        assert(is_alphanumeric(s[i]));
    }
    is_ascii_chars_encode_utf8(s);
}

/// One hashing stage: `input` hashed with `mixing_key` as the salt.
pub fn hash_stage(input: &str, mixing_key: &str) -> (encoded: String)
    requires
        input_ok(input@),
        MIN_LOCAL_SALT_LEN <= encode_utf8(mixing_key@).len() <= MAX_INPUT_LEN,
    ensures
        encoded@ == stage_hash(input@, mixing_key@),
        is_ascii_chars(encoded@),
        9 <= encode_utf8(encoded@).len() <= 2 * encode_utf8(mixing_key@).len() + 128,
{
    let encoded = argon2d_encode(input.as_bytes(), mixing_key.as_bytes());
    proof {
        is_ascii_chars_encode_utf8(encoded@);
    }
    encoded
}

/// Derives the credential for `data` under a salt that the caller supplies.
pub fn hash_data_with_salt(data: &str, random_salt: String, local_salt: &str) -> (hashed: HashedData)
    requires
        input_ok(data@),
        input_ok(random_salt@),
        local_salt_ok(local_salt@),
    ensures
        hashed.salt@ == random_salt@,
        hashed.hash@ == password_hash(data@, random_salt@, local_salt@),
{
    let intermediate = hash_stage(random_salt.as_str(), local_salt);
    let hash = hash_stage(data, intermediate.as_str());
    HashedData { hash, salt: random_salt }
}

/// Derives a credential for `data` under a freshly drawn salt.
pub fn hash_data(data: &str, local_salt: &str) -> (hashed: HashedData)
    requires
        input_ok(data@),
        local_salt_ok(local_salt@),
    ensures
        is_salt(hashed.salt@),
        hashed.hash@ == password_hash(data@, hashed.salt@, local_salt@),
{
    let random_salt = random_alphanumeric(SALT_LEN);
    proof {
        lemma_salt_is_input(random_salt@);
    }
    hash_data_with_salt(data, random_salt, local_salt)
}

/// Compares two byte strings without stopping at the first difference, so
/// that the time taken does not tell where they differ.
pub fn constant_time_eq(left: &[u8], right: &[u8]) -> (equal: bool)
    ensures
        equal == (left@ == right@),
{
    if left.len() != right.len() {
        return false;
    }
    let mut diff: u8 = 0;
    let mut i: usize = 0;
    while i < left.len()
        invariant
            i <= left.len(),
            left.len() == right.len(),
            (diff == 0) == (forall|j: int| 0 <= j < i ==> left@[j] == right@[j]),
        decreases left.len() - i,
    {
        let x: u8 = left[i];
        let y: u8 = right[i];
        let delta: u8 = x ^ y;
        let merged: u8 = diff | delta;
        proof {
            assert((delta == 0) == (x == y)) by (bit_vector)
                requires
                    delta == x ^ y,
            ;
            assert((merged == 0) == (diff == 0 && delta == 0)) by (bit_vector)
                requires
                    merged == diff | delta,
            ;
        }
        diff = merged;
        i += 1;
    }
    proof {
        if diff == 0 {
            assert(left@ =~= right@);
        }
    }
    diff == 0
}

/// Two texts are the same exactly when their UTF-8 encodings are.
pub proof fn lemma_same_text_same_bytes(first: Seq<char>, second: Seq<char>)
    ensures
        (encode_utf8(first) == encode_utf8(second)) == (first == second),
{
    encode_utf8_decode_utf8(first);
    encode_utf8_decode_utf8(second);
}

/// Recomputes both stages for `input` and tells whether the outcome is the
/// stored hash. The two hashes are compared in constant time.
pub fn compare_input_to_hashed_value(
    input: &str,
    hashed_value: &str,
    random_salt: &str,
    local_salt: &str,
) -> (equal: bool)
    requires
        input_ok(input@),
        input_ok(random_salt@),
        local_salt_ok(local_salt@),
    ensures
        equal == (hashed_value@ == password_hash(input@, random_salt@, local_salt@)),
{
    let intermediate = hash_stage(random_salt, local_salt);
    let data_hash = hash_stage(input, intermediate.as_str());
    proof {
        lemma_same_text_same_bytes(data_hash@, hashed_value@);
    }
    constant_time_eq(data_hash.as_str().as_bytes(), hashed_value.as_bytes())
}

/// Hashing is a function of its three inputs: any two credentials derived
/// from the same plaintext, salt and local salt carry the same hash.
pub proof fn lemma_hash_deterministic(
    first: HashedData,
    second: HashedData,
    data: Seq<char>,
    random_salt: Seq<char>,
    local_salt: Seq<char>,
)
    requires
        first.hash@ == password_hash(data, random_salt, local_salt),
        second.hash@ == password_hash(data, random_salt, local_salt),
    ensures
        first.hash@ == second.hash@,
{
}

/// A credential derived from a plaintext is accepted for that plaintext, and
/// for another input exactly when that input hashes to the same text.
pub proof fn lemma_verify_round_trip(
    stored: HashedData,
    data: Seq<char>,
    local_salt: Seq<char>,
    input: Seq<char>,
    equal: bool,
)
    requires
        stored.hash@ == password_hash(data, stored.salt@, local_salt),
        equal == (stored.hash@ == password_hash(input, stored.salt@, local_salt)),
    ensures
        input == data ==> equal,
        !equal <==> password_hash(input, stored.salt@, local_salt) != password_hash(
            data,
            stored.salt@,
            local_salt,
        ),
{
}

} // verus!
