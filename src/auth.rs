use crate::digest::{hex_lower, lemma_hex_len, sha512, sha512_digest, to_hex};
use crate::types::{Password, PasswordId, UserId};
use vstd::prelude::*;
use vstd::utf8::encode_utf8;

verus! {

/// Errors of the library's account operations.
#[derive(Clone, Debug, PartialEq, Eq)]
pub enum AppError {
    Unauthorized,
}

/// The stored hash of a password with a salt: the hex SHA-512 digest of the
/// password followed by the salt.
pub open spec fn password_hash(password: Seq<char>, salt: Seq<char>) -> Seq<char> {
    hex_lower(sha512_digest(encode_utf8(password + salt)))
}

pub open spec fn is_ascii_alphanumeric(c: char) -> bool {
    ('a' <= c <= 'z') || ('A' <= c <= 'Z') || ('0' <= c <= '9')
}

/// The length of a drawn salt.
pub const SALT_LENGTH: usize = 8;

/// Relies on `rand::thread_rng` sampled with `rand::distributions::Alphanumeric`:
/// `len` characters, each an ASCII letter or digit. Nothing else is promised
/// of the value.
#[verifier::external_body]
fn random_alphanumeric(len: usize) -> (r: String)
    ensures
        r@.len() == len,
        forall|i: int| 0 <= i < len ==> is_ascii_alphanumeric(#[trigger] r@[i]),
{
    rand::Rng::sample_iter(rand::thread_rng(), &rand::distributions::Alphanumeric).take(len).map(char::from).collect()
}

/// A password hash and the salt it was made with.
pub struct HashedPassword {
    pub hash: String,
    pub salt: String,
}

/// Hashes `password` with `salt`, or with a freshly drawn salt of
/// `SALT_LENGTH` letters and digits where none is given.
pub fn hash_password(password: &str, salt: Option<&str>) -> (r: HashedPassword)
    ensures
        r.hash@ == password_hash(password@, r.salt@),
        r.hash@.len() == 128,
        salt matches Some(s) ==> r.salt@ == s@,
        salt is None ==> r.salt@.len() == SALT_LENGTH && forall|i: int|
            0 <= i < SALT_LENGTH ==> is_ascii_alphanumeric(#[trigger] r.salt@[i]),
{
    let salt = match salt {
        Some(s) => String::from_str(s),
        None => random_alphanumeric(SALT_LENGTH),
    };
    let mut text = String::from_str(password);
    text.append(salt.as_str());
    let digest = sha512(text.as_str().as_bytes());
    proof {
        lemma_hex_len(digest@);
    }
    HashedPassword { hash: to_hex(digest.as_slice()), salt }
}

impl Password {
    /// The stored password of `user_id`, with a freshly drawn salt.
    pub fn new(password: &str, user_id: &UserId) -> (r: Password)
        ensures
            r.hash@ == password_hash(password@, r.salt@),
            r.salt@.len() == SALT_LENGTH,
            forall|i: int| 0 <= i < SALT_LENGTH ==> is_ascii_alphanumeric(#[trigger] r.salt@[i]),
            r.user_id.0@ == user_id.0@,
    {
        let hashed = hash_password(password, None);
        Password { id: PasswordId::new(), hash: hashed.hash, salt: hashed.salt, user_id: UserId(user_id.0.clone()) }
    }

    /// Whether `password` is the stored one.
    pub fn matches(&self, password: &str) -> (r: Result<(), AppError>)
        ensures
            r is Ok <==> password_hash(password@, self.salt@) == self.hash@,
            r matches Err(e) ==> e == AppError::Unauthorized,
    {
        let check = hash_password(password, Some(self.salt.as_str()));
        if check.hash == self.hash {
            Ok(())
        } else {
            Err(AppError::Unauthorized)
        }
    }
}

} // verus!
