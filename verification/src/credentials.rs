//! The credential engine: salted password hashing and verification.
//!
//! A password is derived with PBKDF2-HMAC-SHA-512 at 100,000 iterations over
//! a 64-byte random salt into a 64-byte key; key and salt are stored
//! base64-encoded. Verification collapses every decode or verification
//! failure to `false`.

use crate::errors::ServerError;
use crate::messages::AuthUser;
use vstd::prelude::*;
use vstd::utf8::encode_utf8;

verus! {

/// The PBKDF2-HMAC-SHA-512 derivation at 100,000 iterations: the first `len`
/// bytes of the key stream for this salt and password.
pub uninterp spec fn pbkdf2_key(salt: Seq<u8>, password: Seq<u8>, len: int) -> Seq<u8>;

/// The standard base64 (with padding) rendering of a byte sequence.
pub uninterp spec fn b64_of(b: Seq<u8>) -> Seq<char>;

/// What standard base64 decoding yields: the bytes for a canonical encoding,
/// nothing for any other string.
pub uninterp spec fn b64_decode_of(s: Seq<char>) -> Option<Seq<u8>>;

/// Relies on `base64::engine::general_purpose::STANDARD.encode`, and on its
/// `decode` accepting exactly what `encode` produced: decoding the result
/// gives the input back.
#[verifier::external_body]
pub(crate) fn b64_encode(b: &[u8]) -> (r: String)
    ensures
        r@ == b64_of(b@),
        b64_decode_of(r@) == Some(b@),
{
    base64::Engine::encode(&base64::engine::general_purpose::STANDARD, b)
}

/// Relies on `base64::engine::general_purpose::STANDARD.decode`: it requires
/// canonical padding and rejects non-canonical trailing bits, so it succeeds
/// exactly on canonical encodings.
#[verifier::external_body]
pub(crate) fn b64_decode(s: &str) -> (r: Result<Vec<u8>, ()>)
    ensures
        match r {
            Ok(v) => b64_decode_of(s@) == Some(v@),
            Err(()) => b64_decode_of(s@) is None,
        },
{
    base64::Engine::decode(&base64::engine::general_purpose::STANDARD, s.as_bytes()).map_err(
        |_| (),
    )
}

/// Relies on `ring::pbkdf2::derive` with `PBKDF2_HMAC_SHA512` and 100,000
/// iterations: fills the output with the key derived from salt and password;
/// the result depends on those arguments alone.
#[verifier::external_body]
pub(crate) fn pbkdf2_derive(salt: &[u8], password: &[u8]) -> (r: Vec<u8>)
    ensures
        r@ == pbkdf2_key(salt@, password@, 64),
        r@.len() == 64,
{
    let mut out = [0u8; 64];
    ring::pbkdf2::derive(
        ring::pbkdf2::PBKDF2_HMAC_SHA512,
        core::num::NonZeroU32::new(100_000).unwrap(),
        salt,
        password,
        &mut out,
    );
    out.to_vec()
}

/// The longest derived value the underlying primitive accepts: one block of
/// 64 bytes for each of the (2^32 - 1) block indexes the derivation allows.
pub const MAX_DERIVED_LEN: u64 = 274877906880;

/// Relies on `ring::pbkdf2::verify` with `PBKDF2_HMAC_SHA512` and 100,000
/// iterations: it succeeds exactly when the previously derived value equals
/// the derivation, of the same length, from this salt and password; it fails
/// on an empty previously-derived value, and it panics past the derivation's
/// maximum length, so that length is excluded here.
#[verifier::external_body]
pub(crate) fn pbkdf2_check(hash: &[u8], salt: &[u8], password: &[u8]) -> (r: bool)
    requires
        1 <= hash@.len() <= MAX_DERIVED_LEN,
    ensures
        r == (hash@ == pbkdf2_key(salt@, password@, hash@.len() as int)),
{
    ring::pbkdf2::verify(
        ring::pbkdf2::PBKDF2_HMAC_SHA512,
        core::num::NonZeroU32::new(100_000).unwrap(),
        salt,
        password,
        hash,
    )
    .is_ok()
}

/// Relies on `ring::rand::SystemRandom::fill`: fills 64 bytes from a secure
/// source. The bytes are random, so only the length is promised.
#[verifier::external_body]
pub(crate) fn random_salt() -> (r: Result<Vec<u8>, ()>)
    ensures
        match r {
            Ok(v) => v@.len() == 64,
            Err(()) => true,
        },
{
    let rng = ring::rand::SystemRandom::new();
    let mut out = [0u8; 64];
    ring::rand::SecureRandom::fill(&rng, &mut out).map_err(|_| ())?;
    Ok(out.to_vec())
}

/// Relies on `uuid::Uuid::new_v4`: a random identifier; nothing is promised
/// of its value.
#[verifier::external_body]
pub(crate) fn new_uuid() -> u128 {
    uuid::Uuid::new_v4().as_u128()
}

/// A stored credential pair verifies `pwd` exactly when both parts decode
/// and the hash equals the derivation of its own length from the salt and
/// `pwd`; a pair that does not decode, or whose hash is empty or longer
/// than the derivation allows, is malformed and counts as a mismatch.
pub open spec fn credential_matches(hash_s: Seq<char>, salt_s: Seq<char>, pwd: Seq<u8>) -> bool {
    match (b64_decode_of(hash_s), b64_decode_of(salt_s)) {
        (Some(h), Some(s)) => 0 < h.len() <= MAX_DERIVED_LEN && h == pbkdf2_key(
            s,
            pwd,
            h.len() as int,
        ),
        _ => false,
    }
}

/// A credential pair as the engine mints it for password bytes `pwd`: a
/// 64-byte salt, and the hash of the 64-byte derivation from it.
pub open spec fn credentials_for(hash_s: Seq<char>, salt_s: Seq<char>, pwd: Seq<u8>) -> bool {
    match (b64_decode_of(hash_s), b64_decode_of(salt_s)) {
        (Some(h), Some(s)) => s.len() == 64 && h.len() == 64 && h == pbkdf2_key(s, pwd, 64),
        _ => false,
    }
}

/// A registered chat user: identifier, stored credential pair, and username.
pub struct User {
    pub id: u128,
    pub password: String,
    pub username: String,
    pub salt: String,
}

/// The slice of a user handed to a live session: identifier and username.
pub struct UserInfo {
    pub id: u128,
    pub username: String,
}

impl User {
    /// Mints a new user from a login request: random identifier, fresh
    /// 64-byte salt, and the base64 pair derived from the password. Fails
    /// only when no salt can be drawn.
    pub fn try_from(value: AuthUser) -> (r: Result<Self, ServerError>)
        ensures
            match r {
                Ok(u) => {
                    &&& u.username@ == value@.name
                    &&& credentials_for(u.password@, u.salt@, encode_utf8(value@.password))
                },
                Err(e) => e == ServerError::CreateUser,
            },
    {
        let salt = match random_salt() {
            Ok(s) => s,
            Err(()) => {
                return Err(ServerError::CreateUser);
            },
        };
        let pwd_hash = pbkdf2_derive(salt.as_slice(), value.password.as_str().as_bytes());
        let encoded_pwd = b64_encode(pwd_hash.as_slice());
        let encoded_salt = b64_encode(salt.as_slice());
        Ok(
            User {
                id: new_uuid(),
                password: encoded_pwd,
                username: value.name,
                salt: encoded_salt,
            },
        )
    }

    /// Whether `password_to_verify` matches this user's stored credential
    /// pair; a malformed pair counts as a mismatch.
    pub fn verify_user_password(&self, password_to_verify: &[u8]) -> (r: bool)
        ensures
            r == credential_matches(self.password@, self.salt@, password_to_verify@),
    {
        let decoded_salt = match b64_decode(self.salt.as_str()) {
            Ok(v) => v,
            Err(()) => {
                return false;
            },
        };
        let decoded_pwd = match b64_decode(self.password.as_str()) {
            Ok(v) => v,
            Err(()) => {
                return false;
            },
        };
        Self::verify(decoded_pwd.as_slice(), decoded_salt.as_slice(), password_to_verify)
    }

    /// Whether `password_to_verify` derives to `secret` over `salt`; a
    /// `secret` outside the derivation's possible lengths never matches.
    fn verify(secret: &[u8], salt: &[u8], password_to_verify: &[u8]) -> (r: bool)
        ensures
            r == (0 < secret@.len() <= MAX_DERIVED_LEN && secret@ == pbkdf2_key(
                salt@,
                password_to_verify@,
                secret@.len() as int,
            )),
    {
        if secret.len() == 0 || secret.len() as u64 > MAX_DERIVED_LEN {
            return false;
        }
        pbkdf2_check(secret, salt, password_to_verify)
    }

    /// The id-and-username slice of this user.
    pub fn to_user_info(&self) -> (r: UserInfo)
        ensures
            r.id == self.id,
            r.username@ == self.username@,
    {
        UserInfo { id: self.id, username: self.username.as_str().to_owned() }
    }
}

/// The credential laws. A pair freshly minted for password bytes `pwd`
/// verifies `pwd`; and it verifies other password bytes exactly when their
/// derivation over the same salt collides with the derivation of `pwd`.
pub proof fn lemma_credential_roundtrip(
    hash_s: Seq<char>,
    salt_s: Seq<char>,
    pwd: Seq<u8>,
    other: Seq<u8>,
)
    requires
        credentials_for(hash_s, salt_s, pwd),
    ensures
        credential_matches(hash_s, salt_s, pwd),
        credential_matches(hash_s, salt_s, other) == (pbkdf2_key(
            b64_decode_of(salt_s)->Some_0,
            other,
            64,
        ) == pbkdf2_key(b64_decode_of(salt_s)->Some_0, pwd, 64)),
{
}

} // verus!
