//! Users, passwords, session tokens and invite codes.
use vstd::prelude::*;

use argon2::password_hash::{PasswordHash, PasswordHasher, PasswordVerifier, SaltString};
use base64::Engine;
use rand::{RngCore, TryRngCore};
use sha2::Digest;

use crate::calendar::{in_chrono_range, SECONDS_PER_DAY};
use crate::text::{chars_of, join2, trim, trim_seq};

verus! {

/// How long a session stays valid, in days.
pub const SESSION_TTL_DAYS: i64 = 30;

/// How many unredeemed invite codes a user may hold.
pub const MAX_UNREDEEMED_INVITES: i64 = 5;

/// How many fresh codes are tried before giving up on a unique one.
pub const INVITE_CODE_ATTEMPTS: u32 = 5;

// ----- Usernames and passwords -----

/// The characters a username may hold.
pub open spec fn username_char_allowed(c: char) -> bool {
    ('a' <= c <= 'z') || ('A' <= c <= 'Z') || ('0' <= c <= '9') || c == '_' || c == '-' || c == '.'
}

/// The number of bytes of the UTF-8 encoding of `s`.
pub open spec fn utf8_len(s: Seq<char>) -> nat {
    vstd::utf8::encode_utf8(s).len()
}

/// Why a username is refused, if it is.
pub open spec fn username_error(username: Seq<char>) -> Option<Seq<char>> {
    let u = trim_seq(username);
    if utf8_len(u) < 3 {
        Some("username must be at least 3 characters long"@)
    } else if utf8_len(u) > 64 {
        Some("username must be 64 characters or fewer"@)
    } else if exists|i: int| 0 <= i < u.len() && !username_char_allowed(#[trigger] u[i]) {
        Some("username can contain only letters, numbers, underscores, hyphens, and dots"@)
    } else {
        None
    }
}

fn username_char_ok(c: char) -> (r: bool)
    ensures
        r == username_char_allowed(c),
{
    ('a' <= c && c <= 'z') || ('A' <= c && c <= 'Z') || ('0' <= c && c <= '9') || c == '_' || c
        == '-' || c == '.'
}

/// Checks a username, which is taken without surrounding white space: it must
/// be 3 to 64 bytes long and made of ASCII letters, digits, `_`, `-` and `.`.
pub fn validate_username(username: &str) -> (r: Result<(), String>)
    ensures
        match username_error(username@) {
            None => r is Ok,
            Some(m) => r matches Err(e) && e@ == m,
        },
{
    let u = trim(username);
    let len = u.as_str().as_bytes().len();
    if len < 3 {
        return Err(String::from_str("username must be at least 3 characters long"));
    }
    if len > 64 {
        return Err(String::from_str("username must be 64 characters or fewer"));
    }
    let cs = chars_of(u.as_str());
    let mut i: usize = 0;
    while i < cs.len()
        invariant
            cs@ == trim_seq(username@),
            3 <= utf8_len(trim_seq(username@)) <= 64,
            forall|k: int| 0 <= k < i ==> username_char_allowed(cs@[k]),
        decreases cs.len() - i,
    {
        if !username_char_ok(cs[i]) {
            assert(!username_char_allowed(trim_seq(username@)[i as int]));
            return Err(
                String::from_str(
                    "username can contain only letters, numbers, underscores, hyphens, and dots",
                ),
            );
        }
        i = i + 1;
    }
    Ok(())
}

/// Why a password is refused, if it is: it must be at least 8 bytes long.
pub open spec fn password_error(password: Seq<char>) -> Option<Seq<char>> {
    if utf8_len(password) < 8 {
        Some("password must be at least 8 characters long"@)
    } else {
        None
    }
}

/// Checks a password: it must be at least 8 bytes long.
pub fn validate_password(password: &str) -> (r: Result<(), String>)
    ensures
        match password_error(password@) {
            None => r is Ok,
            Some(m) => r matches Err(e) && e@ == m,
        },
{
    if password.as_bytes().len() < 8 {
        return Err(String::from_str("password must be at least 8 characters long"));
    }
    Ok(())
}

/// An accepted username is made only of allowed ASCII characters, between
/// 3 and 64 of them.
pub proof fn accepted_username_is_short_ascii(username: Seq<char>)
    requires
        username_error(username) is None,
    ensures
        forall|i: int|
            0 <= i < trim_seq(username).len() ==> username_char_allowed(#[trigger] trim_seq(username)[i]),
        3 <= trim_seq(username).len() <= 64,
{
    let u = trim_seq(username);
    assert forall|i: int| 0 <= i < u.len() implies username_char_allowed(#[trigger] u[i]) by {
        if !username_char_allowed(u[i]) {
            assert(exists|j: int| 0 <= j < u.len() && !username_char_allowed(#[trigger] u[j]));
        }
    }
    lemma_ascii_utf8_len(u);
}

/// A username is accepted exactly when, without surrounding white space, it
/// has 3 to 64 characters, each an ASCII letter of either case, a digit,
/// `_`, `-` or `.`.
pub proof fn usernames_accepted_exactly_from_their_alphabet(username: Seq<char>)
    ensures
        username_error(username) is None <==> (3 <= trim_seq(username).len() <= 64 && forall|i: int|
            0 <= i < trim_seq(username).len() ==> {
                let c = #[trigger] trim_seq(username)[i];
                ('a' <= c <= 'z') || ('A' <= c <= 'Z') || ('0' <= c <= '9') || c == '_' || c == '-'
                    || c == '.'
            }),
{
    let u = trim_seq(username);
    if username_error(username) is None {
        accepted_username_is_short_ascii(username);
    }
    if 3 <= u.len() <= 64 && forall|i: int|
        0 <= i < u.len() ==> {
            let c = #[trigger] u[i];
            ('a' <= c <= 'z') || ('A' <= c <= 'Z') || ('0' <= c <= '9') || c == '_' || c == '-'
                || c == '.'
        } {
        assert forall|i: int| 0 <= i < u.len() implies username_char_allowed(#[trigger] u[i]) by {
            let c = u[i];
            assert(('a' <= c <= 'z') || ('A' <= c <= 'Z') || ('0' <= c <= '9') || c == '_' || c
                == '-' || c == '.');
        }
        lemma_ascii_utf8_len(u);
    }
}

proof fn lemma_ascii_utf8_len(s: Seq<char>)
    requires
        forall|i: int| 0 <= i < s.len() ==> username_char_allowed(#[trigger] s[i]),
    ensures
        utf8_len(s) == s.len(),
{
    assert(vstd::utf8::is_ascii_chars(s)) by {
        assert forall|i: int| 0 <= i < s.len() implies (#[trigger] s[i]) as u32 <= 0x7f by {
            assert(username_char_allowed(s[i]));
        }
    }
    vstd::utf8::is_ascii_chars_encode_utf8(s);
}

// ----- Base64 (URL-safe alphabet, no padding) -----

/// The character for a 6-bit value in the URL-safe Base64 alphabet.
pub open spec fn b64url_char(v: int) -> char {
    if v < 26 {
        ('A' as int + v) as char
    } else if v < 52 {
        ('a' as int + (v - 26)) as char
    } else if v < 62 {
        ('0' as int + (v - 52)) as char
    } else if v == 62 {
        '-'
    } else {
        '_'
    }
}

/// The URL-safe Base64 encoding of `data` (RFC 4648, section 5), without padding.
pub open spec fn b64url_encode(data: Seq<u8>) -> Seq<char>
    decreases data.len(),
{
    if data.len() == 0 {
        seq![]
    } else if data.len() == 1 {
        let b0 = data[0] as int;
        seq![b64url_char(b0 / 4), b64url_char((b0 % 4) * 16)]
    } else if data.len() == 2 {
        let b0 = data[0] as int;
        let b1 = data[1] as int;
        seq![
            b64url_char(b0 / 4),
            b64url_char((b0 % 4) * 16 + b1 / 16),
            b64url_char((b1 % 16) * 4),
        ]
    } else {
        let b0 = data[0] as int;
        let b1 = data[1] as int;
        let b2 = data[2] as int;
        seq![
            b64url_char(b0 / 4),
            b64url_char((b0 % 4) * 16 + b1 / 16),
            b64url_char((b1 % 16) * 4 + b2 / 64),
            b64url_char(b2 % 64),
        ] + b64url_encode(data.subrange(3, data.len() as int))
    }
}

/// The length of the unpadded Base64 encoding of `n` bytes.
pub open spec fn b64_len(n: int) -> int {
    (4 * n + 2) / 3
}

/// The unpadded encoding of `n` bytes has `ceil(4n/3)` characters.
pub proof fn b64url_encode_len(data: Seq<u8>)
    ensures
        b64url_encode(data).len() == b64_len(data.len() as int),
    decreases data.len(),
{
    if data.len() >= 3 {
        b64url_encode_len(data.subrange(3, data.len() as int));
    }
}

/// Encodes bytes with `base64::engine::general_purpose::URL_SAFE_NO_PAD`.
/// Trusted: that engine writes the URL-safe alphabet of RFC 4648 without
/// padding, which is what `b64url_encode` states.
#[verifier::external_body]
fn base64_url_no_pad(data: &[u8]) -> (r: String)
    requires
        data@.len() <= 3 * (usize::MAX / 4),
    ensures
        r@ == b64url_encode(data@),
{
    base64::engine::general_purpose::URL_SAFE_NO_PAD.encode(data)
}

// ----- Digests and random bytes -----

/// The SHA-256 digest of `data`.
pub uninterp spec fn sha256_digest(data: Seq<u8>) -> Seq<u8>;

/// Computes `sha2::Sha256::digest`. Trusted: the result is the digest that
/// `sha256_digest` names, 32 bytes long.
#[verifier::external_body]
fn sha256(data: &[u8]) -> (r: Vec<u8>)
    ensures
        r@ == sha256_digest(data@),
        r@.len() == 32,
{
    sha2::Sha256::digest(data).to_vec()
}

/// `n` bytes from the operating system's generator, `rand::rngs::OsRng`
/// (through `unwrap_err`, which panics only if the operating system cannot
/// supply randomness). Trusted: only the length is stated.
#[verifier::external_body]
fn random_bytes(n: usize) -> (r: Vec<u8>)
    ensures
        r@.len() == n,
{
    let mut bytes = vec![0u8; n];
    rand::rngs::OsRng.unwrap_err().fill_bytes(&mut bytes);
    bytes
}

/// The value stored for a session token: its SHA-256 digest, Base64-encoded.
pub open spec fn token_hash_of(token: Seq<char>) -> Seq<char> {
    b64url_encode(sha256_digest(vstd::utf8::encode_utf8(token)))
}

/// The value stored for a session token: its SHA-256 digest in URL-safe Base64.
pub fn hash_token(token: &str) -> (r: String)
    ensures
        r@ == token_hash_of(token@),
        r@.len() == 43,
{
    let digest = sha256(token.as_bytes());
    let r = base64_url_no_pad(digest.as_slice());
    proof {
        b64url_encode_len(digest@);
    }
    r
}

/// A new session token: 32 random bytes in URL-safe Base64.
pub fn generate_token() -> (r: String)
    ensures
        exists|bytes: Seq<u8>| bytes.len() == 32 && r@ == b64url_encode(bytes),
        r@.len() == 43,
{
    let bytes = random_bytes(32);
    let r = base64_url_no_pad(bytes.as_slice());
    proof {
        b64url_encode_len(bytes@);
    }
    r
}

/// A new invite code: `LAN-` and 12 random bytes in URL-safe Base64.
pub fn generate_invite_code() -> (r: String)
    ensures
        exists|bytes: Seq<u8>| bytes.len() == 12 && r@ == "LAN-"@ + b64url_encode(bytes),
{
    let bytes = random_bytes(12);
    let encoded = base64_url_no_pad(bytes.as_slice());
    join2("LAN-", encoded.as_str())
}

// ----- Password hashes -----

/// The PHC string of the Argon2 hash of `password` with `salt`, or why it
/// could not be made.
pub uninterp spec fn argon2_phc(password: Seq<u8>, salt: Seq<u8>) -> Result<Seq<char>, Seq<char>>;

/// Hashes a password with `argon2::Argon2::default()` and the salt
/// `SaltString::encode_b64(salt)`, giving the PHC string
/// (`PasswordHasher::hash_password`). Trusted: the outcome is what
/// `argon2_phc` names, and, as the `argon2` crate documents, a PHC string it
/// gives is one that `PasswordHash::new` reads and against which
/// `Argon2::default().verify_password` accepts the same password.
#[verifier::external_body]
fn argon2_hash(password: &str, salt: &[u8]) -> (r: Result<String, String>)
    ensures
        match argon2_phc(vstd::utf8::encode_utf8(password@), salt@) {
            Ok(h) => r matches Ok(s) && s@ == h,
            Err(e) => r matches Err(m) && m@ == e,
        },
        r matches Ok(s) ==> password_accepted(password@, s@),
{
    let salt = SaltString::encode_b64(salt).map_err(|e| e.to_string())?;
    argon2::Argon2::default().hash_password(password.as_bytes(), &salt).map(|h| h.to_string()).map_err(|e| e.to_string())
}

/// Whether `password` matches the PHC string `hash` under Argon2, or why
/// `hash` could not be read.
pub uninterp spec fn argon2_verifies(password: Seq<u8>, hash: Seq<char>) -> Result<bool, Seq<char>>;

/// `password` is accepted against the stored PHC string `hash`.
pub open spec fn password_accepted(password: Seq<char>, hash: Seq<char>) -> bool {
    argon2_verifies(vstd::utf8::encode_utf8(password), hash) == Ok::<bool, Seq<char>>(true)
}

/// Parses `hash` with `password_hash::PasswordHash::new` and checks
/// `password` against it with `Argon2::default().verify_password`. Trusted:
/// the outcome is what `argon2_verifies` names.
#[verifier::external_body]
fn argon2_verify(password: &str, hash: &str) -> (r: Result<bool, String>)
    ensures
        match argon2_verifies(vstd::utf8::encode_utf8(password@), hash@) {
            Ok(b) => r == Ok::<bool, String>(b),
            Err(e) => r matches Err(m) && m@ == e,
        },
{
    let parsed = PasswordHash::new(hash).map_err(|e| e.to_string())?;
    Ok(argon2::Argon2::default().verify_password(password.as_bytes(), &parsed).is_ok())
}

/// The PHC string of a fresh Argon2 hash of `password`, with a random
/// 16-byte salt, or why it could not be made.
pub fn hash_password(password: &str) -> (r: Result<String, String>)
    ensures
        exists|salt: Seq<u8>|
            salt.len() == 16 && match argon2_phc(vstd::utf8::encode_utf8(password@), salt) {
                Ok(h) => r matches Ok(s) && s@ == h,
                Err(e) => r matches Err(m) && m@ == e,
            },
        r matches Ok(s) ==> password_accepted(password@, s@),
{
    let salt = random_bytes(16);
    argon2_hash(password, salt.as_slice())
}

/// A user about to be stored: the trimmed username and the password hash.
pub struct NewUser {
    pub username: String,
    pub password_hash: String,
}

/// Checks a new user's username and password, then hashes the password.
/// The username is checked first, then the password; a refused one is reported.
pub fn prepare_new_user(username: &str, password: &str) -> (r: Result<NewUser, String>)
    ensures
        username_error(username@) matches Some(m) ==> (r matches Err(e) && e@ == m),
        username_error(username@) is None ==> (password_error(password@) matches Some(m) ==> (
        r matches Err(e) && e@ == m)),
        username_error(username@) is None && password_error(password@) is None ==> exists|
            salt: Seq<u8>|
            salt.len() == 16 && match argon2_phc(vstd::utf8::encode_utf8(password@), salt) {
                Ok(h) => r matches Ok(u) && u.username@ == trim_seq(username@) && u.password_hash@
                    == h,
                Err(e) => r matches Err(m) && m@ == e,
            },
        r matches Ok(u) ==> username_error(username@) is None && password_error(password@) is None
            && password_accepted(password@, u.password_hash@),
{
    if let Err(e) = validate_username(username) {
        return Err(e);
    }
    if let Err(e) = validate_password(password) {
        return Err(e);
    }
    let hashed = hash_password(password);
    let ghost salt = choose|salt: Seq<u8>|
        salt.len() == 16 && match argon2_phc(vstd::utf8::encode_utf8(password@), salt) {
            Ok(h) => hashed matches Ok(s) && s@ == h,
            Err(e) => hashed matches Err(m) && m@ == e,
        };
    let password_hash = match hashed {
        Ok(h) => h,
        Err(e) => {
            return Err(e);
        },
    };
    let name = trim(username);
    let r = NewUser { username: name, password_hash };
    assert(salt.len() == 16);
    Ok(r)
}

/// Whether `password` is the one the stored hash was made from, or why the
/// stored hash could not be read.
pub fn verify_password(password: &str, password_hash: &str) -> (r: Result<bool, String>)
    ensures
        match argon2_verifies(vstd::utf8::encode_utf8(password@), password_hash@) {
            Ok(b) => r == Ok::<bool, String>(b),
            Err(e) => r matches Err(m) && m@ == e,
        },
{
    argon2_verify(password, password_hash)
}

// ----- Sessions and invites -----

/// When a session created at `created_at` expires: thirty days later.
pub fn session_expiry(created_at: i64) -> (r: i64)
    requires
        in_chrono_range(created_at as int),
        in_chrono_range(created_at + SESSION_TTL_DAYS * SECONDS_PER_DAY),
    ensures
        r == created_at + SESSION_TTL_DAYS * SECONDS_PER_DAY,
{
    created_at + SESSION_TTL_DAYS * SECONDS_PER_DAY
}

/// Refuses a new invite code when the limit is enforced and the user already
/// holds `unredeemed` unredeemed codes, five or more.
pub fn check_invite_limit(enforce_limit: bool, unredeemed: i64) -> (r: Result<(), String>)
    ensures
        enforce_limit && unredeemed >= MAX_UNREDEEMED_INVITES ==> (r matches Err(m) && m@
            == "a user can have at most 5 unredeemed invite codes"@),
        !(enforce_limit && unredeemed >= MAX_UNREDEEMED_INVITES) ==> r is Ok,
{
    if enforce_limit && unredeemed >= MAX_UNREDEEMED_INVITES {
        return Err(String::from_str("a user can have at most 5 unredeemed invite codes"));
    }
    Ok(())
}

/// What to do after trying to store a fresh invite code.
pub enum InviteAttempt {
    /// The code was stored: hand it out.
    Issued(String),
    /// It clashed: try another.
    Retry,
    /// All attempts clashed.
    GiveUp(String),
}

/// The next step after the `attempt`-th (counting from 1) try to store `code`.
pub fn invite_attempt_outcome(attempt: u32, code: String, stored: bool) -> (r: InviteAttempt)
    requires
        1 <= attempt <= INVITE_CODE_ATTEMPTS,
    ensures
        stored ==> r == InviteAttempt::Issued(code),
        !stored && attempt < INVITE_CODE_ATTEMPTS ==> r is Retry,
        !stored && attempt == INVITE_CODE_ATTEMPTS ==> (r matches InviteAttempt::GiveUp(m) && m@
            == "failed to generate a unique invite code"@),
{
    if stored {
        InviteAttempt::Issued(code)
    } else if attempt < INVITE_CODE_ATTEMPTS {
        InviteAttempt::Retry
    } else {
        InviteAttempt::GiveUp(String::from_str("failed to generate a unique invite code"))
    }
}

} // verus!
