//! Who a request comes from and which client it acts on: roles, the
//! client a request is scoped to, how long a session token lives, and the
//! remote-access password generated for a client, and the Argon2id
//! hashes account passwords are stored as.
use vstd::prelude::*;

use crate::error::AppError;
use crate::text::{owned, same_text};

verus! {

/// The account a request was authenticated as (from its bearer token).
#[derive(Debug, Clone, PartialEq, Eq)]
pub struct AuthUser {
    pub id: u128,
    pub role: String,
    /// The account's client; `None` for the super admin.
    pub tenant_id: Option<u128>,
}

/// The role of the super admin, who belongs to no client.
pub open spec fn super_admin_role(role: Seq<char>) -> bool {
    role == "super_admin"@
}

/// Roles that may administer a client.
pub open spec fn admin_role(role: Seq<char>) -> bool {
    role == "admin"@ || role == "super_admin"@
}

/// The client a request acts on: the super admin names it in the
/// `X-Tenant-Id` header; every other account acts on its own client,
/// whatever the header says.  `None` when there is none to act on.
pub open spec fn scoped_tenant(user: AuthUser, requested: Option<u128>) -> Option<u128> {
    if super_admin_role(user.role@) {
        requested
    } else {
        user.tenant_id
    }
}

/// Seconds a session token is valid for: seven days.
pub const TOKEN_TTL_SECS: i64 = 604800;

impl AuthUser {
    /// Whether the account is the super admin.
    pub fn is_super_admin(&self) -> (r: bool)
        ensures
            r == super_admin_role(self.role@),
    {
        same_text(self.role.as_str(), "super_admin")
    }

    /// Only administrators (of a client, or the super admin) may go on.
    pub fn require_admin(&self) -> (r: Result<(), AppError>)
        ensures
            admin_role(self.role@) ==> r is Ok,
            !admin_role(self.role@) ==> r == Err::<(), AppError>(AppError::Forbidden),
    {
        if same_text(self.role.as_str(), "admin") || same_text(self.role.as_str(), "super_admin") {
            Ok(())
        } else {
            Err(AppError::Forbidden)
        }
    }

    /// `effective_tenant`: the client the request acts on.  A super admin
    /// without `X-Tenant-Id` is asked for it; an account without a client
    /// that is not the super admin is refused.
    pub fn effective_tenant(&self, requested: Option<u128>) -> (r: Result<u128, AppError>)
        ensures
            match scoped_tenant(*self, requested) {
                Some(t) => r == Ok::<u128, AppError>(t),
                None => if super_admin_role(self.role@) {
                    (r matches Err(AppError::BadRequest(m)) && m@ == "X-Tenant-Id obrigatório"@)
                } else {
                    r == Err::<u128, AppError>(AppError::Forbidden)
                },
            },
    {
        if self.is_super_admin() {
            match requested {
                Some(t) => Ok(t),
                None => Err(AppError::BadRequest(owned("X-Tenant-Id obrigatório"))),
            }
        } else {
            match self.tenant_id {
                Some(t) => Ok(t),
                None => Err(AppError::Forbidden),
            }
        }
    }
}

/// An account that is not the super admin only ever acts on its own
/// client: the `X-Tenant-Id` header cannot move it to another one.
pub proof fn law_tenant_isolation(user: AuthUser, requested: Option<u128>)
    requires
        !super_admin_role(user.role@),
    ensures
        scoped_tenant(user, requested) == user.tenant_id,
{
}

/// `issue_token` (expiry): the moment a token issued at `now` stops being
/// valid, or `None` when it is past the largest representable time.
pub fn token_expiry(now: i64) -> (r: Option<i64>)
    ensures
        now + TOKEN_TTL_SECS <= i64::MAX ==> r == Some((now + TOKEN_TTL_SECS) as i64),
        now + TOKEN_TTL_SECS > i64::MAX ==> r is None,
{
    now.checked_add(TOKEN_TTL_SECS)
}

/// The characters of a remote-access password: capital letters and digits.
pub open spec fn password_char(c: char) -> bool {
    ('A' <= c && c <= 'Z') || ('0' <= c && c <= '9')
}

/// The password character a random byte stands for (the byte modulo 36
/// picks one of A-Z, then 0-9).
pub open spec fn char_of_byte(b: u8) -> char {
    let k = b % 36;
    if k < 26 {
        (65 + k) as char
    } else {
        (48 + k - 26) as char
    }
}

/// `ensure_tenant_password` (generation): the remote-access password made
/// from eight random bytes, one character per byte.
pub fn remote_password(random: [u8; 8]) -> (r: String)
    ensures
        r@.len() == 8,
        forall|i: int| 0 <= i < 8 ==> r@[i] == char_of_byte(#[trigger] random@[i]),
{
    let mut r = String::new();
    let mut i: usize = 0;
    while i < 8
        invariant
            i <= 8,
            r@.len() == i,
            forall|j: int| 0 <= j < i ==> r@[j] == char_of_byte(#[trigger] random@[j]),
        decreases 8 - i,
    {
        let k: u8 = random[i] % 36;
        let c: char = if k < 26 {
            (65u8 + k) as char
        } else {
            (48u8 + (k - 26)) as char
        };
        r.push(c);
        i = i + 1;
    }
    r
}

/// A generated remote-access password has eight characters, each a
/// capital letter or a digit.
pub proof fn law_password_alphabet(random: Seq<u8>)
    ensures
        forall|i: int| 0 <= i < random.len() ==> password_char(#[trigger] char_of_byte(random[i])),
{
}

/// Whether `argon2` accepts the password against the stored hash: the
/// PHC string is parsed and the hash recomputed with its algorithm,
/// version, parameters and salt.
pub uninterp spec fn argon2_verifies(password: Seq<char>, hash: Seq<char>) -> bool;

/// The PHC string `Argon2::default()` (Argon2id) makes of the password
/// with the salt, or `None` when it refuses them.
pub uninterp spec fn argon2_hash(password: Seq<char>, salt: Seq<u8>) -> Option<Seq<char>>;

/// `verify_password`: `PasswordHash::new` on the stored hash, then
/// `PasswordVerifier::verify_password` of `argon2::Argon2::default()`; a
/// hash that does not parse verifies nothing.
#[verifier::external_body]
pub fn verify_password(password: &str, hash: &str) -> (r: bool)
    ensures
        r == argon2_verifies(password@, hash@),
{
    match argon2::password_hash::PasswordHash::new(hash) {
        Ok(parsed) => argon2::password_hash::PasswordVerifier::verify_password(
            &argon2::Argon2::default(),
            password.as_bytes(),
            &parsed,
        ).is_ok(),
        Err(_) => false,
    }
}

/// `hash_password`: `SaltString::encode_b64` of the sixteen salt bytes,
/// then `PasswordHasher::hash_password` of `argon2::Argon2::default()`, as
/// a PHC string, or the text of the error.  Verifying recomputes the hash
/// from the parameters and salt written in it, so the password verifies
/// against the hash made of it.
#[verifier::external_body]
pub fn hash_password(password: &str, salt: [u8; 16]) -> (r: Result<String, String>)
    ensures
        match argon2_hash(password@, salt@) {
            Some(h) => r matches Ok(s) && s@ == h,
            None => r is Err,
        },
        r matches Ok(h) ==> argon2_verifies(password@, h@),
{
    let salt = argon2::password_hash::SaltString::encode_b64(&salt).map_err(|e| e.to_string())?;
    argon2::password_hash::PasswordHasher::hash_password(&argon2::Argon2::default(), password.as_bytes(), &salt)
        .map(|h| h.to_string())
        .map_err(|e| e.to_string())
}

} // verus!
