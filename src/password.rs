use vstd::prelude::*;
use vstd::utf8::encode_utf8;

verus! {

/// Whether argon2 accepts `password` against the PHC hash string `hash`.
pub uninterp spec fn argon2_accepts(hash: Seq<char>, password: Seq<char>) -> bool;

#[verifier::external_type_specification]
#[verifier::external_body]
pub struct ExPasswordHashError(password_hash::Error);

/// Length of a salt, in bytes (the length password-hash recommends).
pub const SALT_LEN: usize = 16;

/// Length of the PHC string for the default parameters and a 16-byte salt:
/// `$argon2id$v=19$m=19456,t=2,p=1$` (31), 22 salt chars, `$`, 43 hash chars.
pub const PHC_LEN: usize = 97;

/// Relies on `rand_core::OsRng`'s `fill_bytes`: `n` fresh random bytes from
/// the operating system. A failing entropy source panics inside `fill_bytes`;
/// that failure is fatal, never a user-facing outcome.
#[verifier::external_body]
fn random_bytes(n: usize) -> (r: Vec<u8>)
    ensures
        r@.len() == n,
{
    let mut bytes = vec![0u8; n];
    rand_core::RngCore::fill_bytes(&mut rand_core::OsRng, &mut bytes);
    bytes
}

/// Relies on `password_hash::SaltString::encode_b64` (the salt bytes as B64
/// text), argon2's `PasswordHasher::hash_password` with the default
/// parameters (Argon2id, v=19, m=19456, t=2, p=1, 32-byte output) and
/// `PasswordHash`'s `Display`. The PHC string starts with `$argon2id$`, and
/// `argon2_verify` accepts it for the same password. With a 16-byte salt the
/// only error is a password longer than argon2's `MAX_PWD_LEN` (0xFFFFFFFF
/// bytes), and the string is 97 chars long.
#[verifier::external_body]
fn argon2_hash(password: &str, salt: &[u8]) -> (r: Result<String, password_hash::Error>)
    ensures
        r matches Ok(h) ==> argon2_accepts(h@, password@),
        r matches Ok(h) ==> h@.len() >= 10 && h@.take(10) == argon2id_prefix(),
        salt@.len() == 16 && encode_utf8(password@).len() <= 0xFFFF_FFFF ==> r is Ok,
        salt@.len() == 16 ==> (r matches Ok(h) ==> h@.len() == PHC_LEN),
{
    let salt = password_hash::SaltString::encode_b64(salt)?;
    let hasher = argon2::Argon2::default();
    match password_hash::PasswordHasher::hash_password(&hasher, password.as_bytes(), &salt) {
        Ok(h) => Ok(h.to_string()),
        Err(e) => Err(e),
    }
}

/// Relies on `password_hash::PasswordHash::new` and argon2's
/// `PasswordVerifier::verify_password` with the default parameters: a
/// malformed hash string is refused, never an error; in particular the parser
/// refuses a string that is empty or does not start with `$`.
#[verifier::external_body]
fn argon2_verify(hash: &str, password: &str) -> (r: bool)
    ensures
        r == argon2_accepts(hash@, password@),
        hash@.len() == 0 || hash@[0] != '$' ==> !r,
{
    match password_hash::PasswordHash::new(hash) {
        Ok(parsed) => {
            let verifier = argon2::Argon2::default();
            password_hash::PasswordVerifier::verify_password(
                &verifier,
                password.as_bytes(),
                &parsed,
            ).is_ok()
        },
        Err(_) => false,
    }
}

/// `$argon2id$`
pub open spec fn argon2id_prefix() -> Seq<char> {
    seq!['$', 'a', 'r', 'g', 'o', 'n', '2', 'i', 'd', '$']
}

/// `h` is a hash of `p` in the form that `hash_password` produces: a PHC
/// string of the fixed length, starting with `$argon2id$`, that accepts `p`.
pub open spec fn is_hash_of(h: Seq<char>, p: Seq<char>) -> bool {
    &&& argon2_accepts(h, p)
    &&& h.len() == PHC_LEN
    &&& h.take(10) == argon2id_prefix()
}

/// Hashes a password with Argon2id under a fresh random 16-byte salt. It
/// succeeds for every password argon2 takes (up to 0xFFFFFFFF bytes of
/// UTF-8); a failing entropy source is fatal.
pub fn hash_password(p: &str) -> (r: Result<String, password_hash::Error>)
    ensures
        r matches Ok(h) ==> is_hash_of(h@, p@),
        encode_utf8(p@).len() <= 0xFFFF_FFFF ==> r is Ok,
{
    let salt = random_bytes(SALT_LEN);
    argon2_hash(p, salt.as_slice())
}

/// Checks a password against a stored hash; `false` for a malformed hash
/// (in particular an empty one or one not starting with `$`).
pub fn verify_password(hash: &str, p: &str) -> (r: bool)
    ensures
        r == argon2_accepts(hash@, p@),
        hash@.len() == 0 || hash@[0] != '$' ==> !r,
{
    argon2_verify(hash, p)
}

/// A hash that `hash_password` produced for `p` verifies against `p`, and it
/// differs from `p` unless `p` itself is a 97-char string starting with
/// `$argon2id$`.
pub proof fn law_hash_then_verify(p: Seq<char>, h: Seq<char>)
    requires
        is_hash_of(h, p),
    ensures
        argon2_accepts(h, p),
        !(p.len() == PHC_LEN && p.take(10) == argon2id_prefix()) ==> h != p,
{
}

/// Hashes have one length, whatever the passwords.
pub proof fn law_hash_length_fixed(p1: Seq<char>, h1: Seq<char>, p2: Seq<char>, h2: Seq<char>)
    requires
        is_hash_of(h1, p1),
        is_hash_of(h2, p2),
    ensures
        h1.len() == h2.len(),
{
}

} // verus!
