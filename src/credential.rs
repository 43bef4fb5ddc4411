//! The credential verifier: argon2 password hashes in PHC string form.
use vstd::prelude::*;

verus! {

#[verifier::external_type_specification]
#[verifier::external_body]
pub struct ExPasswordHashError(argon2::password_hash::Error);

/// Whether argon2 accepts `password` against the PHC string `hash`: false
/// for a hash that does not parse as well as for a wrong password.
pub uninterp spec fn password_matches(password: Seq<char>, hash: Seq<char>) -> bool;

/// Relies on `argon2::Argon2::hash_password` with a salt from
/// `SaltString::generate(&mut OsRng)`, rendered with `to_string`: the salt is
/// random, but the PHC string records salt and parameters, so verifying the
/// same password against it (`PasswordHash::new`, then `verify_password`,
/// which hashes again with those and compares) succeeds.
#[verifier::external_body]
pub fn hash_string(input: &str) -> (r: Result<String, argon2::password_hash::Error>)
    ensures
        r is Ok ==> password_matches(input@, r->Ok_0@),
{
    let salt = argon2::password_hash::SaltString::generate(
        &mut argon2::password_hash::rand_core::OsRng,
    );
    let hasher = argon2::Argon2::default();
    let hash = argon2::password_hash::PasswordHasher::hash_password(
        &hasher,
        input.as_bytes(),
        &salt,
    )?;
    Ok(hash.to_string())
}

/// Relies on `argon2::password_hash::PasswordHash::new` and
/// `Argon2::verify_password`: the outcome depends on the two texts alone, and
/// a hash that does not parse gives `false` rather than an error.
#[verifier::external_body]
pub fn verify_hash(input: &str, hash: &str) -> (r: bool)
    ensures
        r == password_matches(input@, hash@),
{
    match argon2::password_hash::PasswordHash::new(hash) {
        Ok(parsed) => argon2::password_hash::PasswordVerifier::verify_password(
            &argon2::Argon2::default(),
            input.as_bytes(),
            &parsed,
        ).is_ok(),
        Err(_) => false,
    }
}

} // verus!
