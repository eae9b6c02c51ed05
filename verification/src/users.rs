//! Adding and updating the users of the HTTP API: their password hashes and
//! permissions, from what the operator enters.
use vstd::prelude::*;
use vstd::utf8::encode_utf8;

use crate::api::auth::{argon2_verification, password_verifies};
use crate::entities::{Permissions, User};
use crate::text::{owned, push_str};

verus! {

/// What hashing a password with Argon2 and a Base64 salt gives: the encoded
/// hash, or the text of the error.
pub uninterp spec fn argon2_hashing(password: Seq<u8>, salt_b64: Seq<char>) -> Result<
    Seq<char>,
    Seq<char>,
>;

/// Hashes a password: reads the salt with `password_hash::SaltString::
/// from_b64`, hashes with `Argon2::default().hash_password` and encodes the
/// hash as a PHC string; an error is reported by its text. Claims that the
/// result is `argon2_hashing` of the arguments, and that the password
/// verifies against the hash it returns: `PasswordVerifier::verify_password`
/// recomputes the hash with the parameters and salt that the string holds
/// and compares the outputs.
#[verifier::external_body]
fn argon2_hash(password: &[u8], salt_b64: &str) -> (res: Result<String, String>)
    ensures
        res is Ok <==> argon2_hashing(password@, salt_b64@) is Ok,
        res matches Ok(h) ==> argon2_hashing(password@, salt_b64@) matches Ok(g) && g == h@,
        res matches Err(x) ==> argon2_hashing(password@, salt_b64@) matches Err(e) && e == x@,
        res matches Ok(h) ==> argon2_verification(password@, h@) is Ok,
{
    let salt = argon2::password_hash::SaltString::from_b64(salt_b64).map_err(|error| error.to_string())?;
    let hasher = argon2::Argon2::default();
    argon2::PasswordHasher::hash_password(&hasher, password, &salt).map(|hash| hash.to_string()).map_err(|error| error.to_string())
}

/// The encoded hash of a password, with the salt given in Base64.
pub open spec fn password_hash_of(password: Seq<char>, salt: Seq<char>) -> Result<
    Seq<char>,
    Seq<char>,
> {
    argon2_hashing(encode_utf8(password), salt)
}

/// Hashes a password with the salt given in Base64. The password verifies
/// against the hash.
pub fn hash_password(password: &str, salt: &str) -> (res: Result<String, String>)
    ensures
        match password_hash_of(password@, salt@) {
            Ok(h) => res matches Ok(r) && r@ == h,
            Err(e) => res matches Err(x) && x@ == e,
        },
        res matches Ok(h) ==> password_verifies(password@, h@),
{
    argon2_hash(password.as_bytes(), salt)
}

/// Why a user cannot be added.
#[derive(Debug)]
pub enum UserAddError {
    /// A new user was given no password.
    MissingPassword,
    /// A new user was given no permissions.
    MissingPermissions,
    /// The password could not be hashed.
    HashFailed { message: String },
}

impl UserAddError {
    /// The message the error is reported with.
    pub fn message(&self) -> (res: String)
        ensures
            match self {
                UserAddError::MissingPassword => res@ == "Please provide a password."@,
                UserAddError::MissingPermissions => res@ == "Please select some permissions."@,
                UserAddError::HashFailed { message } => res@ == "Failed to hash password: "@
                    + message@,
            },
    {
        match self {
            UserAddError::MissingPassword => owned("Please provide a password."),
            UserAddError::MissingPermissions => owned("Please select some permissions."),
            UserAddError::HashFailed { message } => {
                let mut out = owned("Failed to hash password: ");
                push_str(&mut out, message.as_str());
                out
            },
        }
    }
}

/// The union of the bits of a list of permission sets.
pub open spec fn union_bits(sets: Seq<u32>) -> u32
    decreases sets.len(),
{
    if sets.len() == 0 {
        0
    } else {
        union_bits(sets.drop_last()) | sets.last()
    }
}

/// The bits of a list of permission sets.
pub open spec fn permission_bits(sets: Seq<Permissions>) -> Seq<u32> {
    sets.map_values(|p: Permissions| p@)
}

/// The permissions of all the selected sets together.
pub fn combine_permissions(selected: &[Permissions]) -> (res: Permissions)
    ensures
        res@ == union_bits(permission_bits(selected@)),
{
    let ghost all = permission_bits(selected@);
    let mut acc = Permissions::empty();
    let mut i: usize = 0;
    assert(all.take(0) =~= Seq::<u32>::empty());
    while i < selected.len()
        invariant
            i <= selected@.len(),
            all == permission_bits(selected@),
            acc@ == union_bits(all.take(i as int)),
        decreases selected@.len() - i,
    {
        assert(all.take(i + 1).drop_last() =~= all.take(i as int));
        acc = acc.union(selected[i]);
        i = i + 1;
    }
    assert(all.take(selected@.len() as int) =~= all);
    acc
}

/// The password hash of an added or updated user: that of the entered
/// password, or, when none is entered, the one the user already has.
pub open spec fn chosen_password_hash(
    entered: Option<Seq<char>>,
    existing: Option<Seq<char>>,
    salt: Seq<char>,
) -> Result<Seq<char>, Option<Seq<char>>> {
    match entered {
        Some(p) => match password_hash_of(p, salt) {
            Ok(h) => Ok(h),
            Err(e) => Err(Some(e)),
        },
        None => match existing {
            Some(h) => Ok(h),
            None => Err(None),
        },
    }
}

/// The permissions of an added or updated user: those selected, or, when
/// the selection is skipped, those the user already has.
pub open spec fn chosen_permissions(selected: Option<Seq<u32>>, existing: Option<u32>) -> Option<
    u32,
> {
    match selected {
        Some(s) => Some(union_bits(s)),
        None => existing,
    }
}

/// The password hash to store for an added or updated user: that of the
/// entered password, or the existing user's when none is entered.
pub fn password_hash_to_store(password: Option<&str>, existing: Option<&User>, salt: &str) -> (res:
    Result<String, UserAddError>)
    ensures
        match chosen_password_hash(
            match password {
                Some(p) => Some(p@),
                None => None,
            },
            match existing {
                Some(u) => Some(u.password_hash@),
                None => None,
            },
            salt@,
        ) {
            Err(None) => res matches Err(UserAddError::MissingPassword),
            Err(Some(e)) => res matches Err(UserAddError::HashFailed { message }) && message@ == e,
            Ok(h) => res matches Ok(r) && r@ == h,
        },
        res matches Ok(h) ==> (password matches Some(p) ==> password_verifies(p@, h@)),
{
    match password {
        Some(p) => match hash_password(p, salt) {
            Ok(h) => Ok(h),
            Err(message) => Err(UserAddError::HashFailed { message }),
        },
        None => match existing {
            Some(u) => Ok(u.password_hash.clone()),
            None => Err(UserAddError::MissingPassword),
        },
    }
}

/// The permissions to store for an added or updated user: those selected,
/// or the existing user's when the selection is skipped.
pub fn permissions_to_store(selected: Option<&[Permissions]>, existing: Option<&User>) -> (res: Result<
    Permissions,
    UserAddError,
>)
    ensures
        match chosen_permissions(
            match selected {
                Some(s) => Some(permission_bits(s@)),
                None => None,
            },
            match existing {
                Some(u) => Some(u.permissions@),
                None => None,
            },
        ) {
            None => res matches Err(UserAddError::MissingPermissions),
            Some(bits) => res matches Ok(p) && p@ == bits,
        },
{
    match selected {
        Some(s) => Ok(combine_permissions(s)),
        None => match existing {
            Some(u) => Ok(u.permissions),
            None => Err(UserAddError::MissingPermissions),
        },
    }
}

/// The user that an add command stores: named `username`, with the hash of
/// the entered password and the selected permissions, each of them kept
/// from the existing user of that name when it is skipped. The password is
/// settled before the permissions.
pub fn user_to_store(
    username: String,
    password: Option<&str>,
    selected: Option<&[Permissions]>,
    existing: Option<&User>,
    salt: &str,
) -> (res: Result<User, UserAddError>)
    ensures
        match chosen_password_hash(
            match password {
                Some(p) => Some(p@),
                None => None,
            },
            match existing {
                Some(u) => Some(u.password_hash@),
                None => None,
            },
            salt@,
        ) {
            Err(None) => res matches Err(UserAddError::MissingPassword),
            Err(Some(e)) => res matches Err(UserAddError::HashFailed { message }) && message@ == e,
            Ok(h) => match chosen_permissions(
                match selected {
                    Some(s) => Some(permission_bits(s@)),
                    None => None,
                },
                match existing {
                    Some(u) => Some(u.permissions@),
                    None => None,
                },
            ) {
                None => res matches Err(UserAddError::MissingPermissions),
                Some(bits) => res matches Ok(u) && u.username == username && u.password_hash@ == h
                    && u.permissions@ == bits,
            },
        },
        res matches Ok(u) ==> (password matches Some(p) ==> password_verifies(p@, u.password_hash@)),
{
    let password_hash = password_hash_to_store(password, existing, salt)?;
    let permissions = permissions_to_store(selected, existing)?;
    Ok(User { username, password_hash, permissions })
}

} // verus!
