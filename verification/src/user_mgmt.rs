//! Authentication that answers with bare status codes: the credentials of a
//! request are looked up by user name and password hash together, and a
//! missing or insufficient user is rejected with a status and a message.
use vstd::prelude::*;
use vstd::utf8::{decode_utf8, valid_utf8};

use crate::api::auth::{basic_prefix, is_visible_ascii, utf8_string};
use crate::encoding::{base64_standard_decode, decode_base64};
use crate::entities::{bits_contain, Permissions, User, ALL_PERMISSION_BITS};
use crate::text::{owned, split_all, split_pieces};
use crate::users::{hash_password, password_hash_of};

verus! {

/// The status of a request without usable credentials.
pub const UNAUTHORIZED: u16 = 401;

/// The status of a request with malformed credentials.
pub const BAD_REQUEST: u16 = 400;

/// The status of a request whose user lacks a permission.
pub const FORBIDDEN: u16 = 403;

/// The status of a request whose user could not be found.
pub const INTERNAL_SERVER_ERROR: u16 = 500;

/// The user name and password of the `Authorization` header, or the status
/// of the rejection: a missing header, or one that is not text, is
/// unauthorized; any other header that is not Basic credentials, Base64
/// that decodes to UTF-8 text with a user name and a password separated by
/// a colon, is a bad request. The password is what lies between the first
/// colon and the next one.
pub open spec fn basic_auth_pair(header: Option<Seq<u8>>) -> Result<(Seq<char>, Seq<char>), u16> {
    match header {
        None => Err(UNAUTHORIZED),
        Some(bytes) => if !(forall|i: int| 0 <= i < bytes.len() ==> is_visible_ascii(bytes[i])) {
            Err(UNAUTHORIZED)
        } else if !(bytes.len() >= 6 && bytes.take(6) == basic_prefix()) {
            Err(BAD_REQUEST)
        } else {
            match base64_standard_decode(bytes.skip(6)) {
                Err(_) => Err(BAD_REQUEST),
                Ok(decoded) => if !valid_utf8(decoded) {
                    Err(BAD_REQUEST)
                } else {
                    let pieces = split_pieces(decode_utf8(decoded), ':');
                    if pieces.len() < 2 {
                        Err(BAD_REQUEST)
                    } else {
                        Ok((pieces[0], pieces[1]))
                    }
                },
            }
        },
    }
}

/// The user name and password hash that a request's user is looked up by:
/// the credentials of the header, the password hashed with the given salt;
/// a password that cannot be hashed is a bad request.
pub open spec fn credentials_lookup(header: Option<Seq<u8>>, salt: Seq<char>) -> Result<
    (Seq<char>, Seq<char>),
    u16,
> {
    match basic_auth_pair(header) {
        Err(code) => Err(code),
        Ok((user, password)) => match password_hash_of(password, salt) {
            Err(_) => Err(BAD_REQUEST),
            Ok(hash) => Ok((user, hash)),
        },
    }
}

/// Reads the credentials of a request and hashes the password: the user
/// name and password hash to look the user up by, or the status of the
/// rejection.
pub fn credentials_with_hash(header: Option<&[u8]>, salt: &str) -> (res: Result<(String, String), u16>)
    ensures
        match credentials_lookup(
            match header {
                Some(h) => Some(h@),
                None => None,
            },
            salt@,
        ) {
            Ok((user, hash)) => res matches Ok((u, h)) && u@ == user && h@ == hash,
            Err(code) => res == Err::<(String, String), u16>(code),
        },
{
    let bytes = match header {
        None => return Err(UNAUTHORIZED),
        Some(h) => h,
    };
    let n = bytes.len();
    let mut i: usize = 0;
    while i < n
        invariant
            n == bytes@.len(),
            header == Some(bytes),
            i <= n,
            forall|j: int| 0 <= j < i ==> is_visible_ascii(bytes@[j]),
        decreases n - i,
    {
        let b = bytes[i];
        if !((32 <= b && b < 127) || b == 9) {
            assert(!is_visible_ascii(bytes@[i as int]));
            return Err(UNAUTHORIZED);
        }
        i = i + 1;
    }
    if !(n >= 6 && bytes[0] == 66 && bytes[1] == 97 && bytes[2] == 115 && bytes[3] == 105
        && bytes[4] == 99 && bytes[5] == 32) {
        proof {
            if n >= 6 && bytes@.take(6) == basic_prefix() {
                assert(bytes@.take(6)[0] == 66u8);
                assert(bytes@.take(6)[1] == 97u8);
                assert(bytes@.take(6)[2] == 115u8);
                assert(bytes@.take(6)[3] == 105u8);
                assert(bytes@.take(6)[4] == 99u8);
                assert(bytes@.take(6)[5] == 32u8);
            }
        }
        return Err(BAD_REQUEST);
    }
    assert(bytes@.take(6) =~= basic_prefix());
    let encoded = vstd::slice::slice_subrange(bytes, 6, n);
    assert(encoded@ =~= bytes@.skip(6));
    let decoded = match decode_base64(encoded) {
        Ok(d) => d,
        Err(_) => return Err(BAD_REQUEST),
    };
    let credentials = match utf8_string(decoded) {
        Some(s) => s,
        None => return Err(BAD_REQUEST),
    };
    let pieces = split_all(credentials.as_str(), ':');
    if pieces.len() < 2 {
        return Err(BAD_REQUEST);
    }
    assert(pieces@.map_values(|p: &str| p@)[0] == pieces@[0]@);
    assert(pieces@.map_values(|p: &str| p@)[1] == pieces@[1]@);
    let username = owned(pieces[0]);
    match hash_password(pieces[1], salt) {
        Ok(hash) => Ok((username, hash)),
        Err(_) => Err(BAD_REQUEST),
    }
}

/// The user found by name and password hash, or the status of the
/// rejection when the lookup failed, which includes finding no user.
pub fn found_user(lookup: Result<User, String>) -> (res: Result<User, u16>)
    ensures
        match lookup {
            Ok(u) => res == Ok::<User, u16>(u),
            Err(_) => res == Err::<User, u16>(INTERNAL_SERVER_ERROR),
        },
{
    match lookup {
        Ok(user) => Ok(user),
        Err(_) => Err(INTERNAL_SERVER_ERROR),
    }
}

/// A proof that the user of a request holds the permissions in `REQ_BITS`;
/// bits of no known permission are ignored.
pub struct RequirePermissions<const REQ_BITS: u32>;

impl<const REQ_BITS: u32> RequirePermissions<REQ_BITS> {
    /// Checks the authenticated user of a request, if there is one: a
    /// request without a user is rejected as unauthorized, one whose user
    /// lacks a required permission as forbidden, each with its message.
    pub fn from_request_user(user: Option<&User>) -> (res: Result<Self, (u16, &'static str)>)
        ensures
            match user {
                None => res matches Err((code, message)) && code == UNAUTHORIZED && message@
                    == "Missing authentication context"@,
                Some(u) => if bits_contain(u.permissions@, REQ_BITS & ALL_PERMISSION_BITS) {
                    res is Ok
                } else {
                    res matches Err((code, message)) && code == FORBIDDEN && message@
                        == "Access denied: Insufficient permissions"@
                },
            },
    {
        let user = match user {
            None => return Err((UNAUTHORIZED, "Missing authentication context")),
            Some(u) => u,
        };
        let required = Permissions::from_bits_truncate(REQ_BITS);
        if user.permissions.contains(required) {
            Ok(RequirePermissions)
        } else {
            Err((FORBIDDEN, "Access denied: Insufficient permissions"))
        }
    }
}

} // verus!
