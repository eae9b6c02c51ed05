//! Authentication and authorization of API requests: HTTP Basic credentials
//! and the permissions an endpoint requires.
use vstd::prelude::*;
use vstd::utf8::{decode_utf8, encode_utf8, valid_utf8};

use crate::api::error::ApiError;
use crate::encoding::{base64_standard_decode, decode_base64, Base64Error};
use crate::entities::{bits_contain, Permissions, User, ALL_PERMISSION_BITS};
use crate::text::{first_index_of, owned, split_once};

verus! {

/// The bytes an `Authorization` header may hold to be read as text
/// (`HeaderValue::to_str`): visible ASCII and the tab.
pub open spec fn is_visible_ascii(b: u8) -> bool {
    (32 <= b && b < 127) || b == 9
}

fn visible_ascii(b: u8) -> (res: bool)
    ensures
        res == is_visible_ascii(b),
{
    (32 <= b && b < 127) || b == 9
}

/// The scheme prefix of Basic credentials, `Basic `, as bytes.
pub open spec fn basic_prefix() -> Seq<u8> {
    seq![66u8, 97u8, 115u8, 105u8, 99u8, 32u8]
}

/// Reads bytes as UTF-8 text (`String::from_utf8`). Claims what std
/// documents: the bytes are accepted exactly when they are valid UTF-8, and
/// the text is what they encode.
#[verifier::external_body]
pub(crate) fn utf8_string(bytes: Vec<u8>) -> (res: Option<String>)
    ensures
        res is Some <==> valid_utf8(bytes@),
        res matches Some(s) ==> s@ == decode_utf8(bytes@),
{
    String::from_utf8(bytes).ok()
}

/// What the `Authorization` header gives: user name and password, or the
/// error, `None` standing for `Unauthorized` and a message for a bad request.
pub open spec fn basic_credentials(header: Option<Seq<u8>>) -> Result<
    (Seq<char>, Seq<char>),
    Option<Seq<char>>,
> {
    match header {
        None => Err(None),
        Some(bytes) => if !(forall|i: int| 0 <= i < bytes.len() ==> is_visible_ascii(bytes[i])) {
            Err(Some("invalid authorization header"@))
        } else if !(bytes.len() >= 6 && bytes.take(6) == basic_prefix()) {
            Err(Some("authorization must use Basic authentication"@))
        } else {
            match base64_standard_decode(bytes.skip(6)) {
                Err(_) => Err(Some("invalid base64 credentials"@)),
                Ok(decoded) => if !valid_utf8(decoded) {
                    Err(Some("credentials are not valid UTF-8"@))
                } else {
                    let text = decode_utf8(decoded);
                    match first_index_of(text, ':') {
                        None => Err(Some("credentials must contain a username and password"@)),
                        Some(i) => Ok((text.take(i), text.skip(i + 1))),
                    }
                },
            }
        },
    }
}

/// Whether a decoding result is the one `basic_credentials` describes.
pub open spec fn credentials_result_matches(
    res: Result<(String, String), ApiError>,
    expected: Result<(Seq<char>, Seq<char>), Option<Seq<char>>>,
) -> bool {
    match expected {
        Ok((user, password)) => res matches Ok((u, p)) && u@ == user && p@ == password,
        Err(None) => res matches Err(ApiError::Unauthorized),
        Err(Some(message)) => res matches Err(ApiError::BadRequest { message: m }) && m@ == message,
    }
}

/// Reads HTTP Basic credentials from the bytes of the `Authorization`
/// header, if the request has one. The decoded text is split at its first
/// colon into user name and password.
pub fn decode_basic_credentials(header: Option<&[u8]>) -> (res: Result<(String, String), ApiError>)
    ensures
        credentials_result_matches(
            res,
            basic_credentials(
                match header {
                    Some(h) => Some(h@),
                    None => None,
                },
            ),
        ),
{
    let bytes = match header {
        None => return Err(ApiError::Unauthorized),
        Some(h) => h,
    };
    let n = bytes.len();
    let mut i: usize = 0;
    while i < n
        invariant
            n == bytes@.len(),
            header == Some(bytes),
            i <= n,
            forall|j: int| 0 <= j < i ==> is_visible_ascii(bytes@[j]),
        decreases n - i,
    {
        if !visible_ascii(bytes[i]) {
            assert(!is_visible_ascii(bytes@[i as int]));
            return Err(ApiError::bad_request("invalid authorization header"));
        }
        i = i + 1;
    }
    if !(n >= 6 && bytes[0] == 66 && bytes[1] == 97 && bytes[2] == 115 && bytes[3] == 105
        && bytes[4] == 99 && bytes[5] == 32) {
        proof {
            if n >= 6 && bytes@.take(6) == basic_prefix() {
                assert(bytes@.take(6)[0] == 66u8);
                assert(bytes@.take(6)[1] == 97u8);
                assert(bytes@.take(6)[2] == 115u8);
                assert(bytes@.take(6)[3] == 105u8);
                assert(bytes@.take(6)[4] == 99u8);
                assert(bytes@.take(6)[5] == 32u8);
            }
        }
        return Err(ApiError::bad_request("authorization must use Basic authentication"));
    }
    assert(bytes@.take(6) =~= basic_prefix());
    let encoded = vstd::slice::slice_subrange(bytes, 6, n);
    assert(encoded@ =~= bytes@.skip(6));
    let decoded = match decode_base64(encoded) {
        Ok(d) => d,
        Err(_) => return Err(ApiError::bad_request("invalid base64 credentials")),
    };
    let credentials = match utf8_string(decoded) {
        Some(s) => s,
        None => return Err(ApiError::bad_request("credentials are not valid UTF-8")),
    };
    match split_once(credentials.as_str(), ':') {
        Some((username, password)) => Ok((owned(username), owned(password))),
        None => Err(ApiError::bad_request("credentials must contain a username and password")),
    }
}

/// What checking a password against an encoded Argon2 hash gives: success,
/// or the text of the error.
pub uninterp spec fn argon2_verification(password: Seq<u8>, encoded_hash: Seq<char>) -> Result<
    (),
    Seq<char>,
>;

/// Whether an encoded hash starts with the `$` that precedes its first
/// field.
pub open spec fn starts_with_separator(encoded_hash: Seq<char>) -> bool {
    encoded_hash.len() > 0 && encoded_hash[0] == '$'
}

/// Checks a password against an encoded hash: parses the hash with
/// `password_hash::PasswordHash::new`, then checks with
/// `Argon2::default().verify_password`; an error is reported by its text.
/// Claims that the result is `argon2_verification` of the arguments, and, as
/// the parser's source shows, that a hash that does not start with `$` is
/// refused as missing a field.
#[verifier::external_body]
fn argon2_verify(password: &[u8], encoded_hash: &str) -> (res: Result<(), String>)
    ensures
        res is Ok <==> argon2_verification(password@, encoded_hash@) is Ok,
        res matches Err(x) ==> argon2_verification(password@, encoded_hash@) matches Err(e) && e == x@,
        res is Err || starts_with_separator(encoded_hash@),
        res matches Err(x) ==> starts_with_separator(encoded_hash@) || x@ == "password hash string missing field"@,
{
    let hash = argon2::PasswordHash::new(encoded_hash).map_err(|error| error.to_string())?;
    let hasher = argon2::Argon2::default();
    argon2::PasswordVerifier::verify_password(&hasher, password, &hash).map_err(|error| error.to_string())
}

/// Whether a password matches an encoded hash.
pub open spec fn password_verifies(password: Seq<char>, encoded_hash: Seq<char>) -> bool {
    argon2_verification(encode_utf8(password), encoded_hash) is Ok
}

/// Checks a password against the encoded Argon2 hash of a user's password.
pub fn verify_password(password: &str, encoded_hash: &str) -> (res: Result<(), String>)
    ensures
        match argon2_verification(encode_utf8(password@), encoded_hash@) {
            Ok(()) => res is Ok,
            Err(e) => res matches Err(x) && x@ == e,
        },
        res is Ok <==> password_verifies(password@, encoded_hash@),
        !starts_with_separator(encoded_hash@) ==> (res matches Err(x) && x@
            == "password hash string missing field"@),
{
    argon2_verify(password.as_bytes(), encoded_hash)
}

/// Who a request is made by, given what looking up the user of its
/// credentials gave (an error text when the lookup failed): a failed lookup
/// is an internal error; an unknown user, or a password that does not
/// match the user's hash, is unauthorized.
pub open spec fn authenticated_user(lookup: Result<Option<User>, String>, password: Seq<char>) -> Result<
    User,
    ApiError,
> {
    match lookup {
        Err(_) => Err(ApiError::Internal),
        Ok(None) => Err(ApiError::Unauthorized),
        Ok(Some(user)) => if password_verifies(password, user.password_hash@) {
            Ok(user)
        } else {
            Err(ApiError::Unauthorized)
        },
    }
}

/// Decides who a request is made by, from the lookup of the user named in
/// its credentials and the password they hold.
pub fn authenticate(lookup: Result<Option<User>, String>, password: &str) -> (res: Result<
    User,
    ApiError,
>)
    ensures
        res == authenticated_user(lookup, password@),
{
    match lookup {
        Err(_) => Err(ApiError::Internal),
        Ok(None) => Err(ApiError::Unauthorized),
        Ok(Some(user)) => match verify_password(password, user.password_hash.as_str()) {
            Ok(()) => Ok(user),
            Err(_) => Err(ApiError::Unauthorized),
        },
    }
}

/// Credentials that decode are the user name, a colon and the password: the
/// text splits at its first colon, so the user name holds no colon while
/// the password may.
pub proof fn lemma_credentials_split_at_first_colon(header: Option<Seq<u8>>)
    ensures
        basic_credentials(header) matches Ok((user, password)) ==> {
            &&& !user.contains(':')
            &&& header matches Some(bytes) && decode_utf8(
                base64_standard_decode(bytes.skip(6))->Ok_0,
            ) == user + seq![':'] + password
        },
{
    if let Some(bytes) = header {
        if let Ok(decoded) = base64_standard_decode(bytes.skip(6)) {
            let text = decode_utf8(decoded);
            crate::text::lemma_first_index_of_range(text, ':');
            crate::text::lemma_first_index_of_first(text, ':');
            if let Some(i) = first_index_of(text, ':') {
                assert(text == text.take(i) + seq![':'] + text.skip(i + 1));
                assert forall|j: int| 0 <= j < text.take(i).len() implies text.take(i)[j] != ':' by {}
            }
        }
    }
}

/// An `Authorization` header of `Basic ` and Base64 that decodes to the
/// UTF-8 text of a user name without a colon, a colon and a password gives
/// back that user name and password.
pub proof fn lemma_basic_credentials_round_trip(
    encoded: Seq<u8>,
    user: Seq<char>,
    password: Seq<char>,
)
    requires
        forall|i: int| 0 <= i < encoded.len() ==> is_visible_ascii(#[trigger] encoded[i]),
        base64_standard_decode(encoded) == Ok::<Seq<u8>, Base64Error>(
            encode_utf8(user + seq![':'] + password),
        ),
        !user.contains(':'),
    ensures
        basic_credentials(Some(basic_prefix() + encoded)) == Ok::<
            (Seq<char>, Seq<char>),
            Option<Seq<char>>,
        >((user, password)),
{
    broadcast use vstd::utf8::encode_utf8_valid_utf8, vstd::utf8::encode_utf8_decode_utf8;

    let bytes = basic_prefix() + encoded;
    assert forall|i: int| 0 <= i < bytes.len() implies is_visible_ascii(bytes[i]) by {
        if i >= 6 {
            assert(bytes[i] == encoded[i - 6]);
        }
    }
    assert(bytes.take(6) =~= basic_prefix());
    assert(bytes.skip(6) =~= encoded);
    let text = user + seq![':'] + password;
    assert(decode_utf8(encode_utf8(text)) == text);
    assert forall|j: int| 0 <= j < user.len() implies text[j] != ':' by {
        assert(text[j] == user[j]);
    }
    crate::text::lemma_first_index_of(text, ':', user.len() as int);
    assert(text.take(user.len() as int) =~= user);
    assert(text.skip(user.len() as int + 1) =~= password);
}

/// A request needs no permission of its user when none is required: the
/// check passes for every set of permissions.
pub proof fn lemma_nothing_required(bits: u32)
    ensures
        bits_contain(bits, 0u32 & ALL_PERMISSION_BITS),
{
    assert(bits & (0u32 & ALL_PERMISSION_BITS) == 0u32 & ALL_PERMISSION_BITS) by (bit_vector);
}

/// A request that carries the password a user's stored hash was made from
/// is authenticated as that user (`users::user_to_store` ensures that an
/// entered password verifies against the hash it stores).
pub proof fn lemma_stored_password_authenticates(user: User, password: Seq<char>)
    requires
        password_verifies(password, user.password_hash@),
    ensures
        authenticated_user(Ok(Some(user)), password) == Ok::<User, ApiError>(user),
{
}

/// A request that carries a password that does not verify against the
/// user's hash, or names no user, is unauthorized.
pub proof fn lemma_wrong_password_is_unauthorized(user: Option<User>, password: Seq<char>)
    requires
        user matches Some(u) ==> !password_verifies(password, u.password_hash@),
    ensures
        authenticated_user(Ok(user), password) == Err::<User, ApiError>(ApiError::Unauthorized),
{
}

/// A proof that the user of a request holds the permissions in
/// `REQUIRED_BITS`; bits of no known permission are ignored.
pub struct RequirePermissions<const REQUIRED_BITS: u32>;

impl<const REQUIRED_BITS: u32> RequirePermissions<REQUIRED_BITS> {
    /// Checks the authenticated user of a request, if there is one: without
    /// a user the request is unauthorized, and a user that lacks one of the
    /// required permissions is forbidden.
    pub fn from_request_user(user: Option<&User>) -> (res: Result<Self, ApiError>)
        ensures
            match user {
                None => res matches Err(ApiError::Unauthorized),
                Some(u) => if bits_contain(u.permissions@, REQUIRED_BITS & ALL_PERMISSION_BITS) {
                    res is Ok
                } else {
                    res matches Err(ApiError::Forbidden)
                },
            },
    {
        let user = match user {
            None => return Err(ApiError::Unauthorized),
            Some(u) => u,
        };
        let required = Permissions::from_bits_truncate(REQUIRED_BITS);
        if user.permissions.contains(required) {
            Ok(RequirePermissions)
        } else {
            Err(ApiError::Forbidden)
        }
    }
}

} // verus!
