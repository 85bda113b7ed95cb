//! The host's side of authentication: choosing the provider grant for a
//! credential, validating the token response — both tokens are owed — and
//! resolving the authenticated user's identity from the profile endpoint's
//! response.
use vstd::prelude::*;
use vstd::string::StringExecFns;
use crate::messages::AccessToken;
use crate::messages::Auth;
use crate::messages::AuthorizationCode;
use crate::messages::RefreshToken;
use crate::messages::SpecAuth;
use crate::messages::SpecUser;
use crate::messages::User;

verus! {

/// Failures of token exchange and identity resolution.
#[derive(Debug, Clone, PartialEq)]
pub enum OAuthError {
    ParseError(),
    RequestError(),
    RequestErrorApi(),
    ResponseError(u16),
    NoRefreshTokenInResponse(),
    UserParseError(),
    InvalidHeader(),
}

/// The provider grant one credential selects.
#[derive(Debug, Clone, PartialEq)]
pub enum Grant {
    AuthorizationCode(AuthorizationCode),
    RefreshToken(RefreshToken),
}

/// Which grant a credential dispatches to: an authorization code uses the
/// authorization-code grant, a refresh token the refresh-token grant.
pub fn grant_request(access: &Auth) -> (g: Grant)
    ensures
        match access@ {
            SpecAuth::Code(s) => g matches Grant::AuthorizationCode(x) && x@ == s,
            SpecAuth::Token(s) => g matches Grant::RefreshToken(x) && x@ == s,
        },
{
    match access {
        Auth::Code(c) => Grant::AuthorizationCode(AuthorizationCode::new(c.secret().clone())),
        Auth::Token(t) => Grant::RefreshToken(RefreshToken::new(t.secret().clone())),
    }
}

/// What a token response yields: both tokens where the provider sent both,
/// and `NoRefreshTokenInResponse` where the refresh token is missing, even
/// though the access token may be valid — the contract requires both.
pub fn tokens_from_response(access: AccessToken, refresh: Option<RefreshToken>) -> (r: Result<
    (AccessToken, RefreshToken),
    OAuthError,
>)
    ensures
        match refresh {
            Some(t) => r matches Ok(p) && p.0@ == access@ && p.1@ == t@,
            None => r == Err::<(AccessToken, RefreshToken), OAuthError>(
                OAuthError::NoRefreshTokenInResponse(),
            ),
        },
{
    match refresh {
        Some(t) => Ok((access, t)),
        None => Err(OAuthError::NoRefreshTokenInResponse()),
    }
}

/// The Authorization header value for a bearer token.
pub fn bearer_header_value(token: &AccessToken) -> (r: String)
    ensures
        r@ == "Bearer "@ + token@,
{
    let mut s = String::from_str("Bearer ");
    s.append(token.secret().as_str());
    s
}

/// A character the HTTP header grammar accepts in a header value: horizontal
/// tab, or anything that is neither another control character nor delete.
pub open spec fn valid_header_char(c: char) -> bool {
    c == '\t' || (c as u32 >= 32 && c as u32 != 127)
}

pub open spec fn valid_header_value(s: Seq<char>) -> bool {
    forall|i: int| 0 <= i < s.len() ==> valid_header_char(#[trigger] s[i])
}

/// Builds the bearer Authorization header where the token can stand in one,
/// and fails with `InvalidHeader` — before any request could be issued —
/// where the token's secret holds a character the header grammar refuses.
pub fn checked_bearer_header_value(token: &AccessToken) -> (r: Result<String, OAuthError>)
    ensures
        valid_header_value(token@) ==> (r matches Ok(h) && h@ == "Bearer "@ + token@),
        !valid_header_value(token@) ==> r == Err::<String, OAuthError>(OAuthError::InvalidHeader()),
{
    let secret = token.secret().as_str();
    let n = secret.unicode_len();
    let mut i: usize = 0;
    while i < n
        invariant
            i <= n,
            n == secret@.len(),
            secret@ == token@,
            forall|j: int| 0 <= j < i ==> valid_header_char(#[trigger] secret@[j]),
        decreases n - i,
    {
        let c = secret.get_char(i);
        if !(c == '\t' || (c as u32 >= 32 && c as u32 != 127)) {
            return Err(OAuthError::InvalidHeader());
        }
        i += 1;
    }
    Ok(bearer_header_value(token))
}

/// The string field named `k` of the top-level JSON object in `b`, where the
/// bytes parse as JSON and the field is a string.
pub uninterp spec fn json_str_of(b: Seq<u8>, k: Seq<char>) -> Option<Seq<char>>;

/// Relies on `serde_json::from_slice`, `serde_json::Value::get` and
/// `serde_json::Value::as_str`: the string field named `key` of the JSON
/// object in `body`; a function of the bytes and the key alone.
#[verifier::external_body]
fn json_string_field(body: &[u8], key: &str) -> (r: Option<String>)
    ensures
        r is Some <==> json_str_of(body@, key@) is Some,
        r matches Some(s) ==> json_str_of(body@, key@) == Some(s@),
{
    let v: serde_json::Value = serde_json::from_slice(body).ok()?;
    Some(v.get(key)?.as_str()?.to_string())
}

/// What the token endpoint's response body yields. A body that does not
/// carry an `access_token` string is a malformed provider response,
/// `RequestError`; one that carries it but no `refresh_token` is
/// `NoRefreshTokenInResponse`; with both, both tokens are returned.
pub fn tokens_from_body(body: &[u8]) -> (r: Result<(AccessToken, RefreshToken), OAuthError>)
    ensures
        match json_str_of(body@, "access_token"@) {
            None => r == Err::<(AccessToken, RefreshToken), OAuthError>(OAuthError::RequestError()),
            Some(at) => match json_str_of(body@, "refresh_token"@) {
                None => r == Err::<(AccessToken, RefreshToken), OAuthError>(
                    OAuthError::NoRefreshTokenInResponse(),
                ),
                Some(rt) => r matches Ok(p) && p.0@ == at && p.1@ == rt,
            },
        },
{
    let access = match json_string_field(body, "access_token") {
        Some(s) => AccessToken::new(s),
        None => {
            return Err(OAuthError::RequestError());
        },
    };
    let refresh = match json_string_field(body, "refresh_token") {
        Some(s) => Some(RefreshToken::new(s)),
        None => None,
    };
    tokens_from_response(access, refresh)
}

/// What the profile endpoint's response yields. Any status other than 200 is
/// `ResponseError` with that status, and the body is not decoded. A 200
/// response yields the user whose fields the body carries, and
/// `UserParseError` where any of the three is missing or not a string.
pub fn resolve_user(status: u16, body: &[u8]) -> (r: Result<User, OAuthError>)
    ensures
        status != 200 ==> r == Err::<User, OAuthError>(OAuthError::ResponseError(status)),
        status == 200 ==> (match (
            json_str_of(body@, "username"@),
            json_str_of(body@, "id"@),
            json_str_of(body@, "avatar"@),
        ) {
            (Some(u), Some(i), Some(a)) => r matches Ok(user) && user@ == (SpecUser {
                username: u,
                id: i,
                avatar: a,
            }),
            _ => r == Err::<User, OAuthError>(OAuthError::UserParseError()),
        }),
{
    if status != 200 {
        return Err(OAuthError::ResponseError(status));
    }
    let username = json_string_field(body, "username");
    let id = json_string_field(body, "id");
    let avatar = json_string_field(body, "avatar");
    match (username, id, avatar) {
        (Some(username), Some(id), Some(avatar)) => {
            let user = User { username, id, avatar };
            assert(user@ =~= (SpecUser {
                username: json_str_of(body@, "username"@).unwrap(),
                id: json_str_of(body@, "id"@).unwrap(),
                avatar: json_str_of(body@, "avatar"@).unwrap(),
            }));
            Ok(user)
        },
        _ => Err(OAuthError::UserParseError()),
    }
}

} // verus!
