//! The client's side of the authorization-code capture: building the
//! provider authorization URL with a fresh CSRF token, and validating the
//! redirect that comes back — the code is released only when the echoed
//! state equals the generated token exactly.
use vstd::prelude::*;
use vstd::string::StrSliceExecFns;
use vstd::string::StringExecFns;
use crate::messages::AuthorizationCode;
use crate::messages::CsrfToken;

verus! {

/// Identifies the provider and the local capture endpoint for one
/// authorization attempt.
#[derive(Debug, Clone, PartialEq)]
pub struct Config {
    pub client_id: String,
    pub auth_url: String,
    pub redirect_url: String,
}

/// Failures of one capture attempt.
#[derive(Debug, Clone, PartialEq)]
pub enum OAuthError {
    BrowserOpenError(String),
    ParseError(),
    AlreadyRunning(String),
    ReadLineError(String),
    RequestSplitError(),
    NoCodeInResponse(),
    NoCsrfInResponse(),
    MismatchCsrf(CsrfToken, CsrfToken),
    ReceivedNone(),
}

// ---------------------------------------------------------------------------
// Picking the request target out of the HTTP request line.
// ---------------------------------------------------------------------------

pub open spec fn is_ws(c: char) -> bool {
    c == ' ' || c == '\t' || c == '\r' || c == '\n'
}

pub open spec fn skip_ws(s: Seq<char>, i: int) -> int
    decreases s.len() - i,
{
    if i < s.len() && is_ws(s[i]) {
        skip_ws(s, i + 1)
    } else {
        i
    }
}

pub open spec fn skip_word(s: Seq<char>, i: int) -> int
    decreases s.len() - i,
{
    if i < s.len() && !is_ws(s[i]) {
        skip_word(s, i + 1)
    } else {
        i
    }
}

/// The second whitespace-separated word of `s` — for a request line
/// `GET /?code=.. HTTP/1.1`, the request target.
pub open spec fn second_word(s: Seq<char>) -> Option<Seq<char>> {
    let a = skip_ws(s, 0);
    let b = skip_word(s, a);
    let c = skip_ws(s, b);
    let d = skip_word(s, c);
    if c < s.len() {
        Some(s.subrange(c, d))
    } else {
        None
    }
}

fn scan_ws(s: &str, start: usize) -> (r: usize)
    requires
        start <= s@.len(),
    ensures
        r == skip_ws(s@, start as int),
        start <= r <= s@.len(),
{
    let n = s.unicode_len();
    let mut j: usize = start;
    loop
        invariant
            start <= j <= n,
            n == s@.len(),
            skip_ws(s@, start as int) == skip_ws(s@, j as int),
        decreases n - j,
    {
        if j < n {
            let c = s.get_char(j);
            if c == ' ' || c == '\t' || c == '\r' || c == '\n' {
                j += 1;
                continue ;
            }
        }
        assert(skip_ws(s@, j as int) == j as int);
        return j;
    }
}

fn scan_word(s: &str, start: usize) -> (r: usize)
    requires
        start <= s@.len(),
    ensures
        r == skip_word(s@, start as int),
        start <= r <= s@.len(),
{
    let n = s.unicode_len();
    let mut j: usize = start;
    loop
        invariant
            start <= j <= n,
            n == s@.len(),
            skip_word(s@, start as int) == skip_word(s@, j as int),
        decreases n - j,
    {
        if j < n {
            let c = s.get_char(j);
            if !(c == ' ' || c == '\t' || c == '\r' || c == '\n') {
                j += 1;
                continue ;
            }
        }
        assert(skip_word(s@, j as int) == j as int);
        return j;
    }
}

fn request_target<'a>(s: &'a str) -> (r: Option<&'a str>)
    ensures
        match r {
            Some(t) => second_word(s@) == Some(t@),
            None => second_word(s@) is None,
        },
{
    let n = s.unicode_len();
    let a = scan_ws(s, 0);
    let b = scan_word(s, a);
    let c = scan_ws(s, b);
    let d = scan_word(s, c);
    if c < n {
        Some(s.substring_char(c, d))
    } else {
        None
    }
}

// ---------------------------------------------------------------------------
// Query parameters of the redirect URL.
// ---------------------------------------------------------------------------

/// The percent-decoded key/value pairs of the query string of a URL text,
/// in order; `None` where the text is not a parsable URL.
pub uninterp spec fn url_query_of(s: Seq<char>) -> Option<Seq<(Seq<char>, Seq<char>)>>;

/// Relies on `url::Url::parse` and `url::Url::query_pairs`: parses the URL
/// text and hands back its percent-decoded query pairs in order; the result
/// is a function of the text alone.
#[verifier::external_body]
fn url_query_pairs(u: &str) -> (r: Option<Vec<(String, String)>>)
    ensures
        r is Some <==> url_query_of(u@) is Some,
        r matches Some(v) ==> url_query_of(u@) matches Some(q) && q.len() == v@.len() && (forall|
            i: int,
        |
            0 <= i < v@.len() ==> q[i].0 == v@[i].0@ && q[i].1 == v@[i].1@),
{
    let parsed = url::Url::parse(u).ok()?;
    Some(parsed.query_pairs().map(|(k, v)| (k.into_owned(), v.into_owned())).collect())
}

pub open spec fn pairs_view(p: Seq<(String, String)>) -> Seq<(Seq<char>, Seq<char>)> {
    p.map_values(|pr: (String, String)| (pr.0@, pr.1@))
}

/// The value of the first pair whose key is `k`.
pub open spec fn find_pair(q: Seq<(Seq<char>, Seq<char>)>, k: Seq<char>) -> Option<Seq<char>>
    decreases q.len(),
{
    if q.len() == 0 {
        None
    } else if q[0].0 == k {
        Some(q[0].1)
    } else {
        find_pair(q.skip(1), k)
    }
}

fn find_param(pairs: &Vec<(String, String)>, key: &String) -> (r: Option<String>)
    ensures
        match r {
            Some(v) => find_pair(pairs_view(pairs@), key@) == Some(v@),
            None => find_pair(pairs_view(pairs@), key@) is None,
        },
{
    let ghost q = pairs_view(pairs@);
    proof {
        assert(q.skip(0) =~= q);
    }
    let mut i: usize = 0;
    loop
        invariant
            i <= pairs@.len(),
            q == pairs_view(pairs@),
            q.len() == pairs@.len(),
            find_pair(q, key@) == find_pair(q.skip(i as int), key@),
        decreases pairs@.len() - i,
    {
        if i >= pairs.len() {
            assert(q.skip(i as int) =~= Seq::<(Seq<char>, Seq<char>)>::empty());
            return None;
        }
        assert(q.skip(i as int)[0] == q[i as int]);
        assert(q[i as int] == (pairs@[i as int].0@, pairs@[i as int].1@));
        if pairs[i].0.eq(key) {
            assert(q.skip(i as int)[0].0 == key@);
            assert(find_pair(q.skip(i as int), key@) == Some(q[i as int].1));
            return Some(pairs[i].1.clone());
        }
        assert(q.skip(i as int)[0].0 != key@);
        assert(q.skip(i as int).skip(1) =~= q.skip(i as int + 1));
        assert(find_pair(q.skip(i as int), key@) == find_pair(q.skip(i as int + 1), key@));
        i += 1;
    }
}

// ---------------------------------------------------------------------------
// CSRF validation of the captured redirect.
// ---------------------------------------------------------------------------

/// The URL text the redirect target is parsed as, on a dummy local base.
pub open spec fn local_url_of(target: Seq<char>) -> Seq<char> {
    "http://localhost"@ + target
}

/// Validates one captured redirect request line against the expected CSRF
/// token and releases the authorization code only on an exact match. A code
/// that arrives without the correct CSRF proof is never returned: any state
/// other than the generated one — the empty string included — fails with
/// `MismatchCsrf`, which carries the received and the expected token.
pub fn handle_redirect(request_line: &str, expected: &CsrfToken) -> (r: Result<
    AuthorizationCode,
    OAuthError,
>)
    ensures
        match second_word(request_line@) {
            None => r == Err::<AuthorizationCode, OAuthError>(OAuthError::RequestSplitError()),
            Some(t) => match url_query_of(local_url_of(t)) {
                None => r == Err::<AuthorizationCode, OAuthError>(OAuthError::ParseError()),
                Some(q) => match find_pair(q, "code"@) {
                    None => r == Err::<AuthorizationCode, OAuthError>(
                        OAuthError::NoCodeInResponse(),
                    ),
                    Some(code) => match find_pair(q, "state"@) {
                        None => r == Err::<AuthorizationCode, OAuthError>(
                            OAuthError::NoCsrfInResponse(),
                        ),
                        Some(st) => if st == expected@ {
                            r matches Ok(c) && c@ == code
                        } else {
                            r matches Err(e) && (e matches OAuthError::MismatchCsrf(rec, exp)
                                && rec@ == st && exp@ == expected@)
                        },
                    },
                },
            },
        },
{
    let target = match request_target(request_line) {
        Some(t) => t,
        None => {
            return Err(OAuthError::RequestSplitError());
        },
    };
    let mut url_text = String::from_str("http://localhost");
    url_text.append(target);
    let pairs = match url_query_pairs(url_text.as_str()) {
        Some(p) => p,
        None => {
            return Err(OAuthError::ParseError());
        },
    };
    proof {
        let q = url_query_of(local_url_of(second_word(request_line@).unwrap())).unwrap();
        assert(url_text@ == local_url_of(second_word(request_line@).unwrap()));
        assert(forall|i: int|
            0 <= i < q.len() ==> pairs_view(pairs@)[i] == #[trigger] q[i]);
        assert(pairs_view(pairs@) =~= q);
    }
    let code_key = String::from_str("code");
    let state_key = String::from_str("state");
    let code = match find_param(&pairs, &code_key) {
        Some(c) => c,
        None => {
            return Err(OAuthError::NoCodeInResponse());
        },
    };
    let state = match find_param(&pairs, &state_key) {
        Some(s) => s,
        None => {
            return Err(OAuthError::NoCsrfInResponse());
        },
    };
    if state.eq(expected.secret()) {
        Ok(AuthorizationCode::new(code))
    } else {
        Err(
            OAuthError::MismatchCsrf(
                CsrfToken::new(state),
                CsrfToken::new(expected.secret().clone()),
            ),
        )
    }
}

// ---------------------------------------------------------------------------
// Building the authorization URL.
// ---------------------------------------------------------------------------

/// Relies on `oauth2::basic::BasicClient::authorize_url` with
/// `oauth2::CsrfToken::new_random`: builds the provider authorization URL for
/// these parameters and draws a fresh random state token, returning the URL
/// text and the token's secret. `AuthUrl::new` and `RedirectUrl::new` are
/// `url::Url::parse`, so the call succeeds exactly when both texts parse.
/// The builder appends its query pairs after any the provider URL already
/// carries — `response_type` (always `code` here), `client_id`, `state`,
/// `redirect_uri` (the text as given), then `scope` where one is set — and
/// the extra pair last, so where the provider URL does not already bind one
/// of those keys, its first binding in the result is the builder's. The
/// token's secret is random: nothing is promised of its value.
#[verifier::external_body]
fn oauth_authorize_url(
    client_id: &str,
    auth_url: &str,
    redirect_url: &str,
    scope: &str,
    extra_key: &str,
    extra_val: &str,
) -> (r: Option<(String, String)>)
    ensures
        r is Some <==> (url_query_of(auth_url@) is Some && url_query_of(redirect_url@) is Some),
        r matches Some(p) ==> (url_query_of(p.0@) matches Some(q) && ({
            let q0 = url_query_of(auth_url@).unwrap();
            &&& (find_pair(q0, "response_type"@) is None ==> find_pair(q, "response_type"@)
                == Some("code"@))
            &&& (find_pair(q0, "client_id"@) is None ==> find_pair(q, "client_id"@) == Some(
                client_id@,
            ))
            &&& (find_pair(q0, "state"@) is None ==> find_pair(q, "state"@) == Some(p.1@))
            &&& (find_pair(q0, "redirect_uri"@) is None ==> find_pair(q, "redirect_uri"@) == Some(
                redirect_url@,
            ))
            &&& (find_pair(q0, "scope"@) is None && scope@.len() > 0 ==> find_pair(q, "scope"@)
                == Some(scope@))
        })),
{
    let auth = oauth2::AuthUrl::new(auth_url.to_string()).ok()?;
    let redirect = oauth2::RedirectUrl::new(redirect_url.to_string()).ok()?;
    let client = oauth2::basic::BasicClient::new(oauth2::ClientId::new(client_id.to_string()))
        .set_auth_uri(auth)
        .set_redirect_uri(redirect);
    let (url, token) = client
        .authorize_url(oauth2::CsrfToken::new_random)
        .add_scope(oauth2::Scope::new(scope.to_string()))
        .add_extra_param(extra_key, extra_val)
        .url();
    Some((url.to_string(), token.secret().clone()))
}

/// Builds the browser authorization URL for one capture attempt, requesting
/// the identify scope and the code response type, and returns with it the
/// CSRF token whose exact echo the redirect must carry. It succeeds exactly
/// when the provider URL and `http://` + the redirect address parse as URLs,
/// and fails with `ParseError` otherwise; on success the returned URL's
/// query binds `state` to the returned token's secret, and carries the
/// client id, the redirect URI, the scope and the response type, wherever
/// the provider URL does not already bind those keys itself.
pub fn prepare_authorization(cfg: &Config) -> (r: Result<(String, CsrfToken), OAuthError>)
    ensures
        r is Ok <==> (url_query_of(cfg.auth_url@) is Some && url_query_of(
            "http://"@ + cfg.redirect_url@,
        ) is Some),
        r matches Err(e) ==> e == OAuthError::ParseError(),
        r matches Ok(p) ==> (url_query_of(p.0@) matches Some(q) && ({
            let q0 = url_query_of(cfg.auth_url@).unwrap();
            &&& (find_pair(q0, "response_type"@) is None ==> find_pair(q, "response_type"@)
                == Some("code"@))
            &&& (find_pair(q0, "client_id"@) is None ==> find_pair(q, "client_id"@) == Some(
                cfg.client_id@,
            ))
            &&& (find_pair(q0, "state"@) is None ==> find_pair(q, "state"@) == Some(p.1@))
            &&& (find_pair(q0, "redirect_uri"@) is None ==> find_pair(q, "redirect_uri"@) == Some(
                "http://"@ + cfg.redirect_url@,
            ))
            &&& (find_pair(q0, "scope"@) is None ==> find_pair(q, "scope"@) == Some("identify"@))
        })),
{
    proof {
        reveal_strlit("identify");
    }
    let mut redirect = String::from_str("http://");
    redirect.append(cfg.redirect_url.as_str());
    match oauth_authorize_url(
        cfg.client_id.as_str(),
        cfg.auth_url.as_str(),
        redirect.as_str(),
        "identify",
        "response_type",
        "code",
    ) {
        Some((u, secret)) => Ok((u, CsrfToken::new(secret))),
        None => Err(OAuthError::ParseError()),
    }
}

} // verus!
