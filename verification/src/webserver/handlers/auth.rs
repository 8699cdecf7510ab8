//! Basic authentication of the page requests.
#![allow(non_snake_case)]
#![allow(non_upper_case_globals)]
use vstd::prelude::*;
use vstd::string::*;

use super::{CHeader, HttpMethod, findHeader, header_value};
use crate::strings::{pieces, split_char, str_eq};
use crate::sys::{base64_decode, base64_decoded, string_from_utf8};

verus! {

/// The header that carries the credentials.
pub const authorization: &'static str = "Authorization";

/// The header that asks the browser for credentials, and its value.
pub const authenticate_field: &'static str = "WWW-Authenticate";
pub const authenticate_value: &'static str = "Basic realm=\"Dotcoo User Login\"";

/// What becomes of a request that must be authenticated.
pub enum AuthOutcome {
    /// Answer 401 with the `WWW-Authenticate` header.
    Challenge,
    /// Answer with this text and go no further.
    Reject(String),
    /// Serve the request.
    Accept,
}

/// The abstract value of an `AuthOutcome`.
pub enum AuthView {
    Challenge,
    Reject(Seq<char>),
    Accept,
}

impl View for AuthOutcome {
    type V = AuthView;

    open spec fn view(&self) -> AuthView {
        match self {
            AuthOutcome::Challenge => AuthView::Challenge,
            AuthOutcome::Reject(s) => AuthView::Reject(s@),
            AuthOutcome::Accept => AuthView::Accept,
        }
    }
}

/// What becomes of a request whose credentials decoded to `decoded`: they
/// must be UTF-8 text `user:password` whose password is `pwd`.  The user
/// name is not looked at.
pub open spec fn credentials_outcome(pwd: Seq<char>, decoded: Option<Seq<u8>>) -> AuthView {
    match decoded {
        None => AuthView::Reject("decode base64 error"@),
        Some(b) => if !vstd::utf8::valid_utf8(b) {
            AuthView::Reject("from utf8 error"@)
        } else {
            let v = pieces(vstd::utf8::decode_utf8(b), ':');
            if v.len() < 2 {
                AuthView::Reject("split by : error"@)
            } else if pwd != v[1] {
                AuthView::Reject("password error"@)
            } else {
                AuthView::Accept
            }
        },
    }
}

/// What becomes of a request with method `is_get` (whether it is a GET) and
/// `Authorization` header `auth`: a GET without credentials is challenged;
/// otherwise the header must read `Basic <base64>`.
pub open spec fn auth_outcome(is_get: bool, auth: Seq<char>, pwd: Seq<char>) -> AuthView {
    if is_get && auth.len() == 0 {
        AuthView::Challenge
    } else {
        let v = pieces(auth, ' ');
        if v.len() < 2 {
            AuthView::Reject("auth error"@)
        } else if v[0] != "Basic"@ {
            AuthView::Reject("auth is not Basic"@)
        } else {
            credentials_outcome(pwd, base64_decoded(vstd::utf8::encode_utf8(v[1])))
        }
    }
}

/// Judges credentials that decoded to `decoded` against the password `inPwd`.
pub fn checkCredentials(inPwd: &str, decoded: Option<Vec<u8>>) -> (r: AuthOutcome)
    ensures
        r@ == credentials_outcome(
            inPwd@,
            match decoded {
                Some(v) => Some(v@),
                None => None,
            },
        ),
{
    let bytes = match decoded {
        Some(b) => b,
        None => {
            return AuthOutcome::Reject("decode base64 error".to_owned());
        },
    };
    let s = match string_from_utf8(bytes) {
        Some(s) => s,
        None => {
            return AuthOutcome::Reject("from utf8 error".to_owned());
        },
    };
    let v = split_char(s.as_str(), ':');
    if v.len() < 2 {
        return AuthOutcome::Reject("split by : error".to_owned());
    }
    assert(crate::strings::views(v@)[1] == v@[1]@);
    if !str_eq(inPwd, v[1].as_str()) {
        return AuthOutcome::Reject("password error".to_owned());
    }
    AuthOutcome::Accept
}

/// Authenticates page requests.
pub struct CAuthHandler {}

impl CAuthHandler {
    pub fn new() -> CAuthHandler {
        CAuthHandler {  }
    }

    /// Judges a request with `method` and `headers` against the password
    /// `inPwd`.
    pub fn handler(&self, inPwd: &str, method: HttpMethod, headers: &Vec<CHeader>) -> (r: AuthOutcome)
        ensures
            r@ == auth_outcome(
                method == HttpMethod::Get,
                header_value(headers@, authorization@),
                inPwd@,
            ),
    {
        let auth = findHeader(headers, authorization);
        if method == HttpMethod::Get && auth.as_str().is_empty() {
            return AuthOutcome::Challenge;
        }
        let v = split_char(auth.as_str(), ' ');
        if v.len() < 2 {
            return AuthOutcome::Reject("auth error".to_owned());
        }
        assert(crate::strings::views(v@)[0] == v@[0]@);
        assert(crate::strings::views(v@)[1] == v@[1]@);
        if !str_eq(v[0].as_str(), "Basic") {
            return AuthOutcome::Reject("auth is not Basic".to_owned());
        }
        let decoded = base64_decode(v[1].as_str());
        checkCredentials(inPwd, decoded)
    }
}

} // verus!
