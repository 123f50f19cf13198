//! Bearer-token authentication of API requests.

use vstd::prelude::*;
use crate::text::{has_prefix, str_eq, chars_of, string_from_chars};

verus! {

pub struct AuthState {
    pub api_keys: Vec<String>,
}

/// `subtle::ConstantTimeEq::ct_eq` on the bytes of two strings: equal
/// exactly when the byte strings are (their lengths are compared first),
/// in time that does not depend on the contents. UTF-8 encodes equal
/// strings, and only those, as equal bytes.
#[verifier::external_body]
fn ct_eq(a: &str, b: &str) -> (r: bool)
    ensures
        r == (a@ == b@),
{
    bool::from(subtle::ConstantTimeEq::ct_eq(a.as_bytes(), b.as_bytes()))
}

/// The only path open without a key, so that probes can check liveness.
pub open spec fn open_path(path: Seq<char>) -> bool {
    path == "/health"@
}

/// The key a request presents: what follows `Bearer ` in its
/// `Authorization` header.
pub open spec fn presented_key(authorization: Option<Seq<char>>) -> Option<Seq<char>> {
    match authorization {
        Some(h) => if has_prefix(h, "Bearer "@) { Some(h.subrange(7, h.len() as int)) } else { None },
        None => None,
    }
}

/// A request passes when no keys are configured, when it asks for an open
/// path, or when it presents one of the configured keys.
pub open spec fn authorized(keys: Seq<Seq<char>>, path: Seq<char>, authorization: Option<Seq<char>>) -> bool {
    ||| keys.len() == 0
    ||| open_path(path)
    ||| (presented_key(authorization) matches Some(k) && keys.contains(k))
}

fn bearer_token(h: &str) -> (r: Option<String>)
    ensures
        match r {
            Some(k) => presented_key(Some(h@)) == Some(k@),
            None => presented_key(Some(h@)) is None,
        },
{
    let v = chars_of(h);
    let n = v.len();
    if crate::text::starts_with(&v, "Bearer ") {
        proof { reveal_strlit("Bearer "); }
        Some(string_from_chars(&v, 7, n))
    } else {
        None
    }
}

/// Decide whether a request to `path` with the given `Authorization`
/// header may proceed. Every configured key is compared, each in constant
/// time, so the time taken does not reveal which key matched.
pub fn authorize(state: &AuthState, path: &str, authorization: Option<&str>) -> (ok: bool)
    ensures
        ok == authorized(
            crate::text::strings_view(state.api_keys@),
            path@,
            match authorization { Some(h) => Some(h@), None => None },
        ),
{
    let ghost keys = crate::text::strings_view(state.api_keys@);
    if state.api_keys.len() == 0 {
        return true;
    }
    if str_eq(path, "/health") {
        return true;
    }
    let presented = match authorization {
        Some(h) => bearer_token(h),
        None => None,
    };
    match presented {
        Some(p) => {
            let mut matched = false;
            let mut i: usize = 0;
            while i < state.api_keys.len()
                invariant
                    keys == crate::text::strings_view(state.api_keys@),
                    i <= state.api_keys@.len(),
                    matched == exists|k: int| 0 <= k < i && #[trigger] keys[k] == p@,
                decreases state.api_keys@.len() - i,
            {
                let eq = ct_eq(state.api_keys[i].as_str(), p.as_str());
                proof {
                    assert(keys[i as int] == state.api_keys@[i as int]@);
                    if eq {
                        assert(keys[i as int] == p@);
                    }
                    if exists|k: int| 0 <= k < i + 1 && #[trigger] keys[k] == p@ {
                        let k = choose|k: int| 0 <= k < i + 1 && #[trigger] keys[k] == p@;
                        if k < i {
                            assert(exists|k2: int| 0 <= k2 < i && #[trigger] keys[k2] == p@);
                        }
                    }
                }
                matched = matched || eq;
                i = i + 1;
            }
            proof {
                if matched {
                    let k = choose|k: int| 0 <= k < state.api_keys@.len() && #[trigger] keys[k] == p@;
                    assert(keys.contains(p@));
                } else {
                    if keys.contains(p@) {
                        let k = choose|k: int| 0 <= k < keys.len() && keys[k] == p@;
                        assert(keys[k] == p@);
                    }
                }
            }
            matched
        },
        None => false,
    }
}

/// The answer to a refused request: status 401 with this error.
pub const UNAUTHORIZED_STATUS: u16 = 401;
pub const UNAUTHORIZED_MESSAGE: &'static str = "missing or invalid API key";
pub const UNAUTHORIZED_TYPE: &'static str = "authentication_error";
pub const UNAUTHORIZED_CODE: &'static str = "invalid_api_key";

} // verus!
