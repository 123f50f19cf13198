//! Hiding secrets in the configuration the admin API shows: every value
//! under a key that names a secret becomes `***`, except `${VAR}`
//! references, which name where a secret lives rather than the secret.

use vstd::prelude::*;
use crate::text::{has_prefix, has_suffix, str_eq, to_string};

verus! {

/// A JSON document (numbers by their text).
#[derive(Debug, PartialEq)]
pub enum JsonValue {
    Null,
    Bool(bool),
    Number(String),
    Str(String),
    Array(Vec<JsonValue>),
    Object(Vec<(String, JsonValue)>),
}

/// The keys whose values are secrets.
pub open spec fn secret_key(k: Seq<char>) -> bool {
    k == "api_key"@ || k == "api_keys"@ || k == "hf_token_env"@
}

pub fn is_secret_key(k: &str) -> (r: bool)
    ensures
        r == secret_key(k@),
{
    str_eq(k, "api_key") || str_eq(k, "api_keys") || str_eq(k, "hf_token_env")
}

/// A `${VAR}` reference.
pub open spec fn env_reference(s: Seq<char>) -> bool {
    has_prefix(s, "${"@) && has_suffix(s, "}"@)
}

fn is_env_reference(s: &str) -> (r: bool)
    ensures
        r == env_reference(s@),
{
    let n = s.unicode_len();
    proof {
        reveal_strlit("${");
        reveal_strlit("}");
    }
    let opens = n >= 2 && s.get_char(0) == '$' && s.get_char(1) == '{';
    let closes = n >= 1 && s.get_char(n - 1) == '}';
    proof {
        if opens {
            assert(s@.subrange(0, 2) =~= "${"@);
        } else if n >= 2 {
            assert(s@.subrange(0, 2)[0] != "${"@[0] || s@.subrange(0, 2)[1] != "${"@[1]);
        }
        if closes {
            assert(s@.subrange(n - 1, n as int) =~= "}"@);
        } else if n >= 1 {
            assert(s@.subrange(n - 1, n as int)[0] != "}"@[0]);
        }
    }
    opens && closes
}

/// A secret string after redaction: kept when it is a reference, else `***`.
pub open spec fn hidden(new: Seq<char>, old: Seq<char>) -> bool {
    if env_reference(old) { new == old } else { new == "***"@ }
}

/// `new` is the secret value `old` redacted: a string is hidden, each
/// string of an array is hidden, and anything else is kept.
pub open spec fn secret_redacted(new: JsonValue, old: JsonValue) -> bool {
    match old {
        JsonValue::Str(o) => new matches JsonValue::Str(n) && hidden(n@, o@),
        JsonValue::Array(oa) => new matches JsonValue::Array(na) && na@.len() == oa@.len()
            && forall|i: int| 0 <= i < oa@.len() ==> match #[trigger] oa@[i] {
                JsonValue::Str(o) => na@[i] matches JsonValue::Str(n) && hidden(n@, o@),
                _ => na@[i] == oa@[i],
            },
        _ => new == old,
    }
}

/// `new` is `old` with every value under a secret key redacted, at any
/// depth; everything else is as it was.
pub open spec fn redacted(new: JsonValue, old: JsonValue) -> bool
    decreases old,
{
    match old {
        JsonValue::Object(om) => new matches JsonValue::Object(nm) && nm@.len() == om@.len()
            && forall|i: int| 0 <= i < om@.len() ==> {
                let (k, ov) = #[trigger] om@[i];
                &&& nm@[i].0@ == k@
                &&& if secret_key(k@) {
                    secret_redacted(nm@[i].1, ov)
                } else {
                    redacted(nm@[i].1, ov)
                }
            },
        JsonValue::Array(oa) => new matches JsonValue::Array(na) && na@.len() == oa@.len()
            && forall|i: int| 0 <= i < oa@.len() ==> redacted(na@[i], #[trigger] oa@[i]),
        _ => new == old,
    }
}

/// In a redacted object, the string under `api_key`, `api_keys` or
/// `hf_token_env` is shown as `***` unless it is a `${VAR}` reference (so
/// no character of a real secret is shown), and a string under any other
/// key is shown as it is.
pub proof fn law_secrets_never_shown(new: JsonValue, old: JsonValue, i: int)
    requires
        redacted(new, old),
        old matches JsonValue::Object(om) && 0 <= i < om@.len() && om@[i].1 is Str,
    ensures
        ({
            let om = old->Object_0@;
            let nm = new->Object_0@;
            let k = om[i].0@;
            let o = om[i].1->Str_0@;
            &&& new is Object
            &&& nm[i].0@ == k
            &&& (k == "api_key"@ || k == "api_keys"@ || k == "hf_token_env"@) && (o.len() == 0 || o[0] != '$')
                ==> (nm[i].1 matches JsonValue::Str(n) && n@ == "***"@)
            &&& !(k == "api_key"@ || k == "api_keys"@ || k == "hf_token_env"@) ==> nm[i].1 == om[i].1
        }),
{
    let om = old->Object_0@;
    let nm = new->Object_0@;
    let o = om[i].1->Str_0@;
    let (k, ov) = om[i];
    assert(nm[i].0@ == k@);
    if secret_key(k@) {
        assert(secret_redacted(nm[i].1, ov));
    } else {
        assert(redacted(nm[i].1, ov));
        assert(nm[i].1 == ov);
    }
    reveal_strlit("${");
    if o.len() == 0 || o[0] != '$' {
        assert(!env_reference(o)) by {
            if o.len() >= 2 {
                assert(o.subrange(0, 2)[0] == o[0]);
            }
        }
    }
}

fn conceal(s: &mut String)
    ensures
        hidden(final(s)@, old(s)@),
{
    if !is_env_reference(s.as_str()) {
        *s = to_string("***");
    }
}

/// Redact a secret value.
pub fn redact_secret(v: &mut JsonValue)
    ensures
        secret_redacted(*final(v), *old(v)),
{
    match v {
        JsonValue::Str(s) => conceal(s),
        JsonValue::Array(arr) => {
            let ghost oa = arr@;
            let mut i: usize = 0;
            while i < arr.len()
                invariant
                    i <= arr@.len(),
                    arr@.len() == oa.len(),
                    forall|j: int| 0 <= j < i ==> match #[trigger] oa[j] {
                        JsonValue::Str(o) => arr@[j] matches JsonValue::Str(n) && hidden(n@, o@),
                        _ => arr@[j] == oa[j],
                    },
                    forall|j: int| i <= j < arr@.len() ==> #[trigger] arr@[j] == oa[j],
                decreases arr@.len() - i,
            {
                if let JsonValue::Str(s) = &mut arr[i] {
                    conceal(s);
                }
                i = i + 1;
            }
        },
        _ => {},
    }
}

/// Redact every value under a secret key, at any depth.
pub fn redact(v: &mut JsonValue)
    ensures
        redacted(*final(v), *old(v)),
{
    let mut owned = JsonValue::Null;
    std::mem::swap(&mut owned, v);
    let r = redacted_value(owned);
    *v = r;
}

#[verifier::loop_isolation(false)]
fn redacted_value(v: JsonValue) -> (r: JsonValue)
    ensures
        redacted(r, v),
    decreases v,
{
    let ghost ov = v;
    match v {
        JsonValue::Object(mut map) => {
            let ghost om = map@;
            let mut i: usize = 0;
            while i < map.len()
                invariant
                    i <= map@.len(),
                    map@.len() == om.len(),
                    ov is Object && (ov->Object_0)@ == om,
                    forall|j: int| 0 <= j < i ==> {
                        let (k, o) = #[trigger] om[j];
                        &&& map@[j].0@ == k@
                        &&& if secret_key(k@) {
                            secret_redacted(map@[j].1, o)
                        } else {
                            redacted(map@[j].1, o)
                        }
                    },
                    forall|j: int| i <= j < map@.len() ==> #[trigger] map@[j] == om[j],
                decreases map@.len() - i,
            {
                let secret = is_secret_key(map[i].0.as_str());
                let mut child = JsonValue::Null;
                std::mem::swap(&mut child, &mut map[i].1);
                if secret {
                    redact_secret(&mut child);
                } else {
                    proof {
                        let m = ov->Object_0;
                        assert(decreases_to!(ov => m));
                        assert(decreases_to!(m => m@));
                        assert(decreases_to!(m@ => m@[i as int]));
                        assert(decreases_to!(m@[i as int] => m@[i as int].1));
                    }
                    child = redacted_value(child);
                }
                map[i].1 = child;
                i = i + 1;
            }
            JsonValue::Object(map)
        },
        JsonValue::Array(mut arr) => {
            let ghost oa = arr@;
            let mut i: usize = 0;
            while i < arr.len()
                invariant
                    i <= arr@.len(),
                    arr@.len() == oa.len(),
                    ov is Array && (ov->Array_0)@ == oa,
                    forall|j: int| 0 <= j < i ==> redacted(arr@[j], #[trigger] oa[j]),
                    forall|j: int| i <= j < arr@.len() ==> #[trigger] arr@[j] == oa[j],
                decreases arr@.len() - i,
            {
                let mut child = JsonValue::Null;
                std::mem::swap(&mut child, &mut arr[i]);
                proof {
                    let a = ov->Array_0;
                    assert(decreases_to!(ov => a));
                    assert(decreases_to!(a => a@));
                    assert(decreases_to!(a@ => a@[i as int]));
                }
                let c = redacted_value(child);
                arr.set(i, c);
                i = i + 1;
            }
            JsonValue::Array(arr)
        },
        other => other,
    }
}

} // verus!
