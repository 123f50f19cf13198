//! `${VAR}` interpolation of secrets and endpoints in the configuration.
//! The process environment is read by the caller and passed in as a list
//! of (name, value) pairs.

use vstd::prelude::*;
use crate::config::{ConfigError, FlarionConfig, Issue, ModelConfig, ServerConfig};
use crate::text::{
    chars_of, copy_opt_string, decimal, opt_view, push_chars, push_decimal, push_str, string_from_chars, strings_view,
    to_string,
};
use crate::validate::{first_index, lemma_first_index_is, lemma_first_index_none, lemma_first_index_some};

verus! {

pub open spec fn env_view(env: Seq<(String, String)>) -> Seq<(Seq<char>, Seq<char>)> {
    env.map_values(|p: (String, String)| (p.0@, p.1@))
}

/// The value of the first entry named `name`.
pub open spec fn named(env: Seq<(Seq<char>, Seq<char>)>, name: Seq<char>) -> spec_fn(int) -> bool {
    |i: int| env[i].0 == name
}

#[verifier::opaque]
pub open spec fn env_lookup(env: Seq<(Seq<char>, Seq<char>)>, name: Seq<char>) -> Option<Seq<char>> {
    match first_index(env.len() as int, named(env, name)) {
        Some(i) => Some(env[i].1),
        None => None,
    }
}

pub open spec fn is_upper(c: char) -> bool {
    'A' <= c && c <= 'Z'
}

pub open spec fn is_digit(c: char) -> bool {
    '0' <= c && c <= '9'
}

/// Upper-case ASCII letters, digits and `_`, not starting with a digit.
pub open spec fn valid_env_name(s: Seq<char>) -> bool {
    &&& s.len() > 0
    &&& (is_upper(s[0]) || s[0] == '_')
    &&& forall|i: int| 0 <= i < s.len() ==> (is_upper(#[trigger] s[i]) || is_digit(s[i]) || s[i] == '_')
}

pub fn is_valid_env_name(name: &Vec<char>, from: usize, to: usize) -> (r: bool)
    requires
        from <= to <= name@.len(),
    ensures
        r == valid_env_name(name@.subrange(from as int, to as int)),
{
    let ghost s = name@.subrange(from as int, to as int);
    if from == to {
        return false;
    }
    let c0 = name[from];
    if !(('A' <= c0 && c0 <= 'Z') || c0 == '_') {
        return false;
    }
    let mut i = from;
    while i < to
        invariant
            from <= i <= to,
            to <= name@.len(),
            s == name@.subrange(from as int, to as int),
            forall|k: int| 0 <= k < i - from ==> (is_upper(#[trigger] s[k]) || is_digit(s[k]) || s[k] == '_'),
        decreases to - i,
    {
        let c = name[i];
        if !(('A' <= c && c <= 'Z') || ('0' <= c && c <= '9') || c == '_') {
            assert(!(is_upper(s[i - from]) || is_digit(s[i - from]) || s[i - from] == '_'));
            return false;
        }
        i = i + 1;
    }
    true
}

pub open spec fn opens_at(s: Seq<char>, i: int) -> bool {
    s[i] == '$' && s[i + 1] == '{'
}

pub open spec fn open_pred(s: Seq<char>) -> spec_fn(int) -> bool {
    |i: int| opens_at(s, i)
}

pub open spec fn close_pred(s: Seq<char>) -> spec_fn(int) -> bool {
    |k: int| s[k] == '}'
}

/// Where the first `${` of `s` starts.
#[verifier::opaque]
pub open spec fn next_open(s: Seq<char>) -> Option<int> {
    first_index(s.len() - 1, open_pred(s))
}

/// Where the first `}` of `s` is.
#[verifier::opaque]
pub open spec fn next_close(s: Seq<char>) -> Option<int> {
    first_index(s.len() as int, close_pred(s))
}

/// Replace every `${VAR}` in `s`: `Err(None)` for a malformed reference
/// (no closing brace, or an invalid name), `Err(Some(name))` for a
/// variable the environment lacks.
#[verifier::opaque]
pub open spec fn expand(s: Seq<char>, env: Seq<(Seq<char>, Seq<char>)>) -> Result<Seq<char>, Option<Seq<char>>>
    decreases s.len(),
{
    match next_open(s) {
        None => Ok(s),
        Some(start) => {
            let after = s.subrange(start + 2, s.len() as int);
            match next_close(after) {
                None => Err(None),
                Some(end) => {
                    let name = after.subrange(0, end);
                    if !valid_env_name(name) {
                        Err(None)
                    } else {
                        match env_lookup(env, name) {
                            None => Err(Some(name)),
                            Some(v) => {
                                proof {
                                    reveal(next_open);
                                    reveal(next_close);
                                    lemma_first_index_some(s.len() - 1, open_pred(s));
                                    lemma_first_index_some(after.len() as int, close_pred(after));
                                }
                                match expand(after.subrange(end + 1, after.len() as int), env) {
                                    Ok(t) => Ok(s.subrange(0, start) + v + t),
                                    Err(e) => Err(e),
                                }
                            },
                        }
                    }
                },
            }
        },
    }
}

/// One unfolding of `expand`.
pub proof fn lemma_expand_unfold(s: Seq<char>, env: Seq<(Seq<char>, Seq<char>)>)
    ensures
        expand(s, env) == (match next_open(s) {
            None => Ok(s),
            Some(start) => {
                let after = s.subrange(start + 2, s.len() as int);
                match next_close(after) {
                    None => Err(None),
                    Some(end) => {
                        let name = after.subrange(0, end);
                        if !valid_env_name(name) {
                            Err(None)
                        } else {
                            match env_lookup(env, name) {
                                None => Err(Some(name)),
                                Some(v) => match expand(after.subrange(end + 1, after.len() as int), env) {
                                    Ok(t) => Ok(s.subrange(0, start) + v + t),
                                    Err(e) => Err(e),
                                },
                            }
                        }
                    },
                }
            },
        }),
{
    reveal(expand);
}

/// Text without `${` expands to itself.
pub proof fn lemma_expand_no_open(s: Seq<char>, env: Seq<(Seq<char>, Seq<char>)>)
    requires
        next_open(s) is None,
    ensures
        expand(s, env) == Ok::<Seq<char>, Option<Seq<char>>>(s),
{
    reveal(expand);
}

pub open spec fn prepend(o: Seq<char>, r: Result<Seq<char>, Option<Seq<char>>>) -> Result<Seq<char>, Option<Seq<char>>> {
    match r {
        Ok(t) => Ok(o + t),
        Err(e) => Err(e),
    }
}

/// `v[from..to]` equals `s`.
fn segment_eq(v: &Vec<char>, from: usize, to: usize, s: &str) -> (r: bool)
    requires
        from <= to <= v@.len(),
    ensures
        r == (v@.subrange(from as int, to as int) == s@),
{
    let n = s.unicode_len();
    if to - from != n {
        return false;
    }
    let mut k: usize = 0;
    while k < n
        invariant
            from <= to <= v@.len(),
            to - from == n,
            n == s@.len(),
            k <= n,
            forall|q: int| 0 <= q < k ==> v@[from + q] == s@[q],
        decreases n - k,
    {
        if v[from + k] != s.get_char(k) {
            assert(v@.subrange(from as int, to as int)[k as int] != s@[k as int]);
            return false;
        }
        k = k + 1;
    }
    assert(v@.subrange(from as int, to as int) =~= s@);
    true
}

pub(crate) fn lookup<'a>(env: &'a Vec<(String, String)>, v: &Vec<char>, from: usize, to: usize) -> (r: Option<&'a String>)
    requires
        from <= to <= v@.len(),
    ensures
        match env_lookup(env_view(env@), v@.subrange(from as int, to as int)) {
            Some(val) => r matches Some(x) && x@ == val,
            None => r is None,
        },
{
    proof { reveal(env_lookup); }
    let ghost name = v@.subrange(from as int, to as int);
    let ghost ev = env_view(env@);
    let ghost p = named(ev, name);
    let mut i: usize = 0;
    while i < env.len()
        invariant
            from <= to <= v@.len(),
            name == v@.subrange(from as int, to as int),
            ev == env_view(env@),
            ev.len() == env@.len(),
            p == named(ev, name),
            i <= env@.len(),
            forall|j: int| 0 <= j < i ==> !#[trigger] p(j),
        decreases env@.len() - i,
    {
        assert(ev[i as int] == (env@[i as int].0@, env@[i as int].1@));
        if segment_eq(v, from, to, env[i].0.as_str()) {
            proof {
                lemma_first_index_is(ev.len() as int, p, i as int);
                assert(env_lookup(ev, name) == Some(ev[i as int].1)) by { reveal(env_lookup); }
            }
            return Some(&env[i].1);
        }
        i = i + 1;
    }
    proof { lemma_first_index_none(ev.len() as int, p); }
    None
}

/// The first `${` at or after `pos`.
fn find_open(v: &Vec<char>, pos: usize) -> (r: Option<usize>)
    requires
        pos <= v@.len(),
    ensures
        match r {
            Some(i) => pos <= i && i + 1 < v@.len() && opens_at(v@, i as int)
                && forall|j: int| pos <= j < i ==> !#[trigger] opens_at(v@, j),
            None => forall|j: int| pos <= j < v@.len() - 1 ==> !#[trigger] opens_at(v@, j),
        },
{
    let n = v.len();
    let mut i = pos;
    while i < n && n - i > 1
        invariant
            pos <= i <= n,
            n == v@.len(),
            forall|j: int| pos <= j < i ==> !#[trigger] opens_at(v@, j),
        decreases n - i,
    {
        if v[i] == '$' && v[i + 1] == '{' {
            return Some(i);
        }
        i = i + 1;
    }
    None
}

/// The first `}` at or after `from`.
fn find_close(v: &Vec<char>, from: usize) -> (r: Option<usize>)
    requires
        from <= v@.len(),
    ensures
        match r {
            Some(j) => from <= j < v@.len() && v@[j as int] == '}' && forall|k: int| from <= k < j ==> v@[k] != '}',
            None => forall|k: int| from <= k < v@.len() ==> v@[k] != '}',
        },
{
    let mut j = from;
    while j < v.len()
        invariant
            from <= j <= v@.len(),
            forall|k: int| from <= k < j ==> v@[k] != '}',
        decreases v@.len() - j,
    {
        if v[j] == '}' {
            return Some(j);
        }
        j = j + 1;
    }
    None
}

/// The suffix `v[pos..]` holds no `${`.
proof fn lemma_no_open_from(v: Seq<char>, pos: int)
    requires
        0 <= pos <= v.len(),
        forall|j: int| pos <= j < v.len() - 1 ==> !#[trigger] opens_at(v, j),
    ensures
        next_open(v.subrange(pos, v.len() as int)) is None,
{
    reveal(next_open);
    let rest = v.subrange(pos, v.len() as int);
    let p = open_pred(rest);
    assert forall|k: int| 0 <= k < rest.len() - 1 implies !#[trigger] p(k) by {
        assert(!opens_at(v, pos + k));
        assert(rest[k] == v[pos + k] && rest[k + 1] == v[pos + k + 1]);
    }
    lemma_first_index_none(rest.len() - 1, p);
}

/// The first `${` of the suffix `v[pos..]` is at `i`.
proof fn lemma_open_from(v: Seq<char>, pos: int, i: int)
    requires
        0 <= pos <= i,
        i + 1 < v.len(),
        opens_at(v, i),
        forall|j: int| pos <= j < i ==> !#[trigger] opens_at(v, j),
    ensures
        next_open(v.subrange(pos, v.len() as int)) == Some(i - pos),
{
    reveal(next_open);
    let rest = v.subrange(pos, v.len() as int);
    let p = open_pred(rest);
    assert forall|k: int| 0 <= k < i - pos implies !#[trigger] p(k) by {
        assert(!opens_at(v, pos + k));
        assert(rest[k] == v[pos + k] && rest[k + 1] == v[pos + k + 1]);
    }
    assert(rest[i - pos] == v[i] && rest[i - pos + 1] == v[i + 1]);
    assert(p(i - pos));
    lemma_first_index_is(rest.len() - 1, p, i - pos);
}

proof fn lemma_close_step(v: Seq<char>, i: int, close: Option<usize>)
    requires
        0 <= i,
        i + 2 <= v.len(),
        match close {
            Some(j) => i + 2 <= j < v.len() && v[j as int] == '}' && forall|k: int| i + 2 <= k < j ==> v[k] != '}',
            None => forall|k: int| i + 2 <= k < v.len() ==> v[k] != '}',
        },
    ensures
        ({
            let after = v.subrange(i + 2, v.len() as int);
            match close {
                None => next_close(after) is None,
                Some(j) => next_close(after) == Some(j - (i + 2)),
            }
        }),
{
    reveal(next_close);
    let after = v.subrange(i + 2, v.len() as int);
    let q = close_pred(after);
    match close {
        None => {
            assert forall|k: int| 0 <= k < after.len() implies !#[trigger] q(k) by {
                assert(v[i + 2 + k] != '}');
            }
            lemma_first_index_none(after.len() as int, q);
        },
        Some(j) => {
            assert forall|k: int| 0 <= k < j - (i + 2) implies !#[trigger] q(k) by {
                assert(v[i + 2 + k] != '}');
            }
            lemma_first_index_is(after.len() as int, q, j - (i + 2));
        },
    }
}

proof fn lemma_prepend_assoc(o: Seq<char>, p: Seq<char>, r: Result<Seq<char>, Option<Seq<char>>>)
    ensures
        prepend(o, prepend(p, r)) == prepend(o + p, r),
{
    match r {
        Ok(t) => {
            assert(o + (p + t) =~= (o + p) + t);
        },
        Err(_) => {},
    }
}

/// `expand` on text whose first reference `${name}` starts at `a` and
/// closes at `a + 2 + b`.
#[verifier::rlimit(60)]
proof fn lemma_expand_at(rest: Seq<char>, a: int, b: int, env: Seq<(Seq<char>, Seq<char>)>)
    requires
        next_open(rest) == Some(a),
        next_close(rest.subrange(a + 2, rest.len() as int)) == Some(b),
        0 <= a,
        a + 2 + b < rest.len(),
        0 <= b,
    ensures
        ({
            let name = rest.subrange(a + 2, a + 2 + b);
            let tail = rest.subrange(a + 3 + b, rest.len() as int);
            &&& !valid_env_name(name) ==> expand(rest, env) == Err::<Seq<char>, Option<Seq<char>>>(None)
            &&& valid_env_name(name) && env_lookup(env, name) is None
                ==> expand(rest, env) == Err::<Seq<char>, Option<Seq<char>>>(Some(name))
            &&& valid_env_name(name) && env_lookup(env, name) is Some
                ==> expand(rest, env) == prepend(rest.subrange(0, a) + env_lookup(env, name)->0, expand(tail, env))
        }),
{
    lemma_expand_unfold(rest, env);
    let after = rest.subrange(a + 2, rest.len() as int);
    assert(after.subrange(0, b) =~= rest.subrange(a + 2, a + 2 + b));
    assert(after.subrange(b + 1, after.len() as int) =~= rest.subrange(a + 3 + b, rest.len() as int));
}

/// Replace every `${VAR}` occurrence in `input` with the variable's value.
/// A reference without a closing brace or with an invalid name is
/// `MalformedEnvRef`; an unset variable is `MissingEnvVar`.
fn malformed(field: &str, input: &str) -> (e: ConfigError)
    ensures
        e.issue() == (Issue::MalformedEnvRef { field: field@, text: input@ }),
{
    ConfigError::MalformedEnvRef { field: to_string(field), text: to_string(input) }
}

fn missing(v: &Vec<char>, from: usize, to: usize, field: &str) -> (e: ConfigError)
    requires
        from <= to <= v@.len(),
    ensures
        e.issue() == (Issue::MissingEnvVar { var: v@.subrange(from as int, to as int), field: field@ }),
{
    ConfigError::MissingEnvVar { var: string_from_chars(v, from, to), field: to_string(field) }
}

enum Step {
    Done,
    Continue(usize),
    Malformed,
    Missing(usize, usize),
}

/// `expand` on text whose first `${` is never closed.
proof fn lemma_expand_unclosed(rest: Seq<char>, a: int, env: Seq<(Seq<char>, Seq<char>)>)
    requires
        next_open(rest) == Some(a),
        next_close(rest.subrange(a + 2, rest.len() as int)) is None,
    ensures
        expand(rest, env) == Err::<Seq<char>, Option<Seq<char>>>(None),
{
    reveal(expand);
}

/// `expand` on the suffix `v[pos..]` whose first reference is `${v[i+2..j]}`.
#[verifier::rlimit(30)]
proof fn lemma_expand_ref(v: Seq<char>, pos: int, i: int, j: int, env: Seq<(Seq<char>, Seq<char>)>)
    requires
        0 <= pos <= i,
        i + 2 <= j < v.len(),
        next_open(v.subrange(pos, v.len() as int)) == Some(i - pos),
        next_close(v.subrange(i + 2, v.len() as int)) == Some(j - (i + 2)),
    ensures
        ({
            let rest = v.subrange(pos, v.len() as int);
            let name = v.subrange(i + 2, j);
            &&& !valid_env_name(name) ==> expand(rest, env) == Err::<Seq<char>, Option<Seq<char>>>(None)
            &&& valid_env_name(name) && env_lookup(env, name) is None
                ==> expand(rest, env) == Err::<Seq<char>, Option<Seq<char>>>(Some(name))
            &&& valid_env_name(name) && env_lookup(env, name) is Some
                ==> expand(rest, env) == prepend(v.subrange(pos, i) + env_lookup(env, name)->0,
                    expand(v.subrange(j + 1, v.len() as int), env))
        }),
{
    let rest = v.subrange(pos, v.len() as int);
    assert(rest.subrange(i - pos + 2, rest.len() as int) =~= v.subrange(i + 2, v.len() as int));
    lemma_expand_at(rest, i - pos, j - (i + 2), env);
    assert(rest.subrange(i - pos + 2, i - pos + 2 + (j - (i + 2))) =~= v.subrange(i + 2, j));
    assert(rest.subrange(i - pos + 3 + (j - (i + 2)), rest.len() as int) =~= v.subrange(j + 1, v.len() as int));
    assert(rest.subrange(0, i - pos) =~= v.subrange(pos, i));
}

/// Process the reference `${v[i+2..j]}` and the text before it.
fn step_name(v: &Vec<char>, pos: usize, i: usize, j: usize, env: &Vec<(String, String)>, out: &mut String) -> (st: Step)
    requires
        pos <= i,
        i + 2 <= j < v@.len(),
        next_open(v@.subrange(pos as int, v@.len() as int)) == Some(i - pos),
        next_close(v@.subrange(i + 2, v@.len() as int)) == Some(j - (i + 2)),
    ensures
        ({
            let ev = env_view(env@);
            let rest = v@.subrange(pos as int, v@.len() as int);
            match st {
                Step::Done => false,
                Step::Continue(np) => pos < np <= v@.len() && prepend(old(out)@, expand(rest, ev))
                    == prepend(final(out)@, expand(v@.subrange(np as int, v@.len() as int), ev)),
                Step::Malformed => expand(rest, ev) == Err::<Seq<char>, Option<Seq<char>>>(None),
                Step::Missing(a, b) => a <= b <= v@.len()
                    && expand(rest, ev) == Err::<Seq<char>, Option<Seq<char>>>(Some(v@.subrange(a as int, b as int))),
            }
        }),
{
    let ghost ev = env_view(env@);
    let n = v.len();
    proof { lemma_expand_ref(v@, pos as int, i as int, j as int, ev); }
    if !is_valid_env_name(v, i + 2, j) {
        return Step::Malformed;
    }
    match lookup(env, v, i + 2, j) {
        None => Step::Missing(i + 2, j),
        Some(value) => {
            let ghost out0 = out@;
            push_chars(out, v, pos, i);
            push_str(out, value.as_str());
            proof {
                lemma_prepend_assoc(out0, v@.subrange(pos as int, i as int) + value@, expand(v@.subrange(j + 1, n as int), ev));
                assert(out@ =~= out0 + (v@.subrange(pos as int, i as int) + value@));
            }
            Step::Continue(j + 1)
        },
    }
}

/// Process the reference whose `${` starts at `i`, and the text before it.
fn step_ref(v: &Vec<char>, pos: usize, i: usize, env: &Vec<(String, String)>, out: &mut String) -> (st: Step)
    requires
        pos <= i,
        i + 1 < v@.len(),
        next_open(v@.subrange(pos as int, v@.len() as int)) == Some(i - pos),
    ensures
        ({
            let ev = env_view(env@);
            let rest = v@.subrange(pos as int, v@.len() as int);
            match st {
                Step::Done => false,
                Step::Continue(np) => pos < np <= v@.len() && prepend(old(out)@, expand(rest, ev))
                    == prepend(final(out)@, expand(v@.subrange(np as int, v@.len() as int), ev)),
                Step::Malformed => expand(rest, ev) == Err::<Seq<char>, Option<Seq<char>>>(None),
                Step::Missing(a, b) => a <= b <= v@.len()
                    && expand(rest, ev) == Err::<Seq<char>, Option<Seq<char>>>(Some(v@.subrange(a as int, b as int))),
            }
        }),
{
    let ghost ev = env_view(env@);
    let n = v.len();
    let ghost rest = v@.subrange(pos as int, n as int);
    let close = find_close(v, i + 2);
    proof { lemma_close_step(v@, i as int, close); }
    match close {
        None => {
            proof {
                assert(rest.subrange(i - pos + 2, rest.len() as int) =~= v@.subrange(i + 2, n as int));
                lemma_expand_unclosed(rest, i - pos, ev);
            }
            Step::Malformed
        },
        Some(j) => step_name(v, pos, i, j, env, out),
    }
}

/// Process the text from `pos` up to and including its next reference.
fn step(v: &Vec<char>, pos: usize, env: &Vec<(String, String)>, out: &mut String) -> (st: Step)
    requires
        pos <= v@.len(),
    ensures
        ({
            let ev = env_view(env@);
            let rest = v@.subrange(pos as int, v@.len() as int);
            match st {
                Step::Done => expand(rest, ev) == Ok::<Seq<char>, Option<Seq<char>>>(rest) && final(out)@ == old(out)@ + rest,
                Step::Continue(np) => pos < np <= v@.len() && prepend(old(out)@, expand(rest, ev))
                    == prepend(final(out)@, expand(v@.subrange(np as int, v@.len() as int), ev)),
                Step::Malformed => expand(rest, ev) == Err::<Seq<char>, Option<Seq<char>>>(None),
                Step::Missing(a, b) => a <= b <= v@.len()
                    && expand(rest, ev) == Err::<Seq<char>, Option<Seq<char>>>(Some(v@.subrange(a as int, b as int))),
            }
        }),
{
    let ghost ev = env_view(env@);
    let n = v.len();
    let open = find_open(v, pos);
    match open {
        None => {
            proof {
                lemma_no_open_from(v@, pos as int);
                lemma_expand_no_open(v@.subrange(pos as int, n as int), ev);
            }
            push_chars(out, v, pos, n);
            Step::Done
        },
        Some(i) => {
            proof { lemma_open_from(v@, pos as int, i as int); }
            step_ref(v, pos, i, env, out)
        },
    }
}

/// Replace every `${VAR}` occurrence in `input` with the variable's value.
/// A reference without a closing brace or with an invalid name is
/// `MalformedEnvRef`; an unset variable is `MissingEnvVar`.
pub fn expand_string(input: &str, field: &str, env: &Vec<(String, String)>) -> (r: Result<String, ConfigError>)
    ensures
        match expand(input@, env_view(env@)) {
            Ok(t) => r matches Ok(o) && o@ == t,
            Err(None) => r matches Err(e) && e.issue() == (Issue::MalformedEnvRef { field: field@, text: input@ }),
            Err(Some(n)) => r matches Err(e) && e.issue() == (Issue::MissingEnvVar { var: n, field: field@ }),
        },
{
    let v = chars_of(input);
    let ghost ev = env_view(env@);
    let n = v.len();
    let mut out = String::new();
    let mut pos: usize = 0;
    proof {
        assert(v@.subrange(0, n as int) =~= v@);
        match expand(input@, ev) {
            Ok(t) => { assert(out@ + t =~= t); },
            Err(_) => {},
        }
    }
    loop
        invariant
            v@ == input@,
            ev == env_view(env@),
            n == v@.len(),
            pos <= n,
            expand(input@, ev) == prepend(out@, expand(v@.subrange(pos as int, n as int), ev)),
        decreases n - pos,
    {
        match step(&v, pos, env, &mut out) {
            Step::Done => return Ok(out),
            Step::Continue(np) => pos = np,
            Step::Malformed => return Err(malformed(field, input)),
            Step::Missing(a, b) => return Err(missing(&v, a, b, field)),
        }
    }
}

// ---------------------------------------------------------------------
// Laws of expansion
// ---------------------------------------------------------------------

/// Text without any `${` is left exactly as it is.
pub proof fn law_plain_text_unchanged(s: Seq<char>, env: Seq<(Seq<char>, Seq<char>)>)
    requires
        forall|i: int| 0 <= i < s.len() - 1 ==> !#[trigger] opens_at(s, i),
    ensures
        expand(s, env) == Ok::<Seq<char>, Option<Seq<char>>>(s),
{
    lemma_no_open_from(s, 0);
    assert(s.subrange(0, s.len() as int) =~= s);
    lemma_expand_no_open(s, env);
}

/// A whole `${NAME}` reference to a set variable expands to the variable's
/// value; to an unset one, it is the error naming the variable.
pub proof fn law_reference_expands_to_value(name: Seq<char>, env: Seq<(Seq<char>, Seq<char>)>)
    requires
        valid_env_name(name),
    ensures
        ({
            let s = "${"@ + name + "}"@;
            match env_lookup(env, name) {
                Some(v) => expand(s, env) == Ok::<Seq<char>, Option<Seq<char>>>(v),
                None => expand(s, env) == Err::<Seq<char>, Option<Seq<char>>>(Some(name)),
            }
        }),
{
    reveal_strlit("${");
    reveal_strlit("}");
    let s = "${"@ + name + "}"@;
    let n = name.len() as int;
    assert(s.len() == n + 3);
    assert(s[0] == '$' && s[1] == '{');
    assert(opens_at(s, 0));
    lemma_open_from(s, 0, 0);
    assert(s.subrange(0, s.len() as int) =~= s);
    assert forall|k: int| 2 <= k < n + 2 implies s[k] != '}' by {
        assert(s[k] == name[k - 2]);
        assert(is_upper(name[k - 2]) || is_digit(name[k - 2]) || name[k - 2] == '_');
    }
    assert(s[n + 2] == '}');
    let after = s.subrange(2, s.len() as int);
    assert(next_close(after) == Some(n)) by {
        reveal(next_close);
        let q = close_pred(after);
        assert forall|k: int| 0 <= k < n implies !#[trigger] q(k) by {
            assert(after[k] == s[k + 2]);
        }
        assert(after[n] == s[n + 2]);
        lemma_first_index_is(after.len() as int, q, n);
    }
    lemma_expand_at(s, 0, n, env);
    assert(s.subrange(2, 2 + n) =~= name);
    assert(s.subrange(3 + n, s.len() as int) =~= Seq::<char>::empty());
    assert(s.subrange(0, 0) =~= Seq::<char>::empty());
    lemma_no_open_from(Seq::<char>::empty(), 0);
    assert(Seq::<char>::empty().subrange(0, 0) =~= Seq::<char>::empty());
    lemma_expand_no_open(Seq::<char>::empty(), env);
    if env_lookup(env, name) is Some {
        let v = env_lookup(env, name)->0;
        assert(Seq::<char>::empty() + v + Seq::<char>::empty() =~= v);
    }
}

// ---------------------------------------------------------------------
// The configuration fields that allow references
// ---------------------------------------------------------------------

/// The error for a failed expansion of `text` in `field`.
pub open spec fn err_issue(e: Option<Seq<char>>, field: Seq<char>, text: Seq<char>) -> Issue {
    match e {
        None => Issue::MalformedEnvRef { field: field, text: text },
        Some(var) => Issue::MissingEnvVar { var: var, field: field },
    }
}

/// The error expanding `text` in `field` gives, if any.
pub open spec fn text_issue(t: Seq<char>, field: Seq<char>, env: Seq<(Seq<char>, Seq<char>)>) -> Option<Issue> {
    match expand(t, env) {
        Ok(_) => None,
        Err(e) => Some(err_issue(e, field, t)),
    }
}

pub open spec fn opt_text_issue(o: Option<Seq<char>>, field: Seq<char>, env: Seq<(Seq<char>, Seq<char>)>) -> Option<Issue> {
    match o {
        None => None,
        Some(t) => text_issue(t, field, env),
    }
}

/// The expansion of `t`, where it succeeds.
pub open spec fn expanded_text(t: Seq<char>, env: Seq<(Seq<char>, Seq<char>)>) -> Seq<char> {
    match expand(t, env) {
        Ok(x) => x,
        Err(_) => t,
    }
}

pub open spec fn opt_expanded(o: Option<Seq<char>>, env: Seq<(Seq<char>, Seq<char>)>) -> Option<Seq<char>> {
    match o {
        None => None,
        Some(t) => Some(expanded_text(t, env)),
    }
}

/// `server.api_keys[i]`
pub open spec fn key_field(i: int) -> Seq<char> {
    "server.api_keys["@ + decimal(i as nat) + "]"@
}

/// `models[i].<name>`
pub open spec fn model_field(i: int, name: Seq<char>) -> Seq<char> {
    "models["@ + decimal(i as nat) + "]."@ + name
}

pub open spec fn key_bad(keys: Seq<Seq<char>>, env: Seq<(Seq<char>, Seq<char>)>) -> spec_fn(int) -> bool {
    |i: int| expand(keys[i], env) is Err
}

/// The first failing reference of model `i`: its `api_key`, then its
/// `base_url`.
pub open spec fn model_env_issue(m: ModelConfig, i: int, env: Seq<(Seq<char>, Seq<char>)>) -> Option<Issue> {
    match opt_text_issue(opt_view(m.api_key), model_field(i, "api_key"@), env) {
        Some(x) => Some(x),
        None => opt_text_issue(opt_view(m.base_url), model_field(i, "base_url"@), env),
    }
}

pub open spec fn model_env_bad(ms: Seq<ModelConfig>, env: Seq<(Seq<char>, Seq<char>)>) -> spec_fn(int) -> bool {
    |i: int| model_env_issue(ms[i], i, env) is Some
}

/// The error interpolation meets first: the API keys in order, then each
/// model's `api_key` and `base_url` in order.
pub open spec fn interpolation_issue(c: FlarionConfig, env: Seq<(Seq<char>, Seq<char>)>) -> Option<Issue> {
    let keys = strings_view(c.server.api_keys@);
    let ms = c.models@;
    match first_index(keys.len() as int, key_bad(keys, env)) {
        Some(i) => text_issue(keys[i], key_field(i), env),
        None => match first_index(ms.len() as int, model_env_bad(ms, env)) {
            Some(i) => model_env_issue(ms[i], i, env),
            None => None,
        },
    }
}

/// `f` is `o` with every reference-bearing field expanded.
pub open spec fn interpolated(o: FlarionConfig, f: FlarionConfig, env: Seq<(Seq<char>, Seq<char>)>) -> bool {
    &&& f == (FlarionConfig {
        server: ServerConfig { api_keys: f.server.api_keys, ..o.server },
        models: f.models,
        ..o
    })
    &&& f.server.api_keys@.len() == o.server.api_keys@.len()
    &&& forall|k: int| 0 <= k < o.server.api_keys@.len()
        ==> (#[trigger] f.server.api_keys@[k])@ == expanded_text(o.server.api_keys@[k]@, env)
    &&& f.models@.len() == o.models@.len()
    &&& forall|k: int| 0 <= k < o.models@.len() ==> {
        let (fm, om) = (#[trigger] f.models@[k], o.models@[k]);
        &&& fm == (ModelConfig { api_key: fm.api_key, base_url: fm.base_url, ..om })
        &&& opt_view(fm.api_key) == opt_expanded(opt_view(om.api_key), env)
        &&& opt_view(fm.base_url) == opt_expanded(opt_view(om.base_url), env)
    }
}

fn key_field_string(i: usize) -> (s: String)
    ensures
        s@ == key_field(i as int),
{
    let mut s = String::new();
    push_str(&mut s, "server.api_keys[");
    push_decimal(&mut s, i as u64);
    push_str(&mut s, "]");
    s
}

fn model_field_string(i: usize, name: &str) -> (s: String)
    ensures
        s@ == model_field(i as int, name@),
{
    let mut s = String::new();
    push_str(&mut s, "models[");
    push_decimal(&mut s, i as u64);
    push_str(&mut s, "].");
    push_str(&mut s, name);
    assert(s@ =~= model_field(i as int, name@));
    s
}

/// Expand every API key; the first failure is the error.
fn expand_keys(keys: &Vec<String>, env: &Vec<(String, String)>) -> (r: Result<Vec<String>, ConfigError>)
    ensures
        ({
            let ks = strings_view(keys@);
            let ev = env_view(env@);
            match first_index(ks.len() as int, key_bad(ks, ev)) {
                Some(i) => r matches Err(e) && Some(e.issue()) == text_issue(ks[i], key_field(i), ev),
                None => r matches Ok(v) && v@.len() == keys@.len()
                    && forall|k: int| 0 <= k < v@.len() ==> (#[trigger] v@[k])@ == expanded_text(ks[k], ev),
            }
        }),
{
    let ghost ks = strings_view(keys@);
    let ghost ev = env_view(env@);
    let ghost p = key_bad(ks, ev);
    let mut out: Vec<String> = Vec::new();
    let mut i: usize = 0;
    while i < keys.len()
        invariant
            ks == strings_view(keys@),
            ev == env_view(env@),
            p == key_bad(ks, ev),
            i <= keys@.len(),
            out@.len() == i,
            forall|k: int| 0 <= k < i ==> !#[trigger] p(k),
            forall|k: int| 0 <= k < i ==> (#[trigger] out@[k])@ == expanded_text(ks[k], ev),
        decreases keys@.len() - i,
    {
        let field = key_field_string(i);
        assert(ks[i as int] == keys@[i as int]@);
        match expand_string(keys[i].as_str(), field.as_str(), env) {
            Ok(x) => {
                out.push(x);
            },
            Err(e) => {
                proof { lemma_first_index_is(ks.len() as int, p, i as int); }
                return Err(e);
            },
        }
        i = i + 1;
    }
    proof { lemma_first_index_none(ks.len() as int, p); }
    Ok(out)
}

fn expand_opt(o: &Option<String>, field: &str, env: &Vec<(String, String)>) -> (r: Result<Option<String>, ConfigError>)
    ensures
        match opt_text_issue(opt_view(*o), field@, env_view(env@)) {
            Some(iss) => r matches Err(e) && e.issue() == iss,
            None => r matches Ok(x) && opt_view(x) == opt_expanded(opt_view(*o), env_view(env@)),
        },
{
    match o {
        None => Ok(None),
        Some(t) => match expand_string(t.as_str(), field, env) {
            Ok(x) => Ok(Some(x)),
            Err(e) => Err(e),
        },
    }
}

/// Expand the `api_key` and `base_url` of every model; the first failure
/// is the error.
fn expand_models(ms: &Vec<ModelConfig>, env: &Vec<(String, String)>)
    -> (r: Result<(Vec<Option<String>>, Vec<Option<String>>), ConfigError>)
    ensures
        ({
            let ev = env_view(env@);
            match first_index(ms@.len() as int, model_env_bad(ms@, ev)) {
                Some(i) => r matches Err(e) && Some(e.issue()) == model_env_issue(ms@[i], i, ev),
                None => r matches Ok((a, b)) && a@.len() == ms@.len() && b@.len() == ms@.len()
                    && (forall|k: int| 0 <= k < a@.len()
                        ==> opt_view(#[trigger] a@[k]) == opt_expanded(opt_view(ms@[k].api_key), ev))
                    && (forall|k: int| 0 <= k < b@.len()
                        ==> opt_view(#[trigger] b@[k]) == opt_expanded(opt_view(ms@[k].base_url), ev)),
            }
        }),
{
    let ghost ev = env_view(env@);
    let ghost p = model_env_bad(ms@, ev);
    let mut keys: Vec<Option<String>> = Vec::new();
    let mut urls: Vec<Option<String>> = Vec::new();
    let mut i: usize = 0;
    while i < ms.len()
        invariant
            ev == env_view(env@),
            p == model_env_bad(ms@, ev),
            i <= ms@.len(),
            keys@.len() == i,
            urls@.len() == i,
            forall|k: int| 0 <= k < i ==> !#[trigger] p(k),
            forall|k: int| 0 <= k < i ==> opt_view(#[trigger] keys@[k]) == opt_expanded(opt_view(ms@[k].api_key), ev),
            forall|k: int| 0 <= k < i ==> opt_view(#[trigger] urls@[k]) == opt_expanded(opt_view(ms@[k].base_url), ev),
        decreases ms@.len() - i,
    {
        let kf = model_field_string(i, "api_key");
        let k = match expand_opt(&ms[i].api_key, kf.as_str(), env) {
            Ok(x) => x,
            Err(e) => {
                proof { lemma_first_index_is(ms@.len() as int, p, i as int); }
                return Err(e);
            },
        };
        let uf = model_field_string(i, "base_url");
        let u = match expand_opt(&ms[i].base_url, uf.as_str(), env) {
            Ok(x) => x,
            Err(e) => {
                proof { lemma_first_index_is(ms@.len() as int, p, i as int); }
                return Err(e);
            },
        };
        keys.push(k);
        urls.push(u);
        i = i + 1;
    }
    proof { lemma_first_index_none(ms@.len() as int, p); }
    Ok((keys, urls))
}

/// Replace `${VAR_NAME}` substrings with the values the environment `env`
/// gives, in the fields that allow secrets and endpoints:
/// `server.api_keys[*]`, `models[*].api_key` and `models[*].base_url`.
/// The first failing reference, in that order, is the error, and the
/// configuration is then left as it was.
pub fn interpolate_env(config: &mut FlarionConfig, env: &Vec<(String, String)>) -> (r: Result<(), ConfigError>)
    ensures
        match interpolation_issue(*old(config), env_view(env@)) {
            Some(iss) => r matches Err(e) && e.issue() == iss && *final(config) == *old(config),
            None => r is Ok && interpolated(*old(config), *final(config), env_view(env@)),
        },
{
    let ghost ev = env_view(env@);
    let ghost o = *config;
    let keys = match expand_keys(&config.server.api_keys, env) {
        Ok(k) => k,
        Err(e) => return Err(e),
    };
    let (mut api_keys, mut base_urls) = match expand_models(&config.models, env) {
        Ok(p) => p,
        Err(e) => return Err(e),
    };
    proof {
        assert forall|k: int| 0 <= k < keys@.len() implies
            (#[trigger] keys@[k])@ == expanded_text(o.server.api_keys@[k]@, ev) by {
            assert(strings_view(o.server.api_keys@)[k] == o.server.api_keys@[k]@);
        }
    }
    config.server.api_keys = keys;
    let n = config.models.len();
    let mut i: usize = 0;
    while i < n
        invariant
            n == o.models@.len(),
            n == config.models@.len(),
            api_keys@.len() == n,
            base_urls@.len() == n,
            i <= n,
            config.server.api_keys@.len() == o.server.api_keys@.len(),
            forall|k: int| 0 <= k < o.server.api_keys@.len()
                ==> (#[trigger] config.server.api_keys@[k])@ == expanded_text(o.server.api_keys@[k]@, ev),
            *config == (FlarionConfig {
                server: ServerConfig { api_keys: config.server.api_keys, ..o.server },
                models: config.models,
                ..o
            }),
            forall|k: int| 0 <= k < n ==> opt_view(#[trigger] api_keys@[k]) == opt_expanded(opt_view(o.models@[k].api_key), ev),
            forall|k: int| 0 <= k < n ==> opt_view(#[trigger] base_urls@[k]) == opt_expanded(opt_view(o.models@[k].base_url), ev),
            forall|k: int| i <= k < n ==> #[trigger] config.models@[k] == o.models@[k],
            forall|k: int| 0 <= k < i ==> {
                let (fm, om) = (#[trigger] config.models@[k], o.models@[k]);
                &&& fm == (ModelConfig { api_key: fm.api_key, base_url: fm.base_url, ..om })
                &&& opt_view(fm.api_key) == opt_expanded(opt_view(om.api_key), ev)
                &&& opt_view(fm.base_url) == opt_expanded(opt_view(om.base_url), ev)
            },
        decreases n - i,
    {
        config.models[i].api_key = copy_opt_string(&api_keys[i]);
        config.models[i].base_url = copy_opt_string(&base_urls[i]);
        i = i + 1;
    }
    Ok(())
}

} // verus!
