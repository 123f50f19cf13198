//! The client's endpoints: the named entries of the client configuration
//! file, how an entry's API key is obtained, and the precedence by which
//! the CLI picks the server it talks to.
//!
//! The process environment is read by the caller and passed in as a list
//! of (name, value) pairs. Running an entry's key command is the caller's
//! work too: where one is needed, resolution asks for it and is called
//! again with the command's outcome.

use vstd::prelude::*;
use crate::env_interp::{env_lookup, env_view, lookup};
use crate::text::{
    chars_of, copy_string, has_prefix, has_suffix, lemma_text_le_refl, opt_view, push_str, str_eq, string_from_chars,
    text_le, to_string, trim, trimmed,
};
use crate::keyed::{
    entry_named, entry_of, insertion_point, lemma_entry_of_insert, lemma_entry_of_remove, lemma_entry_of_set,
    lemma_set_keeps_sorted, lemma_sorted_unique, names_sorted, position,
};
use crate::validate::{first_index, lemma_first_index_some};

verus! {

#[derive(Debug)]
pub struct Endpoint {
    pub name: String,
    pub url: String,
    pub api_key: Option<String>,
}

pub struct EndpointEntry {
    pub url: String,
    pub api_key: Option<String>,
    /// A shell command whose standard output is the key.
    pub api_key_cmd: Option<String>,
}

/// The client configuration file: a default endpoint name and the named
/// entries, each name at most once.
pub struct EndpointFile {
    pub default: Option<String>,
    pub endpoints: Vec<(String, EndpointEntry)>,
}

#[derive(Debug)]
pub enum EndpointError {
    /// A `${VAR}` key names a variable that is not set.
    EnvVarNotSet { var: String },
    /// The key command could not be run or failed.
    KeyCommandFailed { message: String },
}

impl EndpointError {
    pub open spec fn spec_message(self) -> Seq<char> {
        match self {
            EndpointError::EnvVarNotSet { var } => "env var "@ + var@ + " not set"@,
            EndpointError::KeyCommandFailed { message } => message@,
        }
    }

    pub fn message(&self) -> (r: String)
        ensures
            r@ == self.spec_message(),
    {
        match self {
            EndpointError::EnvVarNotSet { var } => {
                let mut r = to_string("env var ");
                push_str(&mut r, var.as_str());
                push_str(&mut r, " not set");
                r
            },
            EndpointError::KeyCommandFailed { message } => copy_string(message),
        }
    }
}

// ---------------------------------------------------------------------
// Key interpolation
// ---------------------------------------------------------------------

/// A key of the form `${VAR}` is the variable's value; any other key is
/// taken as it is.
pub open spec fn key_reference(s: Seq<char>) -> Option<Seq<char>> {
    if has_prefix(s, "${"@) && has_suffix(s, "}"@) {
        Some(s.subrange(2, s.len() - 1))
    } else {
        None
    }
}

pub open spec fn interpolated_key(s: Seq<char>, env: Seq<(Seq<char>, Seq<char>)>) -> Result<Seq<char>, Seq<char>> {
    match key_reference(s) {
        None => Ok(s),
        Some(var) => match env_lookup(env, var) {
            Some(v) => Ok(v),
            None => Err(var),
        },
    }
}

/// Resolve a key that may be a whole `${VAR}` reference. Only a reference
/// to an unset variable is an error.
pub fn interpolate_env(s: &str, env: &Vec<(String, String)>) -> (r: Result<String, EndpointError>)
    ensures
        match interpolated_key(s@, env_view(env@)) {
            Ok(v) => r matches Ok(x) && x@ == v,
            Err(var) => r matches Err(EndpointError::EnvVarNotSet { var: x }) && x@ == var,
        },
{
    let v = chars_of(s);
    let n = v.len();
    let opens = n >= 2 && v[0] == '$' && v[1] == '{';
    let closes = n >= 1 && v[n - 1] == '}';
    proof {
        reveal_strlit("${");
        reveal_strlit("}");
        if opens {
            assert(v@.subrange(0, 2) =~= "${"@);
        } else if n >= 2 {
            assert(v@.subrange(0, 2)[0] != "${"@[0] || v@.subrange(0, 2)[1] != "${"@[1]);
        }
        if closes {
            assert(v@.subrange(n - 1, n as int) =~= "}"@);
        } else if n >= 1 {
            assert(v@.subrange(n - 1, n as int)[0] != "}"@[0]);
        }
        assert(opens == has_prefix(s@, "${"@));
        assert(closes == has_suffix(s@, "}"@));
    }
    if opens && closes {
        match lookup(env, &v, 2, n - 1) {
            Some(value) => Ok(copy_string(value)),
            None => Err(EndpointError::EnvVarNotSet { var: string_from_chars(&v, 2, n - 1) }),
        }
    } else {
        Ok(to_string(s))
    }
}

// ---------------------------------------------------------------------
// Key commands
// ---------------------------------------------------------------------

/// What became of running a key command.
pub enum KeyCommandResult {
    /// It ran; its exit status, and its output decoded as UTF-8 (lossily).
    Ran { success: bool, stdout: String, stderr: String },
    /// It could not be started; the reason.
    SpawnFailed(String),
}

/// The key a command's outcome gives: its trimmed output when it
/// succeeded, else an error quoting what it wrote to standard error.
pub open spec fn command_key(o: KeyCommandResult) -> Result<Seq<char>, Seq<char>> {
    match o {
        KeyCommandResult::Ran { success, stdout, stderr } => if success {
            Ok(trim(stdout@))
        } else {
            Err("api_key_cmd failed: "@ + stderr@)
        },
        KeyCommandResult::SpawnFailed(reason) => Err(reason@),
    }
}

pub fn key_from_command(o: &KeyCommandResult) -> (r: Result<String, EndpointError>)
    ensures
        match command_key(*o) {
            Ok(k) => r matches Ok(x) && x@ == k,
            Err(m) => r matches Err(EndpointError::KeyCommandFailed { message }) && message@ == m,
        },
{
    match o {
        KeyCommandResult::Ran { success, stdout, stderr } => {
            if *success {
                Ok(trimmed(stdout.as_str()))
            } else {
                let mut m = to_string("api_key_cmd failed: ");
                push_str(&mut m, stderr.as_str());
                Err(EndpointError::KeyCommandFailed { message: m })
            }
        },
        KeyCommandResult::SpawnFailed(reason) => Err(EndpointError::KeyCommandFailed { message: copy_string(reason) }),
    }
}

// ---------------------------------------------------------------------
// Entries
// ---------------------------------------------------------------------

/// A step of resolving an entry: finished, or waiting for the outcome of
/// the entry's key command.
pub enum EntryStep {
    Done(Result<Endpoint, EndpointError>),
    RunKeyCommand(String),
}

/// `ep` is the endpoint `name` at `url` with the key `key`.
pub open spec fn endpoint_is(ep: Endpoint, name: Seq<char>, url: Seq<char>, key: Option<Seq<char>>) -> bool {
    ep.name@ == name && ep.url@ == url && opt_view(ep.api_key) == key
}

/// How an entry resolves: a literal key (after `${VAR}` interpolation)
/// wins over a key command, which wins over no key at all. A key command
/// whose outcome is not known yet is asked for.
pub open spec fn entry_step_is(
    st: EntryStep,
    e: EndpointEntry,
    name: Seq<char>,
    env: Seq<(Seq<char>, Seq<char>)>,
    cmd: Option<KeyCommandResult>,
) -> bool {
    match e.api_key {
        Some(lit) => match interpolated_key(lit@, env) {
            Ok(k) => st matches EntryStep::Done(Ok(ep)) && endpoint_is(ep, name, e.url@, Some(k)),
            Err(var) => st matches EntryStep::Done(Err(EndpointError::EnvVarNotSet { var: x })) && x@ == var,
        },
        None => match e.api_key_cmd {
            Some(c) => match cmd {
                None => st matches EntryStep::RunKeyCommand(x) && x@ == c@,
                Some(o) => match command_key(o) {
                    Ok(k) => st matches EntryStep::Done(Ok(ep)) && endpoint_is(ep, name, e.url@, Some(k)),
                    Err(m) => st matches EntryStep::Done(Err(EndpointError::KeyCommandFailed { message })) && message@ == m,
                },
            },
            None => st matches EntryStep::Done(Ok(ep)) && endpoint_is(ep, name, e.url@, None),
        },
    }
}

impl EndpointEntry {
    /// Resolve the entry into the endpoint `name`; `cmd` is the outcome of
    /// the key command, once it has run.
    pub fn resolve(&self, name: &str, env: &Vec<(String, String)>, cmd: Option<KeyCommandResult>) -> (st: EntryStep)
        ensures
            entry_step_is(st, *self, name@, env_view(env@), cmd),
    {
        let api_key = match &self.api_key {
            Some(lit) => match interpolate_env(lit.as_str(), env) {
                Ok(k) => Some(k),
                Err(e) => return EntryStep::Done(Err(e)),
            },
            None => match &self.api_key_cmd {
                Some(c) => match &cmd {
                    None => return EntryStep::RunKeyCommand(copy_string(c)),
                    Some(o) => match key_from_command(o) {
                        Ok(k) => Some(k),
                        Err(e) => return EntryStep::Done(Err(e)),
                    },
                },
                None => None,
            },
        };
        EntryStep::Done(Ok(Endpoint { name: to_string(name), url: copy_string(&self.url), api_key }))
    }
}

// ---------------------------------------------------------------------
// The file's entries
// ---------------------------------------------------------------------

impl EndpointFile {
    /// The entries ascend by name, each name once, as the keys of the
    /// ordered map the file is read into.
    pub open spec fn wf(self) -> bool {
        names_sorted(self.endpoints@)
    }

    /// The entry called `name`, if any.
    pub open spec fn lookup(self, name: Seq<char>) -> Option<EndpointEntry> {
        entry_of(self.endpoints@, name)
    }

    pub fn new() -> (f: Self)
        ensures
            f.wf(),
            f.default is None,
            f.endpoints@.len() == 0,
    {
        EndpointFile { default: None, endpoints: Vec::new() }
    }

    /// The entry called `name`.
    pub fn get(&self, name: &str) -> (r: Option<&EndpointEntry>)
        ensures
            match r {
                Some(x) => self.lookup(name@) == Some(*x),
                None => self.lookup(name@) is None,
            },
    {
        proof {
            if first_index(self.endpoints@.len() as int, entry_named(self.endpoints@, name@)) is Some {
                lemma_first_index_some(self.endpoints@.len() as int, entry_named(self.endpoints@, name@));
            }
        }
        match position(&self.endpoints, name) {
            Some(i) => Some(&self.endpoints[i].1),
            None => None,
        }
    }

    /// Whether an entry is called `name`.
    pub fn contains(&self, name: &str) -> (r: bool)
        ensures
            r == (self.lookup(name@) is Some),
    {
        self.get(name).is_some()
    }

    /// Add the entry `name`, replacing an entry of that name.
    pub fn insert(&mut self, name: String, entry: EndpointEntry)
        requires
            old(self).wf(),
        ensures
            final(self).wf(),
            final(self).default == old(self).default,
            final(self).lookup(name@) == Some(entry),
            forall|n: Seq<char>| n != name@ ==> final(self).lookup(n) == old(self).lookup(n),
    {
        let ghost old_es = self.endpoints@;
        let ghost nm = name@;
        proof {
            lemma_sorted_unique(old_es);
            if first_index(old_es.len() as int, entry_named(old_es, nm)) is Some {
                lemma_first_index_some(old_es.len() as int, entry_named(old_es, nm));
            }
        }
        match position(&self.endpoints, name.as_str()) {
            Some(i) => {
                let ghost nv = name;
                self.endpoints.set(i, (name, entry));
                proof {
                    lemma_set_keeps_sorted(old_es, i as int, nv, entry);
                    lemma_entry_of_set(old_es, self.endpoints@, i as int, nm, entry);
                }
            },
            None => {
                let p = insertion_point(&self.endpoints, name.as_str());
                let ghost nv = name;
                self.endpoints.insert(p, (name, entry));
                proof { lemma_entry_of_insert(old_es, p as int, nv, entry); }
            },
        }
    }

    /// Remove the entry `name`, giving it back.
    pub fn remove(&mut self, name: &str) -> (r: Option<EndpointEntry>)
        requires
            old(self).wf(),
        ensures
            final(self).wf(),
            final(self).default == old(self).default,
            r == old(self).lookup(name@),
            final(self).lookup(name@) is None,
            forall|n: Seq<char>| n != name@ ==> final(self).lookup(n) == old(self).lookup(n),
    {
        let ghost old_es = self.endpoints@;
        proof {
            if first_index(old_es.len() as int, entry_named(old_es, name@)) is Some {
                lemma_first_index_some(old_es.len() as int, entry_named(old_es, name@));
            }
        }
        match position(&self.endpoints, name) {
            Some(i) => {
                let (_, e) = self.endpoints.remove(i);
                proof { lemma_entry_of_remove(old_es, i as int); }
                Some(e)
            },
            None => None,
        }
    }

    /// The first name in order, if there are entries.
    pub fn first_name(&self) -> (r: Option<String>)
        requires
            self.wf(),
        ensures
            match r {
                Some(n) => self.endpoints@.len() > 0 && n@ == self.endpoints@[0].0@
                    && forall|k: int| 0 <= k < self.endpoints@.len() ==> text_le(n@, (#[trigger] self.endpoints@[k]).0@),
                None => self.endpoints@.len() == 0,
            },
    {
        if self.endpoints.len() == 0 {
            None
        } else {
            proof {
                lemma_text_le_refl(self.endpoints@[0].0@);
            }
            Some(copy_string(&self.endpoints[0].0))
        }
    }

    /// How many entries the file holds.
    pub fn len(&self) -> (r: usize)
        ensures
            r == self.endpoints@.len(),
    {
        self.endpoints.len()
    }
}

// ---------------------------------------------------------------------
// Managing the file
// ---------------------------------------------------------------------

/// The key an added entry keeps: the literal key, else a `${VAR}`
/// reference to the named variable, else none.
pub open spec fn added_key(api_key: Option<Seq<char>>, api_key_env: Option<Seq<char>>) -> Option<Seq<char>> {
    match api_key {
        Some(k) => Some(k),
        None => match api_key_env {
            Some(v) => Some("${"@ + v + "}"@),
            None => None,
        },
    }
}

/// Add (or replace) the entry `name`; the first entry added becomes the
/// default.
pub fn add_endpoint(
    file: &mut EndpointFile,
    name: String,
    url: String,
    api_key: Option<String>,
    api_key_env: Option<String>,
    api_key_cmd: Option<String>,
)
    requires
        old(file).wf(),
    ensures
        final(file).wf(),
        final(file).lookup(name@) matches Some(e) && e.url@ == url@
            && opt_view(e.api_key) == added_key(opt_view(api_key), opt_view(api_key_env))
            && opt_view(e.api_key_cmd) == opt_view(api_key_cmd),
        forall|n: Seq<char>| n != name@ ==> final(file).lookup(n) == old(file).lookup(n),
        opt_view(final(file).default) == (match old(file).default {
            Some(d) => Some(d@),
            None => Some(name@),
        }),
{
    let key = match api_key {
        Some(k) => Some(k),
        None => match api_key_env {
            Some(var) => {
                let mut k = to_string("${");
                push_str(&mut k, var.as_str());
                push_str(&mut k, "}");
                Some(k)
            },
            None => None,
        },
    };
    let default_name = copy_string(&name);
    file.insert(name, EndpointEntry { url, api_key: key, api_key_cmd });
    if file.default.is_none() {
        file.default = Some(default_name);
    }
}

/// Remove the entry `name`; when it was the default, the first remaining
/// name (in order) becomes the default, or none is left.
pub fn remove_endpoint(file: &mut EndpointFile, name: &str)
    requires
        old(file).wf(),
    ensures
        final(file).wf(),
        final(file).lookup(name@) is None,
        forall|n: Seq<char>| n != name@ ==> final(file).lookup(n) == old(file).lookup(n),
        opt_view(old(file).default) == Some(name@) ==> (match final(file).default {
            Some(d) => final(file).endpoints@.len() > 0 && d@ == final(file).endpoints@[0].0@,
            None => final(file).endpoints@.len() == 0,
        }),
        opt_view(old(file).default) != Some(name@) ==> final(file).default == old(file).default,
{
    file.remove(name);
    let was_default = match &file.default {
        Some(d) => str_eq(d.as_str(), name),
        None => false,
    };
    if was_default {
        file.default = file.first_name();
    }
}

/// The entry the login wizard saves from its two answers (each trimmed):
/// a blank URL is the local default, a blank key is no key.
pub fn login_entry(url_answer: &str, key_answer: &str) -> (e: EndpointEntry)
    ensures
        e.url@ == (if trim(url_answer@).len() == 0 { "http://127.0.0.1:8080"@ } else { trim(url_answer@) }),
        opt_view(e.api_key) == (if trim(key_answer@).len() == 0 { None } else { Some(trim(key_answer@)) }),
        e.api_key_cmd is None,
{
    let u = trimmed(url_answer);
    let k = trimmed(key_answer);
    let url = if u.unicode_len() == 0 { to_string("http://127.0.0.1:8080") } else { u };
    let api_key = if k.unicode_len() == 0 { None } else { Some(k) };
    EndpointEntry { url, api_key, api_key_cmd: None }
}

/// Make `name` the default; it must name an entry.
pub fn use_endpoint(file: &mut EndpointFile, name: String) -> (r: Result<(), String>)
    ensures
        match old(file).lookup(name@) {
            Some(_) => r is Ok && final(file).endpoints == old(file).endpoints
                && opt_view(final(file).default) == Some(name@),
            None => r matches Err(m) && m@ == "no such endpoint: "@ + name@ && *final(file) == *old(file),
        },
{
    if !file.contains(name.as_str()) {
        let mut m = to_string("no such endpoint: ");
        push_str(&mut m, name.as_str());
        return Err(m);
    }
    file.default = Some(name);
    Ok(())
}

/// The entry an endpoint test checks: the one named, else the default.
pub open spec fn test_choice(file: EndpointFile, name: Option<Seq<char>>) -> Result<(Seq<char>, EndpointEntry), Seq<char>> {
    let chosen = match name {
        Some(n) => Some(n),
        None => opt_view(file.default),
    };
    match chosen {
        None => Err("no endpoint specified and no default set"@),
        Some(n) => match file.lookup(n) {
            Some(e) => Ok((n, e)),
            None => Err("no such endpoint: "@ + n),
        },
    }
}

pub fn test_target<'a>(file: &'a EndpointFile, name: Option<&str>) -> (r: Result<(String, &'a EndpointEntry), String>)
    ensures
        match test_choice(*file, match name { Some(n) => Some(n@), None => None }) {
            Ok((n, e)) => r matches Ok((x, y)) && x@ == n && *y == e,
            Err(m) => r matches Err(x) && x@ == m,
        },
{
    let chosen = match name {
        Some(n) => to_string(n),
        None => match &file.default {
            Some(d) => copy_string(d),
            None => return Err(to_string("no endpoint specified and no default set")),
        },
    };
    match file.get(chosen.as_str()) {
        Some(e) => Ok((chosen, e)),
        None => {
            let mut m = to_string("no such endpoint: ");
            push_str(&mut m, chosen.as_str());
            Err(m)
        },
    }
}

/// The line an endpoint listing shows for one entry: a `*` marks the
/// default.
pub open spec fn list_line(name: Seq<char>, url: Seq<char>, is_default: bool) -> Seq<char> {
    "  "@ + (if is_default { "*"@ } else { " "@ }) + " "@ + crate::admin::pad_right(name, 12) + "  "@ + url
}

/// What an empty listing says.
pub open spec fn empty_listing() -> Seq<char> {
    "  (none \u{2014} run 'flarion login <name>' or 'flarion endpoints add <name> --url <url>')"@
}

/// The listing's lines after its heading, in name order.
pub fn list_lines(file: &EndpointFile) -> (r: Vec<String>)
    ensures
        file.endpoints@.len() == 0 ==> r@.len() == 1 && r@[0]@ == empty_listing(),
        file.endpoints@.len() > 0 ==> r@.len() == file.endpoints@.len() && forall|i: int|
            0 <= i < r@.len() ==> (#[trigger] r@[i])@ == list_line(
                file.endpoints@[i].0@,
                file.endpoints@[i].1.url@,
                opt_view(file.default) == Some(file.endpoints@[i].0@),
            ),
{
    let mut r: Vec<String> = Vec::new();
    if file.endpoints.len() == 0 {
        r.push(to_string("  (none \u{2014} run 'flarion login <name>' or 'flarion endpoints add <name> --url <url>')"));
        return r;
    }
    let mut i: usize = 0;
    while i < file.endpoints.len()
        invariant
            i <= file.endpoints@.len(),
            r@.len() == i,
            forall|k: int| 0 <= k < i ==> (#[trigger] r@[k])@ == list_line(
                file.endpoints@[k].0@,
                file.endpoints@[k].1.url@,
                opt_view(file.default) == Some(file.endpoints@[k].0@),
            ),
        decreases file.endpoints@.len() - i,
    {
        let (name, entry) = (&file.endpoints[i].0, &file.endpoints[i].1);
        let is_default = match &file.default {
            Some(d) => str_eq(d.as_str(), name.as_str()),
            None => false,
        };
        let mut line = to_string("  ");
        push_str(&mut line, if is_default { "*" } else { " " });
        push_str(&mut line, " ");
        crate::admin::push_padded_right(&mut line, name.as_str(), 12);
        push_str(&mut line, "  ");
        push_str(&mut line, entry.url.as_str());
        assert(line@ =~= list_line(name@, entry.url@, opt_view(file.default) == Some(name@)));
        r.push(line);
        i = i + 1;
    }
    r
}

/// What a successful endpoint test prints.
pub fn test_ok_line(name: &str, version: &str, millis: u64) -> (r: String)
    ensures
        r@ == name@ + "  OK  v"@ + version@ + " ("@ + crate::text::decimal(millis as nat) + " ms)"@,
{
    let mut r = to_string(name);
    push_str(&mut r, "  OK  v");
    push_str(&mut r, version);
    push_str(&mut r, " (");
    crate::text::push_decimal(&mut r, millis);
    push_str(&mut r, " ms)");
    r
}

/// What a failed endpoint test prints (to standard error, exiting with 3).
pub fn test_fail_line(name: &str, error: &str) -> (r: String)
    ensures
        r@ == name@ + "  FAIL  "@ + error@,
{
    let mut r = to_string(name);
    push_str(&mut r, "  FAIL  ");
    push_str(&mut r, error);
    r
}

// ---------------------------------------------------------------------
// Talking to the server
// ---------------------------------------------------------------------

/// The URL of an admin path on the endpoint: the endpoint's URL without
/// trailing slashes, then the path.
pub fn admin_url(ep: &Endpoint, path: &str) -> (r: String)
    ensures
        r@ == crate::cloud::trim_slashes(ep.url@) + path@,
{
    crate::cloud::join_endpoint(ep.url.as_str(), path)
}

/// What a server answer with `status` means to the client: nothing for a
/// success (its body is then decoded), else the error: 401 unauthorized,
/// 404 the path not found, 409 a conflict with the body as reason, and any
/// other status a server error carrying the body.
pub fn classify_answer(status: u16, path: &str, body: String) -> (r: Option<ClientError>)
    ensures
        200 <= status < 300 ==> r is None,
        status == 401 ==> r == Some(ClientError::Unauthorized),
        status == 404 ==> (r matches Some(ClientError::NotFound { resource }) && resource@ == path@),
        status == 409 ==> (r matches Some(ClientError::Conflict { reason }) && reason@ == body@),
        !(200 <= status < 300) && status != 401 && status != 404 && status != 409 ==> (r matches Some(
            ClientError::Server { status: s, body: b },
        ) && s == status && b@ == body@),
{
    if 200 <= status && status < 300 {
        None
    } else if status == 401 {
        Some(ClientError::Unauthorized)
    } else if status == 404 {
        Some(ClientError::NotFound { resource: to_string(path) })
    } else if status == 409 {
        Some(ClientError::Conflict { reason: body })
    } else {
        Some(ClientError::Server { status, body })
    }
}

// ---------------------------------------------------------------------
// Choosing the server
// ---------------------------------------------------------------------

pub struct ResolveArgs {
    pub url_flag: Option<String>,
    pub api_key_flag: Option<String>,
    pub endpoint_name: Option<String>,
}

/// The server configuration found in the working directory, when one loads.
pub struct LocalServer {
    pub host: String,
    pub port: u16,
    /// Its first API key, if it has any.
    pub api_key: Option<String>,
}

#[derive(Debug)]
pub enum ClientError {
    Unreachable { url: String, reason: String },
    Unauthorized,
    NotFound { resource: String },
    Conflict { reason: String },
    Timeout,
    Server { status: u16, body: String },
    Decode { reason: String },
    Stream { reason: String },
}

impl ClientError {
    pub open spec fn spec_message(self) -> Seq<char> {
        match self {
            ClientError::Unreachable { url, reason } => "cannot reach "@ + url@ + ": "@ + reason@,
            ClientError::Unauthorized => "unauthorized"@,
            ClientError::NotFound { resource } => "not found: "@ + resource@,
            ClientError::Conflict { reason } => "conflict: "@ + reason@,
            ClientError::Timeout => "request timed out"@,
            ClientError::Server { status, body } => "server error "@ + crate::text::decimal(status as nat) + ": "@ + body@,
            ClientError::Decode { reason } => "decode error: "@ + reason@,
            ClientError::Stream { reason } => "stream error: "@ + reason@,
        }
    }

    pub fn message(&self) -> (r: String)
        ensures
            r@ == self.spec_message(),
    {
        match self {
            ClientError::Unreachable { url, reason } => {
                let mut r = to_string("cannot reach ");
                push_str(&mut r, url.as_str());
                push_str(&mut r, ": ");
                push_str(&mut r, reason.as_str());
                r
            },
            ClientError::Unauthorized => to_string("unauthorized"),
            ClientError::NotFound { resource } => {
                let mut r = to_string("not found: ");
                push_str(&mut r, resource.as_str());
                r
            },
            ClientError::Conflict { reason } => {
                let mut r = to_string("conflict: ");
                push_str(&mut r, reason.as_str());
                r
            },
            ClientError::Timeout => to_string("request timed out"),
            ClientError::Server { status, body } => {
                let mut r = to_string("server error ");
                crate::text::push_decimal(&mut r, *status as u64);
                push_str(&mut r, ": ");
                push_str(&mut r, body.as_str());
                r
            },
            ClientError::Decode { reason } => {
                let mut r = to_string("decode error: ");
                push_str(&mut r, reason.as_str());
                r
            },
            ClientError::Stream { reason } => {
                let mut r = to_string("stream error: ");
                push_str(&mut r, reason.as_str());
                r
            },
        }
    }
}

/// A step of choosing the server: finished, or waiting for the outcome of
/// the chosen entry's key command.
pub enum ResolveStep {
    Done(Result<Endpoint, ClientError>),
    RunKeyCommand(String),
}

/// What resolving the file entry `name` gives, as a resolution step: an
/// entry error is reported as a server error with status 0.
pub open spec fn entry_resolution_is(
    st: ResolveStep,
    e: EndpointEntry,
    name: Seq<char>,
    env: Seq<(Seq<char>, Seq<char>)>,
    cmd: Option<KeyCommandResult>,
) -> bool {
    exists|es: EntryStep| #[trigger] entry_step_is(es, e, name, env, cmd) && match es {
        EntryStep::RunKeyCommand(c) => st matches ResolveStep::RunKeyCommand(x) && x@ == c@,
        EntryStep::Done(Ok(ep)) => st matches ResolveStep::Done(Ok(x)) && endpoint_is(x, ep.name@, ep.url@, opt_view(ep.api_key)),
        EntryStep::Done(Err(err)) => st matches ResolveStep::Done(Err(ClientError::Server { status, body }))
            && status == 0 && body@ == err.spec_message(),
    }
}

/// The file's entry called by the name, if both are there.
pub open spec fn file_entry(file: Option<&EndpointFile>, name: Option<String>) -> Option<(Seq<char>, EndpointEntry)> {
    match (file, name) {
        (Some(f), Some(n)) => match entry_of(f.endpoints@, n@) {
            Some(e) => Some((n@, e)),
            None => None,
        },
        _ => None,
    }
}

/// The server the CLI talks to, by precedence: the `--url` flag (with
/// `--api-key`), then `FLARION_URL` (with `FLARION_API_KEY`), then the
/// entry named by `--endpoint`, then the file's default entry, then the
/// local server configuration, and last the loopback address.
pub open spec fn resolve_step_is(
    st: ResolveStep,
    args: ResolveArgs,
    env: Seq<(Seq<char>, Seq<char>)>,
    file: Option<&EndpointFile>,
    local: Option<&LocalServer>,
    cmd: Option<KeyCommandResult>,
) -> bool {
    if let Some(url) = args.url_flag {
        st matches ResolveStep::Done(Ok(ep)) && endpoint_is(ep, "flag"@, url@, opt_view(args.api_key_flag))
    } else if let Some(url) = env_lookup(env, "FLARION_URL"@) {
        st matches ResolveStep::Done(Ok(ep)) && endpoint_is(ep, "env"@, url, env_lookup(env, "FLARION_API_KEY"@))
    } else if let Some((n, e)) = file_entry(file, args.endpoint_name) {
        entry_resolution_is(st, e, n, env, cmd)
    } else if let Some((n, e)) = file_entry(file, match file { Some(f) => f.default, None => None }) {
        entry_resolution_is(st, e, n, env, cmd)
    } else if let Some(l) = local {
        st matches ResolveStep::Done(Ok(ep))
            && endpoint_is(ep, "local"@, "http://"@ + l.host@ + ":"@ + crate::text::decimal(l.port as nat), opt_view(l.api_key))
    } else {
        st matches ResolveStep::Done(Ok(ep)) && endpoint_is(ep, "loopback"@, "http://127.0.0.1:8080"@, None)
    }
}

fn lookup_var(env: &Vec<(String, String)>, name: &str) -> (r: Option<String>)
    ensures
        opt_view(r) == env_lookup(env_view(env@), name@),
{
    let v = chars_of(name);
    assert(v@.subrange(0, v@.len() as int) =~= name@);
    match lookup(env, &v, 0, v.len()) {
        Some(x) => Some(copy_string(x)),
        None => None,
    }
}

fn entry_resolution(e: &EndpointEntry, name: &str, env: &Vec<(String, String)>, cmd: Option<KeyCommandResult>)
    -> (st: ResolveStep)
    ensures
        entry_resolution_is(st, *e, name@, env_view(env@), cmd),
{
    let es = e.resolve(name, env, cmd);
    let st = match &es {
        EntryStep::RunKeyCommand(c) => ResolveStep::RunKeyCommand(copy_string(c)),
        EntryStep::Done(Ok(ep)) => ResolveStep::Done(
            Ok(Endpoint { name: copy_string(&ep.name), url: copy_string(&ep.url), api_key: crate::text::copy_opt_string(&ep.api_key) }),
        ),
        EntryStep::Done(Err(err)) => ResolveStep::Done(Err(ClientError::Server { status: 0, body: err.message() })),
    };
    assert(entry_step_is(es, *e, name@, env_view(env@), cmd));
    st
}

pub fn resolve(
    args: &ResolveArgs,
    env: &Vec<(String, String)>,
    file: Option<&EndpointFile>,
    local: Option<&LocalServer>,
    cmd: Option<KeyCommandResult>,
) -> (st: ResolveStep)
    ensures
        resolve_step_is(st, *args, env_view(env@), file, local, cmd),
{
    if let Some(url) = &args.url_flag {
        return ResolveStep::Done(
            Ok(Endpoint { name: to_string("flag"), url: copy_string(url), api_key: crate::text::copy_opt_string(&args.api_key_flag) }),
        );
    }
    if let Some(url) = lookup_var(env, "FLARION_URL") {
        return ResolveStep::Done(Ok(Endpoint { name: to_string("env"), url, api_key: lookup_var(env, "FLARION_API_KEY") }));
    }
    if let (Some(name), Some(f)) = (&args.endpoint_name, file) {
        if let Some(entry) = f.get(name.as_str()) {
            return entry_resolution(entry, name.as_str(), env, cmd);
        }
    }
    if let Some(f) = file {
        if let Some(name) = &f.default {
            if let Some(entry) = f.get(name.as_str()) {
                return entry_resolution(entry, name.as_str(), env, cmd);
            }
        }
    }
    if let Some(l) = local {
        let mut url = to_string("http://");
        push_str(&mut url, l.host.as_str());
        push_str(&mut url, ":");
        crate::text::push_decimal(&mut url, l.port as u64);
        return ResolveStep::Done(
            Ok(Endpoint { name: to_string("local"), url, api_key: crate::text::copy_opt_string(&l.api_key) }),
        );
    }
    ResolveStep::Done(Ok(Endpoint { name: to_string("loopback"), url: to_string("http://127.0.0.1:8080"), api_key: None }))
}

} // verus!
