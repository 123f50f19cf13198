//! The command-line client: its arguments, the model listing filters and
//! rows, the confirmation prompt, the response cache's freshness, and the
//! terminal rendering of the logo from its rasterized alpha values.

use vstd::prelude::*;
use crate::admin::{Gpu, Model, pad_left, pad_right, spaces};
use crate::endpoint::ClientError;
use crate::tracker::{RequestEvent, RequestEventView};
use crate::config::Cli;
use crate::text::{
    decimal, eq_ignore_case, join, push_decimal, push_joined, push_str, str_eq_ignore_case, strings_view, trim, trimmed,
    to_string,
};

verus! {

// ---------------------------------------------------------------------
// Arguments
// ---------------------------------------------------------------------

pub struct FlarionCli {
    pub command: Option<Command>,
    /// `-c/--config` given before any subcommand (the pre-subcommand form).
    pub legacy_config: Option<String>,
    pub legacy_host: Option<String>,
    pub legacy_port: Option<u16>,
    pub legacy_log_level: Option<String>,
}

pub enum Command {
    Serve(Cli),
    Status(StatusArgs),
    Endpoints(EndpointsArgs),
    Login { name: String },
}

pub struct StatusArgs {
    pub url: Option<String>,
    pub api_key: Option<String>,
    pub endpoint: Option<String>,
    pub json: bool,
    pub client_config: Option<String>,
}

pub struct ChatArgs {
    pub prompt: Option<String>,
    pub model: Option<String>,
    pub system: Option<String>,
    pub max_tokens: u32,
    pub repl: bool,
    pub url: Option<String>,
    pub api_key: Option<String>,
    pub endpoint: Option<String>,
    pub client_config: Option<String>,
}

pub struct ConfigArgs {
    pub command: ConfigCmd,
    pub url: Option<String>,
    pub api_key: Option<String>,
    pub endpoint: Option<String>,
    pub json: bool,
    pub client_config: Option<String>,
    pub yes: bool,
}

pub enum ConfigCmd {
    Show { redacted: bool, raw: bool, config: String },
    Validate { config: String },
}

pub struct EndpointsArgs {
    pub command: EndpointsCmd,
    pub client_config: Option<String>,
}

#[allow(inconsistent_fields)]
pub enum EndpointsCmd {
    List,
    Add { name: String, url: String, api_key: Option<String>, api_key_env: Option<String>, api_key_cmd: Option<String> },
    Remove { name: String },
    Use { name: String },
    Test { name: Option<String> },
}

pub struct GpuArgs {
    pub id: Option<u32>,
    pub url: Option<String>,
    pub api_key: Option<String>,
    pub endpoint: Option<String>,
    pub json: bool,
    pub client_config: Option<String>,
}

pub struct HealthArgs {
    pub url: Option<String>,
    pub api_key: Option<String>,
    pub endpoint: Option<String>,
    pub json: bool,
    pub client_config: Option<String>,
}

pub struct ModelsArgs {
    pub command: ModelsCmd,
    pub url: Option<String>,
    pub api_key: Option<String>,
    pub endpoint: Option<String>,
    pub json: bool,
    pub client_config: Option<String>,
    pub yes: bool,
}

pub enum ModelsCmd {
    List { loaded: bool, lazy: bool, pinned: bool },
    Show { id: String },
    Load { id: String },
    Unload { id: String },
    Pin { id: String },
    Unpin { id: String },
}

pub struct RequestsArgs {
    pub command: RequestsCmd,
    pub url: Option<String>,
    pub api_key: Option<String>,
    pub endpoint: Option<String>,
    pub json: bool,
    pub client_config: Option<String>,
}

pub enum RequestsCmd {
    Tail { n: usize, follow: bool },
}

pub struct RoutesArgs {
    pub command: RoutesCmd,
    pub url: Option<String>,
    pub api_key: Option<String>,
    pub endpoint: Option<String>,
    pub json: bool,
    pub client_config: Option<String>,
}

pub enum RoutesCmd {
    List,
    Show { id: String },
}

pub struct VersionArgs {
    pub url: Option<String>,
    pub api_key: Option<String>,
    pub endpoint: Option<String>,
    pub json: bool,
    pub client_config: Option<String>,
}

/// What the program does with its parsed arguments.
pub enum Dispatch {
    Run(Command),
    /// The old form `flarion -c <file>` without a subcommand: serve, after
    /// printing the deprecation warning.
    LegacyServe { warning: String, cli: Cli },
    /// Neither a subcommand nor the old form: print this and exit with 2.
    Refuse(String),
}

pub open spec fn legacy_warning() -> Seq<char> {
    "warning: 'flarion -c <file>' without a subcommand is deprecated; use 'flarion serve -c <file>'"@
}

pub open spec fn no_subcommand() -> Seq<char> {
    "flarion: no subcommand given. TUI is not yet available \u{2014} run 'flarion --help' to see subcommands."@
}

pub fn dispatch(parsed: FlarionCli) -> (d: Dispatch)
    ensures
        match parsed.command {
            Some(c) => d == Dispatch::Run(c),
            None => match parsed.legacy_config {
                Some(path) => d matches Dispatch::LegacyServe { warning, cli } && warning@ == legacy_warning()
                    && cli == (Cli {
                        config: path,
                        host: parsed.legacy_host,
                        port: parsed.legacy_port,
                        log_level: parsed.legacy_log_level,
                    }),
                None => d matches Dispatch::Refuse(m) && m@ == no_subcommand(),
            },
        },
{
    match parsed.command {
        Some(c) => Dispatch::Run(c),
        None => match parsed.legacy_config {
            Some(path) => Dispatch::LegacyServe {
                warning: to_string(
                    "warning: 'flarion -c <file>' without a subcommand is deprecated; use 'flarion serve -c <file>'",
                ),
                cli: Cli {
                    config: path,
                    host: parsed.legacy_host,
                    port: parsed.legacy_port,
                    log_level: parsed.legacy_log_level,
                },
            },
            None => Dispatch::Refuse(
                to_string("flarion: no subcommand given. TUI is not yet available \u{2014} run 'flarion --help' to see subcommands."),
            ),
        },
    }
}

// ---------------------------------------------------------------------
// Model listings
// ---------------------------------------------------------------------

/// A model passes the listing filters: with `loaded`, only loaded models;
/// with `lazy`, only lazy ones; with `pinned`, only pinned ones.
pub open spec fn passes(m: Model, loaded: bool, lazy: bool, pinned: bool) -> bool {
    &&& loaded ==> m.state@ == "loaded"@
    &&& lazy ==> m.lazy
    &&& pinned ==> m.pinned
}

pub open spec fn filtered(ms: Seq<Model>, loaded: bool, lazy: bool, pinned: bool) -> Seq<Model>
    decreases ms.len(),
{
    if ms.len() == 0 {
        Seq::empty()
    } else {
        let rest = filtered(ms.drop_last(), loaded, lazy, pinned);
        if passes(ms.last(), loaded, lazy, pinned) { rest.push(ms.last()) } else { rest }
    }
}

/// Keep the models that pass the filters, in order.
pub fn filter_models(models: Vec<Model>, loaded: bool, lazy: bool, pinned: bool) -> (r: Vec<Model>)
    ensures
        r@ == filtered(models@, loaded, lazy, pinned),
{
    let ghost all = models@;
    let mut models = models;
    let mut kept_rev: Vec<Model> = Vec::new();
    // Walk from the back so that each model can be moved out.
    let mut n = models.len();
    assert(all.subrange(0, n as int) =~= all);
    assert(kept_rev@.reverse() =~= Seq::<Model>::empty());
    assert(filtered(all, loaded, lazy, pinned) + Seq::<Model>::empty() =~= filtered(all, loaded, lazy, pinned));
    while n > 0
        invariant
            n == models@.len(),
            n <= all.len(),
            models@ == all.subrange(0, n as int),
            filtered(all, loaded, lazy, pinned) == filtered(all.subrange(0, n as int), loaded, lazy, pinned)
                + kept_rev@.reverse(),
        decreases n,
    {
        let m = models.pop().unwrap();
        let ghost pre = all.subrange(0, n - 1);
        assert(all.subrange(0, n as int).drop_last() =~= pre);
        assert(all.subrange(0, n as int).last() == m);
        n = n - 1;
        let keep = (!loaded || crate::text::str_eq(m.state.as_str(), "loaded")) && (!lazy || m.lazy) && (!pinned || m.pinned);
        if keep {
            let ghost kr = kept_rev@;
            kept_rev.push(m);
            assert(kept_rev@.reverse() =~= seq![m] + kr.reverse());
            assert(filtered(pre, loaded, lazy, pinned).push(m) + kr.reverse()
                =~= filtered(pre, loaded, lazy, pinned) + kept_rev@.reverse());
        }
    }
    assert(all.subrange(0, 0) =~= Seq::<Model>::empty());
    let mut r: Vec<Model> = Vec::new();
    while kept_rev.len() > 0
        invariant
            filtered(all, loaded, lazy, pinned) == r@ + kept_rev@.reverse(),
        decreases kept_rev@.len(),
    {
        let ghost kr = kept_rev@;
        let m = kept_rev.pop().unwrap();
        assert(kr =~= kept_rev@.push(m));
        assert(kr.reverse() =~= seq![m] + kept_rev@.reverse());
        r.push(m);
        assert(r@ + kept_rev@.reverse() =~= filtered(all, loaded, lazy, pinned));
    }
    assert(kept_rev@.reverse() =~= Seq::<Model>::empty());
    assert(r@ =~= filtered(all, loaded, lazy, pinned));
    r
}

/// A listing row: id, backend and state in columns, the pin flag and
/// the in-flight count.
pub open spec fn model_row_text(m: Model) -> Seq<char> {
    pad_right(m.id@, 24) + "  "@ + pad_right(m.backend@, 10) + " "@ + pad_right(m.state@, 10) + " pin="@
        + (if m.pinned { "y"@ } else { "n"@ }) + "  in-flight="@ + decimal(m.in_flight as nat)
}

pub fn model_row(m: &Model) -> (r: String)
    ensures
        r@ == model_row_text(*m),
{
    let mut r = String::new();
    crate::admin::push_padded_right(&mut r, m.id.as_str(), 24);
    push_str(&mut r, "  ");
    crate::admin::push_padded_right(&mut r, m.backend.as_str(), 10);
    push_str(&mut r, " ");
    crate::admin::push_padded_right(&mut r, m.state.as_str(), 10);
    push_str(&mut r, " pin=");
    push_str(&mut r, if m.pinned { "y" } else { "n" });
    push_str(&mut r, "  in-flight=");
    push_decimal(&mut r, m.in_flight);
    assert(r@ =~= model_row_text(*m));
    r
}

/// A confirmation answer is yes: `y` or `yes` in any case, around spaces.
pub open spec fn is_yes_answer(s: Seq<char>) -> bool {
    eq_ignore_case(trim(s), "y"@) || eq_ignore_case(trim(s), "yes"@)
}

pub fn is_yes(answer: &str) -> (r: bool)
    ensures
        r == is_yes_answer(answer@),
{
    let t = trimmed(answer);
    str_eq_ignore_case(t.as_str(), "y") || str_eq_ignore_case(t.as_str(), "yes")
}

// ---------------------------------------------------------------------
// Cache freshness
// ---------------------------------------------------------------------

/// How long a cached dashboard read stays fresh, in milliseconds.
pub const CACHE_TTL_MS: u64 = 1000;

/// A value fetched at `fetched_at_ms` is still fresh at `now_ms`: less than
/// the time to live has passed (a clock that reads earlier than the fetch
/// counts as no time passed).
pub open spec fn fresh_at(fetched_at_ms: u64, now_ms: u64) -> bool {
    now_ms < fetched_at_ms || now_ms - fetched_at_ms < CACHE_TTL_MS
}

pub fn is_fresh(fetched_at_ms: u64, now_ms: u64) -> (r: bool)
    ensures
        r == fresh_at(fetched_at_ms, now_ms),
{
    if now_ms < fetched_at_ms {
        true
    } else {
        now_ms - fetched_at_ms < CACHE_TTL_MS
    }
}

// ---------------------------------------------------------------------
// Request logs
// ---------------------------------------------------------------------

/// The line `flarion requests` prints for an event: time, kind, the id in
/// a field of 32, then the kind's figures.
pub open spec fn event_text(e: RequestEventView) -> Seq<char> {
    match e {
        RequestEventView::Started { id, ts, backend, .. } =>
            ts + "  started    "@ + pad_right(id, 32) + "  backend="@ + backend,
        RequestEventView::Completed { id, ts, backend, duration_ms, prompt_tokens, completion_tokens, .. } =>
            ts + "  completed  "@ + pad_right(id, 32) + "  backend="@ + backend + "  "@ + decimal(duration_ms as nat)
                + "ms  p/c="@ + decimal(prompt_tokens as nat) + "/"@ + decimal(completion_tokens as nat),
        RequestEventView::Failed { id, ts, backend, reason, duration_ms } =>
            ts + "  FAILED     "@ + pad_right(id, 32) + "  backend="@ + backend + "  "@ + decimal(duration_ms as nat)
                + "ms  "@ + reason,
        RequestEventView::Canceled { id, ts, backend, duration_ms } =>
            ts + "  canceled   "@ + pad_right(id, 32) + "  backend="@ + backend + "  "@ + decimal(duration_ms as nat)
                + "ms"@,
        RequestEventView::FirstToken { id, ttft_ms, .. } =>
            spaces(28) + "first-token "@ + pad_right(id, 32) + "  ttft="@ + decimal(ttft_ms as nat) + "ms"@,
        RequestEventView::Gap { missed } => "-- stream gap: "@ + decimal(missed as nat) + " events missed --"@,
    }
}

fn push_event_head(out: &mut String, ts: &str, kind: &str, id: &str, backend: &str)
    ensures
        final(out)@ == old(out)@ + ts@ + kind@ + pad_right(id@, 32) + "  backend="@ + backend@,
{
    push_str(out, ts);
    push_str(out, kind);
    crate::admin::push_padded_right(out, id, 32);
    push_str(out, "  backend=");
    push_str(out, backend);
    assert(out@ =~= old(out)@ + ts@ + kind@ + pad_right(id@, 32) + "  backend="@ + backend@);
}

pub fn event_line(e: &RequestEvent) -> (r: String)
    ensures
        r@ == event_text(e@),
{
    let mut r = String::new();
    match e {
        RequestEvent::Started { id, ts, backend, .. } => {
            push_event_head(&mut r, ts.as_str(), "  started    ", id.as_str(), backend.as_str());
        },
        RequestEvent::Completed { id, ts, backend, duration_ms, prompt_tokens, completion_tokens, .. } => {
            push_event_head(&mut r, ts.as_str(), "  completed  ", id.as_str(), backend.as_str());
            push_str(&mut r, "  ");
            push_decimal(&mut r, *duration_ms);
            push_str(&mut r, "ms  p/c=");
            push_decimal(&mut r, *prompt_tokens);
            push_str(&mut r, "/");
            push_decimal(&mut r, *completion_tokens);
        },
        RequestEvent::Failed { id, ts, backend, reason, duration_ms } => {
            push_event_head(&mut r, ts.as_str(), "  FAILED     ", id.as_str(), backend.as_str());
            push_str(&mut r, "  ");
            push_decimal(&mut r, *duration_ms);
            push_str(&mut r, "ms  ");
            push_str(&mut r, reason.as_str());
        },
        RequestEvent::Canceled { id, ts, backend, duration_ms } => {
            push_event_head(&mut r, ts.as_str(), "  canceled   ", id.as_str(), backend.as_str());
            push_str(&mut r, "  ");
            push_decimal(&mut r, *duration_ms);
            push_str(&mut r, "ms");
        },
        RequestEvent::FirstToken { id, ttft_ms, .. } => {
            crate::admin::push_padded_right(&mut r, "", 28);
            push_str(&mut r, "first-token ");
            crate::admin::push_padded_right(&mut r, id.as_str(), 32);
            push_str(&mut r, "  ttft=");
            push_decimal(&mut r, *ttft_ms);
            push_str(&mut r, "ms");
            proof { reveal_strlit(""); }
            assert(pad_right(""@, 28) =~= spaces(28));
        },
        RequestEvent::Gap { missed } => {
            push_str(&mut r, "-- stream gap: ");
            push_decimal(&mut r, *missed);
            push_str(&mut r, " events missed --");
        },
    }
    assert(r@ =~= event_text(e@));
    r
}

// ---------------------------------------------------------------------
// GPU listings
// ---------------------------------------------------------------------

/// The devices a `flarion gpu` listing shows: all, or those with the
/// given id.
pub open spec fn gpus_shown(gs: Seq<Gpu>, id: Option<u32>) -> Seq<Gpu>
    decreases gs.len(),
{
    if gs.len() == 0 {
        Seq::empty()
    } else {
        let rest = gpus_shown(gs.drop_last(), id);
        if id is None || gs.last().id == id->0 { rest.push(gs.last()) } else { rest }
    }
}

pub fn select_gpus(gpus: Vec<Gpu>, id: Option<u32>) -> (r: Vec<Gpu>)
    ensures
        r@ == gpus_shown(gpus@, id),
{
    let ghost all = gpus@;
    let mut rest = gpus;
    let mut kept_rev: Vec<Gpu> = Vec::new();
    let mut n = rest.len();
    assert(all.subrange(0, n as int) =~= all);
    assert(gpus_shown(all, id) + kept_rev@.reverse() =~= gpus_shown(all, id));
    while n > 0
        invariant
            n == rest@.len(),
            n <= all.len(),
            rest@ == all.subrange(0, n as int),
            gpus_shown(all, id) == gpus_shown(all.subrange(0, n as int), id) + kept_rev@.reverse(),
        decreases n,
    {
        let g = rest.pop().unwrap();
        let ghost pre = all.subrange(0, n - 1);
        assert(all.subrange(0, n as int).drop_last() =~= pre);
        assert(all.subrange(0, n as int).last() == g);
        n = n - 1;
        let keep = match id {
            None => true,
            Some(x) => g.id == x,
        };
        if keep {
            let ghost kr = kept_rev@;
            kept_rev.push(g);
            assert(kept_rev@.reverse() =~= seq![g] + kr.reverse());
            assert(gpus_shown(pre, id).push(g) + kr.reverse() =~= gpus_shown(pre, id) + kept_rev@.reverse());
        }
    }
    assert(all.subrange(0, 0) =~= Seq::<Gpu>::empty());
    let mut r: Vec<Gpu> = Vec::new();
    while kept_rev.len() > 0
        invariant
            gpus_shown(all, id) == r@ + kept_rev@.reverse(),
        decreases kept_rev@.len(),
    {
        let ghost kr = kept_rev@;
        let g = kept_rev.pop().unwrap();
        assert(kr =~= kept_rev@.push(g));
        assert(kr.reverse() =~= seq![g] + kept_rev@.reverse());
        r.push(g);
        assert(r@ + kept_rev@.reverse() =~= gpus_shown(all, id));
    }
    assert(kept_rev@.reverse() =~= Seq::<Gpu>::empty());
    assert(r@ =~= gpus_shown(all, id));
    r
}

/// The share of a device's memory in use, in whole percent (0 for a
/// device with no memory).
pub open spec fn used_percent(budget_mb: u64, free_mb: u64) -> int {
    if budget_mb > 0 { 100 * (budget_mb - free_mb) / (budget_mb as int) } else { 0 }
}

/// A `flarion gpu` line: id, name in a field of 28, free and total
/// memory right-aligned in fields of 5, the share used, and the models.
pub open spec fn gpu_line_text(g: Gpu) -> Seq<char> {
    "["@ + decimal(g.id as nat) + "] "@ + pad_right(g.name@, 28) + "  "@ + pad_left(decimal(g.free_mb as nat), 5)
        + " / "@ + pad_left(decimal(g.budget_mb as nat), 5) + " MB free  ("@ + decimal(used_percent(g.budget_mb, g.free_mb) as nat)
        + "% used)  models: "@ + (if g.models@.len() == 0 { "\u{2014}"@ } else { join(strings_view(g.models@), ", "@) })
}

pub fn gpu_line(g: &Gpu) -> (r: String)
    requires
        g.free_mb <= g.budget_mb,
        100 * (g.budget_mb - g.free_mb) <= u64::MAX,
    ensures
        r@ == gpu_line_text(*g),
{
    let pct: u64 = if g.budget_mb > 0 {
        assert(100 * (g.budget_mb - g.free_mb) / (g.budget_mb as int) <= 100) by (nonlinear_arith)
            requires g.free_mb <= g.budget_mb, g.budget_mb > 0;
        100 * (g.budget_mb - g.free_mb) / g.budget_mb
    } else {
        0
    };
    let mut r = to_string("[");
    push_decimal(&mut r, g.id as u64);
    push_str(&mut r, "] ");
    crate::admin::push_padded_right(&mut r, g.name.as_str(), 28);
    push_str(&mut r, "  ");
    let free = crate::text::decimal_string(g.free_mb);
    crate::admin::push_padded_left(&mut r, free.as_str(), 5);
    push_str(&mut r, " / ");
    let total = crate::text::decimal_string(g.budget_mb);
    crate::admin::push_padded_left(&mut r, total.as_str(), 5);
    push_str(&mut r, " MB free  (");
    push_decimal(&mut r, pct);
    push_str(&mut r, "% used)  models: ");
    if g.models.len() == 0 {
        push_str(&mut r, "\u{2014}");
    } else {
        push_joined(&mut r, &g.models, ", ");
    }
    assert(r@ =~= gpu_line_text(*g));
    r
}

// ---------------------------------------------------------------------
// Failures
// ---------------------------------------------------------------------

/// What a read command prints, and its exit status, when the server
/// cannot answer: 3 when unreachable, 2 when unauthorized, else 1.
pub open spec fn read_failure(e: ClientError) -> (Seq<char>, u8) {
    match e {
        ClientError::Unreachable { url, .. } => ("flarion: can't reach "@ + url@, 3),
        ClientError::Unauthorized => ("flarion: unauthorized"@, 2),
        _ => ("flarion: "@ + e.spec_message(), 1),
    }
}

pub fn read_failure_of(e: &ClientError) -> (r: (String, u8))
    ensures
        (r.0@, r.1) == read_failure(*e),
{
    match e {
        ClientError::Unreachable { url, .. } => {
            let mut m = to_string("flarion: can't reach ");
            push_str(&mut m, url.as_str());
            (m, 3)
        },
        ClientError::Unauthorized => (to_string("flarion: unauthorized"), 2),
        _ => {
            let mut m = to_string("flarion: ");
            let t = e.message();
            push_str(&mut m, t.as_str());
            (m, 1)
        },
    }
}

/// What a model command (`load`, `unload`, `pin`, `unpin`) prints, and its
/// exit status, when the server refuses: 4 for an unknown model, 5 for a
/// conflict, 2 unauthorized, 3 unreachable, else 1.
pub open spec fn mutation_failure(id: Seq<char>, action: Seq<char>, e: ClientError) -> (Seq<char>, u8) {
    match e {
        ClientError::NotFound { .. } => ("flarion: no such model: "@ + id, 4),
        ClientError::Conflict { reason } => ("flarion: can't "@ + action + " '"@ + id + "': "@ + reason@, 5),
        ClientError::Unauthorized => ("flarion: unauthorized"@, 2),
        ClientError::Unreachable { url, .. } => ("flarion: can't reach "@ + url@, 3),
        _ => ("flarion: "@ + action + " failed: "@ + e.spec_message(), 1),
    }
}

pub fn mutation_failure_of(id: &str, action: &str, e: &ClientError) -> (r: (String, u8))
    ensures
        (r.0@, r.1) == mutation_failure(id@, action@, *e),
{
    match e {
        ClientError::NotFound { .. } => {
            let mut m = to_string("flarion: no such model: ");
            push_str(&mut m, id);
            (m, 4)
        },
        ClientError::Conflict { reason } => {
            let mut m = to_string("flarion: can't ");
            push_str(&mut m, action);
            push_str(&mut m, " '");
            push_str(&mut m, id);
            push_str(&mut m, "': ");
            push_str(&mut m, reason.as_str());
            (m, 5)
        },
        ClientError::Unauthorized => (to_string("flarion: unauthorized"), 2),
        ClientError::Unreachable { url, .. } => {
            let mut m = to_string("flarion: can't reach ");
            push_str(&mut m, url.as_str());
            (m, 3)
        },
        _ => {
            let mut m = to_string("flarion: ");
            push_str(&mut m, action);
            push_str(&mut m, " failed: ");
            let t = e.message();
            push_str(&mut m, t.as_str());
            (m, 1)
        },
    }
}

/// What `flarion status` prints, and its exit status, when the server
/// cannot answer; the unauthorized case names the endpoint.
pub open spec fn status_failure(e: ClientError, endpoint: Seq<char>) -> (Seq<char>, u8) {
    match e {
        ClientError::Unreachable { url, .. } =>
            ("flarion: can't reach "@ + url@ + " \u{2014} is the server running? (try 'flarion endpoints test')"@, 3),
        ClientError::Unauthorized => ("flarion: unauthorized \u{2014} check api key for endpoint '"@ + endpoint + "'"@, 2),
        _ => ("flarion: "@ + e.spec_message(), 1),
    }
}

pub fn status_failure_of(e: &ClientError, endpoint: &str) -> (r: (String, u8))
    ensures
        (r.0@, r.1) == status_failure(*e, endpoint@),
{
    match e {
        ClientError::Unreachable { url, .. } => {
            let mut m = to_string("flarion: can't reach ");
            push_str(&mut m, url.as_str());
            push_str(&mut m, " \u{2014} is the server running? (try 'flarion endpoints test')");
            (m, 3)
        },
        ClientError::Unauthorized => {
            let mut m = to_string("flarion: unauthorized \u{2014} check api key for endpoint '");
            push_str(&mut m, endpoint);
            push_str(&mut m, "'");
            (m, 2)
        },
        _ => {
            let mut m = to_string("flarion: ");
            let t = e.message();
            push_str(&mut m, t.as_str());
            (m, 1)
        },
    }
}

// ---------------------------------------------------------------------
// Health and version
// ---------------------------------------------------------------------

/// What `flarion health` prints for an answer: the reported status (`?`
/// when it has none) and the round trip.
pub fn health_line(status: Option<&str>, latency_ms: u64) -> (r: String)
    ensures
        r@ == "OK  status="@ + (match status { Some(s) => s@, None => "?"@ }) + "  ("@ + decimal(latency_ms as nat) + "ms)"@,
{
    let mut r = to_string("OK  status=");
    match status {
        Some(s) => push_str(&mut r, s),
        None => push_str(&mut r, "?"),
    }
    push_str(&mut r, "  (");
    push_decimal(&mut r, latency_ms);
    push_str(&mut r, "ms)");
    r
}

/// A list of features as shown: comma-separated, or an em dash.
pub open spec fn features_text(fs: Seq<Seq<char>>) -> Seq<char> {
    if fs.len() == 0 { "\u{2014}"@ } else { join(fs, ", "@) }
}

fn push_features(out: &mut String, fs: &Vec<String>)
    ensures
        final(out)@ == old(out)@ + features_text(strings_view(fs@)),
{
    if fs.len() == 0 {
        push_str(out, "\u{2014}");
    } else {
        push_joined(out, fs, ", ");
    }
}

/// What a reachable server reports to `flarion version`.
pub struct ServerVersion {
    pub version: String,
    pub endpoint_name: String,
    pub endpoint_url: String,
    pub features: Vec<String>,
}

/// The text lines `flarion version` prints after the logo.
pub open spec fn version_text(client_version: Seq<char>, features: Seq<Seq<char>>, server: Option<ServerVersion>) -> Seq<Seq<char>> {
    seq![
        "\u{25b2} FLARION "@ + client_version,
        "  client  "@ + client_version + "  ("@ + features_text(features) + ")"@,
        match server {
            Some(s) => "  server  "@ + s.version@ + "  @ "@ + s.endpoint_name@ + " ("@ + s.endpoint_url@
                + ")  \u{b7}  features: "@ + features_text(strings_view(s.features@)),
            None => "  server  unreachable (no running server found)"@,
        },
    ]
}

pub fn version_lines(client_version: &str, features: &Vec<String>, server: &Option<ServerVersion>) -> (r: Vec<String>)
    ensures
        strings_view(r@) == version_text(client_version@, strings_view(features@), *server),
{
    let mut l1 = to_string("\u{25b2} FLARION ");
    push_str(&mut l1, client_version);
    let mut l2 = to_string("  client  ");
    push_str(&mut l2, client_version);
    push_str(&mut l2, "  (");
    push_features(&mut l2, features);
    push_str(&mut l2, ")");
    let l3 = match server {
        Some(s) => {
            let mut l = to_string("  server  ");
            push_str(&mut l, s.version.as_str());
            push_str(&mut l, "  @ ");
            push_str(&mut l, s.endpoint_name.as_str());
            push_str(&mut l, " (");
            push_str(&mut l, s.endpoint_url.as_str());
            push_str(&mut l, ")  \u{b7}  features: ");
            push_features(&mut l, &s.features);
            l
        },
        None => to_string("  server  unreachable (no running server found)"),
    };
    let mut r: Vec<String> = Vec::new();
    r.push(l1);
    r.push(l2);
    r.push(l3);
    assert(strings_view(r@) =~= version_text(client_version@, strings_view(features@), *server));
    r
}

/// A cached answer and when it was fetched.
pub struct Cached<T> {
    pub value: T,
    pub fetched_at_ms: u64,
}

/// One cached dashboard read.
pub struct CacheSlot<T> {
    pub entry: Option<Cached<T>>,
}

impl<T> CacheSlot<T> {
    pub fn empty() -> (s: Self)
        ensures
            s.entry is None,
    {
        CacheSlot { entry: None }
    }

    /// The cached value, if there is one still fresh at `now_ms`.
    pub fn fresh(&self, now_ms: u64) -> (r: Option<&T>)
        ensures
            match self.entry {
                Some(c) => if fresh_at(c.fetched_at_ms, now_ms) {
                    r matches Some(v) && *v == c.value
                } else {
                    r is None
                },
                None => r is None,
            },
    {
        match &self.entry {
            Some(c) => if is_fresh(c.fetched_at_ms, now_ms) {
                Some(&c.value)
            } else {
                None
            },
            None => None,
        }
    }

    /// Keep a value fetched at `now_ms`.
    pub fn store(&mut self, value: T, now_ms: u64)
        ensures
            final(self).entry == Some(Cached { value, fetched_at_ms: now_ms }),
    {
        self.entry = Some(Cached { value, fetched_at_ms: now_ms });
    }

    pub fn clear(&mut self)
        ensures
            final(self).entry is None,
    {
        self.entry = None;
    }
}

/// The client's dashboard reads, each cached for a second.
pub struct DashboardCache {
    pub status: CacheSlot<crate::admin::Status>,
    pub gpus: CacheSlot<Vec<Gpu>>,
    pub models: CacheSlot<Vec<Model>>,
    pub routes: CacheSlot<Vec<crate::admin::Route>>,
}

impl DashboardCache {
    pub fn new() -> (c: Self)
        ensures
            c.status.entry is None,
            c.gpus.entry is None,
            c.models.entry is None,
            c.routes.entry is None,
    {
        DashboardCache {
            status: CacheSlot::empty(),
            gpus: CacheSlot::empty(),
            models: CacheSlot::empty(),
            routes: CacheSlot::empty(),
        }
    }

    /// After a model command: a successful one drops the status, models
    /// and GPUs (which it changes); routes stay, and a failed command
    /// changes nothing.
    pub fn after_mutation(&mut self, succeeded: bool)
        ensures
            succeeded ==> final(self).status.entry is None && final(self).models.entry is None
                && final(self).gpus.entry is None,
            !succeeded ==> final(self).status == old(self).status && final(self).models == old(self).models
                && final(self).gpus == old(self).gpus,
            final(self).routes == old(self).routes,
    {
        if succeeded {
            self.status.clear();
            self.models.clear();
            self.gpus.clear();
        }
    }

    /// A model command's reply from the server (load, unload or pin),
    /// passed on unchanged after the cache has taken note of it: a failed
    /// command leaves every cached read as it was, so a read within its
    /// second is still served from the cache; a successful one drops the
    /// status, models and GPUs so their next read asks the server again,
    /// and keeps the routes.
    pub fn mutation_reply<T, E>(&mut self, reply: Result<T, E>) -> (r: Result<T, E>)
        ensures
            r == reply,
            reply is Err ==> *final(self) == *old(self),
            reply is Ok ==> final(self).status.entry is None && final(self).models.entry is None
                && final(self).gpus.entry is None && final(self).routes == old(self).routes,
    {
        let ok = reply.is_ok();
        self.after_mutation(ok);
        proof {
            if !ok {
                assert(*self == *old(self));
            }
        }
        reply
    }
}

// ---------------------------------------------------------------------
// The logo
// ---------------------------------------------------------------------

#[derive(Clone, Copy, Debug, PartialEq, Eq, Structural)]
pub enum RenderMode {
    TrueColor,
    Basic16,
    NoColor,
}

/// The render mode from the environment: `NO_COLOR` or `FLARION_ASCII`
/// set, or output not to a terminal, means no colour; `COLORTERM` of
/// `truecolor` or `24bit` means 24-bit colour; else the basic palette.
pub open spec fn mode_for(no_color: bool, ascii: bool, is_tty: bool, colorterm: Option<Seq<char>>) -> RenderMode {
    if no_color || ascii || !is_tty {
        RenderMode::NoColor
    } else if colorterm == Some("truecolor"@) || colorterm == Some("24bit"@) {
        RenderMode::TrueColor
    } else {
        RenderMode::Basic16
    }
}

pub fn choose_mode(no_color: bool, ascii: bool, is_tty: bool, colorterm: Option<&str>) -> (m: RenderMode)
    ensures
        m == mode_for(no_color, ascii, is_tty, match colorterm { Some(s) => Some(s@), None => None }),
{
    if no_color || ascii || !is_tty {
        return RenderMode::NoColor;
    }
    match colorterm {
        Some(c) => {
            if crate::text::str_eq(c, "truecolor") || crate::text::str_eq(c, "24bit") {
                RenderMode::TrueColor
            } else {
                RenderMode::Basic16
            }
        },
        None => RenderMode::Basic16,
    }
}

/// The brand colour.
pub open spec fn ember() -> (u8, u8, u8) {
    (0xff, 0x6b, 0x35)
}

/// A pixel is drawn, in the brand colour, when it is at least slightly
/// opaque (alpha 32 or more).
pub fn colorize(alpha: u8, mode: RenderMode) -> (r: Option<(u8, u8, u8)>)
    requires
        mode != RenderMode::NoColor,
    ensures
        r == (if alpha < 32 { None } else { Some(ember()) }),
{
    if alpha < 32 {
        None
    } else {
        Some((0xff, 0x6b, 0x35))
    }
}

/// The escape that sets a 24-bit foreground colour.
pub open spec fn fg_escape(r: u8, g: u8, b: u8) -> Seq<char> {
    "\x1b[38;2;"@ + decimal(r as nat) + ";"@ + decimal(g as nat) + ";"@ + decimal(b as nat) + "m"@
}

/// The escape that sets a 24-bit background colour.
pub open spec fn bg_escape(r: u8, g: u8, b: u8) -> Seq<char> {
    "\x1b[48;2;"@ + decimal(r as nat) + ";"@ + decimal(g as nat) + ";"@ + decimal(b as nat) + "m"@
}

pub fn push_fg(s: &mut String, r: u8, g: u8, b: u8)
    ensures
        final(s)@ == old(s)@ + fg_escape(r, g, b),
{
    push_str(s, "\x1b[38;2;");
    push_decimal(s, r as u64);
    push_str(s, ";");
    push_decimal(s, g as u64);
    push_str(s, ";");
    push_decimal(s, b as u64);
    push_str(s, "m");
    assert(s@ =~= old(s)@ + fg_escape(r, g, b));
}

pub fn push_bg(s: &mut String, r: u8, g: u8, b: u8)
    ensures
        final(s)@ == old(s)@ + bg_escape(r, g, b),
{
    push_str(s, "\x1b[48;2;");
    push_decimal(s, r as u64);
    push_str(s, ";");
    push_decimal(s, g as u64);
    push_str(s, ";");
    push_decimal(s, b as u64);
    push_str(s, "m");
    assert(s@ =~= old(s)@ + bg_escape(r, g, b));
}

/// The alpha of pixel (x, y) of a `width`-wide RGBA raster, 0 outside it.
pub open spec fn alpha_at(data: Seq<u8>, width: u32, x: u32, y: u32) -> u8 {
    let i = (y as int * width as int + x as int) * 4 + 3;
    if 0 <= i < data.len() { data[i] } else { 0 }
}

pub fn sample_alpha(data: &Vec<u8>, width: u32, x: u32, y: u32) -> (a: u8)
    requires
        (y as int * width as int + x as int) * 4 + 3 <= usize::MAX,
    ensures
        a == alpha_at(data@, width, x, y),
{
    let i = (y as usize * width as usize + x as usize) * 4 + 3;
    if i < data.len() { data[i] } else { 0 }
}

/// One character cell, which shows two vertically stacked pixels: the
/// upper half block in the top colour over the bottom colour.
pub open spec fn cell_text(top: Option<(u8, u8, u8)>, bot: Option<(u8, u8, u8)>) -> Seq<char> {
    match (top, bot) {
        (None, None) => " "@,
        (Some(t), None) => fg_escape(t.0, t.1, t.2) + "\u{2580}"@ + "\x1b[0m"@,
        (None, Some(b)) => bg_escape(b.0, b.1, b.2) + " "@ + "\x1b[0m"@,
        (Some(t), Some(b)) => fg_escape(t.0, t.1, t.2) + bg_escape(b.0, b.1, b.2) + "\u{2580}"@ + "\x1b[0m"@,
    }
}

pub fn push_cell(out: &mut String, top: Option<(u8, u8, u8)>, bot: Option<(u8, u8, u8)>)
    ensures
        final(out)@ == old(out)@ + cell_text(top, bot),
{
    match (top, bot) {
        (None, None) => push_str(out, " "),
        (Some(t), None) => {
            push_fg(out, t.0, t.1, t.2);
            push_str(out, "\u{2580}");
            push_str(out, "\x1b[0m");
        },
        (None, Some(b)) => {
            push_bg(out, b.0, b.1, b.2);
            push_str(out, " ");
            push_str(out, "\x1b[0m");
        },
        (Some(t), Some(b)) => {
            push_fg(out, t.0, t.1, t.2);
            push_bg(out, b.0, b.1, b.2);
            push_str(out, "\u{2580}");
            push_str(out, "\x1b[0m");
        },
    }
    assert(out@ =~= old(out)@ + cell_text(top, bot));
}

pub open spec fn pixel_color(data: Seq<u8>, width: u32, x: u32, y: u32) -> Option<(u8, u8, u8)> {
    if alpha_at(data, width, x, y) < 32 { None } else { Some(ember()) }
}

/// Cells `0..cols` of the character row over pixel rows `y` and `y + 1`.
pub open spec fn row_cells(data: Seq<u8>, width: u32, y: u32, cols: nat) -> Seq<char>
    decreases cols,
{
    if cols == 0 {
        Seq::empty()
    } else {
        let x = (cols - 1) as u32;
        row_cells(data, width, y, (cols - 1) as nat)
            + cell_text(pixel_color(data, width, x, y), pixel_color(data, width, x, (y + 1) as u32))
    }
}

/// Character rows `0..rows` of the raster, each ended by a newline.
pub open spec fn raster_rows(data: Seq<u8>, width: u32, rows: nat) -> Seq<char>
    decreases rows,
{
    if rows == 0 {
        Seq::empty()
    } else {
        raster_rows(data, width, (rows - 1) as nat) + row_cells(data, width, (2 * (rows - 1)) as u32, width as nat) + "\n"@
    }
}

/// Render a `width` by `height` RGBA raster as half-block character cells
/// in the brand colour, two pixel rows per line.
pub fn render_cells(data: &Vec<u8>, width: u32, height: u32, mode: RenderMode) -> (s: String)
    requires
        mode != RenderMode::NoColor,
        (height as int + 1) * (width as int + 1) * 4 + 8 <= usize::MAX,
        height < u32::MAX,
    ensures
        s@ == raster_rows(data@, width, ((height as nat + 1) / 2) as nat),
{
    let mut out = String::new();
    let mut row: u32 = 0;
    let mut k: u32 = 0;
    while row < height
        invariant
            row == 2 * k,
            row <= height + 1,
            height < u32::MAX,
            (height as int + 1) * (width as int + 1) * 4 + 8 <= usize::MAX,
            mode != RenderMode::NoColor,
            out@ == raster_rows(data@, width, k as nat),
        decreases height + 1 - row,
    {
        let mut col: u32 = 0;
        let ghost before = out@;
        while col < width
            invariant
                col <= width,
                row < height,
                height < u32::MAX,
                (height as int + 1) * (width as int + 1) * 4 + 8 <= usize::MAX,
                mode != RenderMode::NoColor,
                out@ == before + row_cells(data@, width, row, col as nat),
                before == raster_rows(data@, width, k as nat),
                row == 2 * k,
            decreases width - col,
        {
            assert((row as int + 1) * width as int + col as int <= (height as int + 1) * (width as int + 1)) by (nonlinear_arith)
                requires
                    row < height,
                    col < width,
            ;
            assert(row as int * width as int + col as int <= (row as int + 1) * width as int + col as int) by (nonlinear_arith)
                requires
                    col < width,
            ;
            let top = colorize(sample_alpha(data, width, col, row), mode);
            let bot = colorize(sample_alpha(data, width, col, row + 1), mode);
            push_cell(&mut out, top, bot);
            col = col + 1;
        }
        push_str(&mut out, "\n");
        assert((2 * ((k + 1) as nat - 1)) as u32 == row);
        assert(out@ =~= raster_rows(data@, width, (k + 1) as nat));
        row = row + 2;
        k = k + 1;
    }
    assert(k as nat == ((height as nat + 1) / 2) as nat);
    out
}

} // verus!
