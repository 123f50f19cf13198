//! The admin API's view of a running gateway: the status snapshot and its
//! parts, the request lifecycle events and the bounded log that keeps the
//! latest of them, and the plain-text rendering the CLI prints.

use vstd::prelude::*;
use crate::anthropic::ModelInfo;
use crate::tracker::RequestTracker;
use crate::text::{copy_string, str_eq, decimal, join, opt_view, push_decimal, push_joined, push_str, strings_view, to_string};

verus! {

pub struct BuildInfo {
    pub version: String,
    pub git_sha: Option<String>,
    pub features: Vec<String>,
}

pub struct ServerInfo {
    pub version: String,
    pub git_sha: Option<String>,
    pub uptime_s: u64,
    pub bind: String,
    pub features: Vec<String>,
}

pub struct Gpu {
    pub id: u32,
    pub name: String,
    pub budget_mb: u64,
    pub reserved_mb: u64,
    pub free_mb: u64,
    pub models: Vec<String>,
}

pub struct Model {
    pub id: String,
    pub backend: String,
    pub state: String,
    pub pinned: bool,
    pub lazy: bool,
    pub vram_mb: Option<u64>,
    pub gpus: Vec<u32>,
    pub in_flight: u64,
    pub last_used_s: Option<u64>,
}

pub struct Route {
    pub id: String,
    pub rules: Vec<RouteRule>,
    pub fallback_count: u64,
}

pub struct RouteRule {
    pub name: String,
    pub hit_count: u64,
    pub targets: Vec<String>,
}

pub struct RecentRollup {
    pub requests_last_60s: u64,
    pub errors_last_60s: u64,
    pub ttft_p50_ms: Option<u64>,
    pub ttft_p95_ms: Option<u64>,
}

pub struct Status {
    pub server: ServerInfo,
    pub gpus: Vec<Gpu>,
    pub models: Vec<Model>,
    pub in_flight_total: u64,
    pub recent: RecentRollup,
}

// ---------------------------------------------------------------------
// Rendering
// ---------------------------------------------------------------------

/// An uptime as the CLI shows it: hours and minutes from an hour on,
/// minutes and seconds from a minute on, else seconds.
pub open spec fn uptime_text(secs: u64) -> Seq<char> {
    let h = secs / 3600;
    let m = (secs % 3600) / 60;
    let s = secs % 60;
    if h > 0 {
        decimal(h as nat) + "h "@ + decimal(m as nat) + "m"@
    } else if m > 0 {
        decimal(m as nat) + "m "@ + decimal(s as nat) + "s"@
    } else {
        decimal(s as nat) + "s"@
    }
}

pub fn format_uptime(secs: u64) -> (r: String)
    ensures
        r@ == uptime_text(secs),
{
    let h = secs / 3600;
    let m = (secs % 3600) / 60;
    let s = secs % 60;
    let mut r = String::new();
    if h > 0 {
        push_decimal(&mut r, h);
        push_str(&mut r, "h ");
        push_decimal(&mut r, m);
        push_str(&mut r, "m");
    } else if m > 0 {
        push_decimal(&mut r, m);
        push_str(&mut r, "m ");
        push_decimal(&mut r, s);
        push_str(&mut r, "s");
    } else {
        push_decimal(&mut r, s);
        push_str(&mut r, "s");
    }
    r
}

/// `n` spaces.
pub open spec fn spaces(n: int) -> Seq<char> {
    Seq::new(if n > 0 { n as nat } else { 0 }, |i: int| ' ')
}

/// `s` left-aligned in a field of `w` characters (`{:<w}`).
pub open spec fn pad_right(s: Seq<char>, w: int) -> Seq<char> {
    s + spaces(w - s.len())
}

/// `s` right-aligned in a field of `w` characters (`{:>w}`).
pub open spec fn pad_left(s: Seq<char>, w: int) -> Seq<char> {
    spaces(w - s.len()) + s
}

fn push_spaces(out: &mut String, n: usize)
    ensures
        final(out)@ == old(out)@ + spaces(n as int),
{
    let mut i: usize = 0;
    while i < n
        invariant
            i <= n,
            out@ == old(out)@ + spaces(i as int),
        decreases n - i,
    {
        out.push(' ');
        i = i + 1;
        assert(out@ =~= old(out)@ + spaces(i as int));
    }
}

pub(crate) fn push_padded_right(out: &mut String, s: &str, w: usize)
    ensures
        final(out)@ == old(out)@ + pad_right(s@, w as int),
{
    let n = s.unicode_len();
    push_str(out, s);
    if n < w {
        push_spaces(out, w - n);
    } else {
        assert(spaces(w - n) =~= Seq::<char>::empty());
    }
    assert(out@ =~= old(out)@ + pad_right(s@, w as int));
}

pub(crate) fn push_padded_left(out: &mut String, s: &str, w: usize)
    ensures
        final(out)@ == old(out)@ + pad_left(s@, w as int),
{
    let n = s.unicode_len();
    if n < w {
        push_spaces(out, w - n);
    } else {
        assert(spaces(w - n) =~= Seq::<char>::empty());
    }
    push_str(out, s);
    assert(out@ =~= old(out)@ + pad_left(s@, w as int));
}

pub open spec fn gpu_line(g: Gpu) -> Seq<char> {
    "    ["@ + decimal(g.id as nat) + "] "@ + pad_right(g.name@, 24) + "  "@ + pad_left(decimal(g.free_mb as nat), 5)
        + " / "@ + pad_left(decimal(g.budget_mb as nat), 5) + " MB free\n"@
}

pub open spec fn model_line(m: Model) -> Seq<char> {
    "    "@ + pad_right(m.id@, 24) + " "@ + pad_right(m.backend@, 10) + " "@ + pad_right(m.state@, 10)
        + " in-flight="@ + decimal(m.in_flight as nat) + "\n"@
}

pub open spec fn gpu_lines(gs: Seq<Gpu>) -> Seq<char>
    decreases gs.len(),
{
    if gs.len() == 0 { Seq::empty() } else { gpu_lines(gs.drop_last()) + gpu_line(gs.last()) }
}

pub open spec fn model_lines(ms: Seq<Model>) -> Seq<char>
    decreases ms.len(),
{
    if ms.len() == 0 { Seq::empty() } else { model_lines(ms.drop_last()) + model_line(ms.last()) }
}

pub open spec fn features_text(fs: Seq<Seq<char>>) -> Seq<char> {
    if fs.len() == 0 { "\u{2014}"@ } else { join(fs, ", "@) }
}

pub open spec fn ttft_text(r: RecentRollup) -> Seq<char> {
    match (r.ttft_p50_ms, r.ttft_p95_ms) {
        (Some(p50), Some(p95)) => "  \u{b7}  TTFT p50 "@ + decimal(p50 as nat) + "ms  p95 "@ + decimal(p95 as nat) + "ms"@,
        _ => Seq::empty(),
    }
}

/// The status as the CLI prints it: a header with version, bind address
/// and uptime, the features, the load summary, then one line per GPU and
/// one per model (or a placeholder when there are none).
pub open spec fn status_text(s: Status) -> Seq<char> {
    "flarion "@ + s.server.version@ + " @ "@ + s.server.bind@ + "  (up "@ + uptime_text(s.server.uptime_s) + ")\n"@
        + "  features: "@ + features_text(strings_view(s.server.features@)) + "\n"@
        + "\n  in-flight: "@ + decimal(s.in_flight_total as nat) + "  \u{b7}  60s: "@
        + decimal(s.recent.requests_last_60s as nat) + " req, "@ + decimal(s.recent.errors_last_60s as nat) + " err"@
        + ttft_text(s.recent)
        + "\n\n  GPUs:\n"@
        + (if s.gpus@.len() == 0 { "    (none)\n"@ } else { gpu_lines(s.gpus@) })
        + "\n  Models:\n"@
        + (if s.models@.len() == 0 { "    (none configured)\n"@ } else { model_lines(s.models@) })
}

fn push_gpu_line(out: &mut String, g: &Gpu)
    ensures
        final(out)@ == old(out)@ + gpu_line(*g),
{
    push_str(out, "    [");
    push_decimal(out, g.id as u64);
    push_str(out, "] ");
    push_padded_right(out, g.name.as_str(), 24);
    push_str(out, "  ");
    let free = crate::text::decimal_string(g.free_mb);
    push_padded_left(out, free.as_str(), 5);
    push_str(out, " / ");
    let budget = crate::text::decimal_string(g.budget_mb);
    push_padded_left(out, budget.as_str(), 5);
    push_str(out, " MB free\n");
    assert(out@ =~= old(out)@ + gpu_line(*g));
}

fn push_model_line(out: &mut String, m: &Model)
    ensures
        final(out)@ == old(out)@ + model_line(*m),
{
    push_str(out, "    ");
    push_padded_right(out, m.id.as_str(), 24);
    push_str(out, " ");
    push_padded_right(out, m.backend.as_str(), 10);
    push_str(out, " ");
    push_padded_right(out, m.state.as_str(), 10);
    push_str(out, " in-flight=");
    push_decimal(out, m.in_flight);
    push_str(out, "\n");
    assert(out@ =~= old(out)@ + model_line(*m));
}

fn push_gpu_lines(out: &mut String, gs: &Vec<Gpu>)
    ensures
        final(out)@ == old(out)@ + gpu_lines(gs@),
{
    let mut i: usize = 0;
    while i < gs.len()
        invariant
            i <= gs@.len(),
            out@ == old(out)@ + gpu_lines(gs@.subrange(0, i as int)),
        decreases gs@.len() - i,
    {
        push_gpu_line(out, &gs[i]);
        assert(gs@.subrange(0, i + 1).drop_last() =~= gs@.subrange(0, i as int));
        i = i + 1;
        assert(out@ =~= old(out)@ + gpu_lines(gs@.subrange(0, i as int)));
    }
    assert(gs@.subrange(0, gs@.len() as int) =~= gs@);
}

fn push_model_lines(out: &mut String, ms: &Vec<Model>)
    ensures
        final(out)@ == old(out)@ + model_lines(ms@),
{
    let mut i: usize = 0;
    while i < ms.len()
        invariant
            i <= ms@.len(),
            out@ == old(out)@ + model_lines(ms@.subrange(0, i as int)),
        decreases ms@.len() - i,
    {
        push_model_line(out, &ms[i]);
        assert(ms@.subrange(0, i + 1).drop_last() =~= ms@.subrange(0, i as int));
        i = i + 1;
        assert(out@ =~= old(out)@ + model_lines(ms@.subrange(0, i as int)));
    }
    assert(ms@.subrange(0, ms@.len() as int) =~= ms@);
}

fn push_header(out: &mut String, s: &Status)
    ensures
        final(out)@ == old(out)@ + "flarion "@ + s.server.version@ + " @ "@ + s.server.bind@ + "  (up "@
            + uptime_text(s.server.uptime_s) + ")\n"@ + "  features: "@
            + features_text(strings_view(s.server.features@)) + "\n"@,
{
    push_str(out, "flarion ");
    push_str(out, s.server.version.as_str());
    push_str(out, " @ ");
    push_str(out, s.server.bind.as_str());
    push_str(out, "  (up ");
    let up = format_uptime(s.server.uptime_s);
    push_str(out, up.as_str());
    push_str(out, ")\n");
    push_str(out, "  features: ");
    if s.server.features.len() == 0 {
        push_str(out, "\u{2014}");
    } else {
        push_joined(out, &s.server.features, ", ");
    }
    push_str(out, "\n");
}

fn push_summary(out: &mut String, s: &Status)
    ensures
        final(out)@ == old(out)@ + "\n  in-flight: "@ + decimal(s.in_flight_total as nat) + "  \u{b7}  60s: "@
            + decimal(s.recent.requests_last_60s as nat) + " req, "@ + decimal(s.recent.errors_last_60s as nat)
            + " err"@ + ttft_text(s.recent),
{
    push_str(out, "\n  in-flight: ");
    push_decimal(out, s.in_flight_total);
    push_str(out, "  \u{b7}  60s: ");
    push_decimal(out, s.recent.requests_last_60s);
    push_str(out, " req, ");
    push_decimal(out, s.recent.errors_last_60s);
    push_str(out, " err");
    let ghost before = out@;
    match (s.recent.ttft_p50_ms, s.recent.ttft_p95_ms) {
        (Some(p50), Some(p95)) => {
            push_str(out, "  \u{b7}  TTFT p50 ");
            push_decimal(out, p50);
            push_str(out, "ms  p95 ");
            push_decimal(out, p95);
            push_str(out, "ms");
            assert(out@ =~= before + ttft_text(s.recent));
        },
        _ => {
            assert(out@ =~= before + ttft_text(s.recent));
        },
    }
}

/// Render a status snapshot for the terminal.
pub fn render_human(s: &Status) -> (r: String)
    ensures
        r@ == status_text(*s),
{
    let mut out = String::new();
    push_header(&mut out, s);
    push_summary(&mut out, s);
    push_str(&mut out, "\n\n  GPUs:\n");
    if s.gpus.len() == 0 {
        push_str(&mut out, "    (none)\n");
    } else {
        push_gpu_lines(&mut out, &s.gpus);
    }
    push_str(&mut out, "\n  Models:\n");
    if s.models.len() == 0 {
        push_str(&mut out, "    (none configured)\n");
    } else {
        push_model_lines(&mut out, &s.models);
    }
    assert(out@ =~= status_text(*s));
    out
}

// ---------------------------------------------------------------------
// Model listings
// ---------------------------------------------------------------------

/// The first model with the given id.
pub fn find_model<'a>(models: &'a Vec<Model>, id: &str) -> (r: Option<&'a Model>)
    ensures
        match r {
            Some(m) => exists|i: int| 0 <= i < models@.len() && models@[i] == *m && m.id@ == id@
                && forall|j: int| 0 <= j < i ==> (#[trigger] models@[j]).id@ != id@,
            None => forall|j: int| 0 <= j < models@.len() ==> (#[trigger] models@[j]).id@ != id@,
        },
{
    let mut i: usize = 0;
    while i < models.len()
        invariant
            i <= models@.len(),
            forall|j: int| 0 <= j < i ==> (#[trigger] models@[j]).id@ != id@,
        decreases models@.len() - i,
    {
        if crate::text::str_eq(models[i].id.as_str(), id) {
            return Some(&models[i]);
        }
        i = i + 1;
    }
    None
}

/// A model's VRAM figure as shown in detail views: the number, or an
/// em dash when unknown.
pub open spec fn vram_text(v: Option<u64>) -> Seq<char> {
    match v {
        Some(n) => decimal(n as nat),
        None => "\u{2014}"@,
    }
}

pub fn vram_display(m: &Model) -> (r: String)
    ensures
        r@ == vram_text(m.vram_mb),
{
    match m.vram_mb {
        Some(n) => crate::text::decimal_string(n),
        None => to_string("\u{2014}"),
    }
}

/// The device ids, comma-separated.
pub open spec fn ids_csv(ids: Seq<u32>) -> Seq<char>
    decreases ids.len(),
{
    if ids.len() == 0 {
        Seq::empty()
    } else if ids.len() == 1 {
        decimal(ids[0] as nat)
    } else {
        ids_csv(ids.drop_last()) + ","@ + decimal(ids.last() as nat)
    }
}

/// A model's devices as shown in detail views: comma-separated, or an
/// em dash when it has none.
pub open spec fn gpus_text(ids: Seq<u32>) -> Seq<char> {
    if ids.len() == 0 { "\u{2014}"@ } else { ids_csv(ids) }
}

pub fn gpus_display(m: &Model) -> (r: String)
    ensures
        r@ == gpus_text(m.gpus@),
{
    if m.gpus.len() == 0 {
        return to_string("\u{2014}");
    }
    let mut r = String::new();
    let mut i: usize = 0;
    while i < m.gpus.len()
        invariant
            i <= m.gpus@.len(),
            r@ == ids_csv(m.gpus@.subrange(0, i as int)),
        decreases m.gpus@.len() - i,
    {
        if i > 0 {
            push_str(&mut r, ",");
        }
        push_decimal(&mut r, m.gpus[i] as u64);
        let ghost next = m.gpus@.subrange(0, i + 1);
        assert(next.drop_last() =~= m.gpus@.subrange(0, i as int));
        if i == 0 {
            assert(r@ =~= ids_csv(next));
        }
        i = i + 1;
    }
    assert(m.gpus@.subrange(0, m.gpus@.len() as int) =~= m.gpus@);
    r
}

// ---------------------------------------------------------------------
// Snapshots
// ---------------------------------------------------------------------

/// A provider whose models run elsewhere.
pub open spec fn remote_provider(p: Seq<char>) -> bool {
    p == "openai"@ || p == "groq"@ || p == "anthropic"@
}

/// A model's state as the admin API reports it.
pub open spec fn model_state(info: ModelInfo) -> Seq<char> {
    if info.loaded {
        "loaded"@
    } else if remote_provider(info.provider@) {
        "remote"@
    } else {
        "unloaded"@
    }
}

/// The admin API's entry for a backend that reports `info`, with `in_flight`
/// requests under way; pinning, laziness and placement are not reported.
pub open spec fn model_entry_is(m: Model, info: ModelInfo, in_flight: u64) -> bool {
    &&& m.id@ == info.id@
    &&& m.backend@ == info.provider@
    &&& m.state@ == model_state(info)
    &&& !m.pinned
    &&& !m.lazy
    &&& m.vram_mb is None
    &&& m.gpus@.len() == 0
    &&& m.in_flight == in_flight
    &&& m.last_used_s is None
}

pub fn model_entry(info: &ModelInfo, in_flight: u64) -> (m: Model)
    ensures
        model_entry_is(m, *info, in_flight),
{
    let remote = str_eq(info.provider.as_str(), "openai") || str_eq(info.provider.as_str(), "groq")
        || str_eq(info.provider.as_str(), "anthropic");
    let state = if info.loaded {
        "loaded"
    } else if remote {
        "remote"
    } else {
        "unloaded"
    };
    Model {
        id: copy_string(&info.id),
        backend: copy_string(&info.provider),
        state: to_string(state),
        pinned: false,
        lazy: false,
        vram_mb: None,
        gpus: Vec::new(),
        in_flight,
        last_used_s: None,
    }
}

/// The models section of the status: one entry per backend, in the order
/// the registry lists them, with the tracker's in-flight count.
pub fn model_snapshot(infos: &Vec<ModelInfo>, tracker: &RequestTracker) -> (r: Vec<Model>)
    ensures
        r@.len() == infos@.len(),
        forall|i: int| 0 <= i < infos@.len() ==> model_entry_is(
            #[trigger] r@[i],
            infos@[i],
            tracker.count(infos@[i].id@) as u64,
        ),
{
    let mut r: Vec<Model> = Vec::new();
    let mut i: usize = 0;
    while i < infos.len()
        invariant
            i <= infos@.len(),
            r@.len() == i,
            forall|k: int| 0 <= k < i ==> model_entry_is(#[trigger] r@[k], infos@[k], tracker.count(infos@[k].id@) as u64),
        decreases infos@.len() - i,
    {
        let n = tracker.in_flight(infos[i].id.as_str());
        r.push(model_entry(&infos[i], n));
        i = i + 1;
    }
    r
}

/// One mebibyte.
pub const MIB: u64 = 1_048_576;

/// The admin API's entry for device `id`: its memory in MB (rounded down),
/// the used part being `total - free` as the driver counts it, for every
/// process on the device (wrapping, should the driver report more free than
/// total).
pub open spec fn gpu_entry_is(g: Gpu, id: u32, name: Seq<char>, total: u64, free: u64) -> bool {
    &&& g.id == id
    &&& g.name@ == name
    &&& g.budget_mb == total / MIB
    &&& g.reserved_mb == total.wrapping_sub(free) / MIB
    &&& g.free_mb == free / MIB
    &&& g.models@.len() == 0
}

pub fn gpu_entry(id: u32, name: String, total: u64, free: u64) -> (g: Gpu)
    ensures
        gpu_entry_is(g, id, name@, total, free),
{
    Gpu {
        id,
        name,
        budget_mb: total / MIB,
        reserved_mb: total.wrapping_sub(free) / MIB,
        free_mb: free / MIB,
        models: Vec::new(),
    }
}

/// An entry made from some reading of the device's name and memory.
pub open spec fn gpu_readable(g: Gpu) -> bool {
    exists|name: Seq<char>, total: u64, free: u64| #[trigger] gpu_entry_is(g, g.id, name, total, free)
}

/// The GPUs section of the status, from NVML: one entry per device whose
/// memory can be read, in device order; none when NVML is unavailable.
pub fn gpu_snapshot() -> (r: Vec<Gpu>)
    ensures
        forall|i: int, j: int| 0 <= i < j < r@.len() ==> (#[trigger] r@[i]).id < (#[trigger] r@[j]).id,
        forall|i: int| 0 <= i < r@.len() ==> gpu_readable(#[trigger] r@[i]),
{
    let mut r: Vec<Gpu> = Vec::new();
    let nvml = match crate::vram_detect::nvml_init() {
        Ok(n) => n,
        Err(_) => return r,
    };
    let count = match crate::vram_detect::nvml_device_count(&nvml) {
        Ok(c) => c,
        Err(_) => 0,
    };
    let mut i: u32 = 0;
    while i < count
        invariant
            i <= count,
            forall|a: int, b: int| 0 <= a < b < r@.len() ==> (#[trigger] r@[a]).id < (#[trigger] r@[b]).id,
            forall|a: int| 0 <= a < r@.len() ==> r@[a].id < i,
            forall|a: int| 0 <= a < r@.len() ==> gpu_readable(#[trigger] r@[a]),
        decreases count - i,
    {
        if let Ok(dev) = crate::vram_detect::nvml_device_by_index(&nvml, i) {
            if let Ok((total, free)) = crate::vram_detect::nvml_memory_info(&dev) {
                let name = match crate::vram_detect::nvml_device_name(&dev) {
                    Ok(n) => n,
                    Err(_) => {
                        let mut n = to_string("GPU ");
                        push_decimal(&mut n, i as u64);
                        n
                    },
                };
                let ghost nm = name@;
                let g = gpu_entry(i, name, total, free);
                assert(gpu_entry_is(g, g.id, nm, total, free));
                r.push(g);
            }
        }
        i = i + 1;
    }
    r
}

/// The routes section of the status: not reported yet, so always empty.
pub fn route_snapshot() -> (r: Vec<Route>)
    ensures
        r@.len() == 0,
{
    Vec::new()
}

} // verus!
