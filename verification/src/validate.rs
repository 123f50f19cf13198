//! Startup validation of a `FlarionConfig`. Errors are reported in a fixed
//! order: model declarations, routes, CORS origins, the metrics listener,
//! per-model placement options, VRAM budgets, and finally the eager and
//! pinned VRAM totals per device.

use vstd::prelude::*;
use crate::config::{
    BackendType, ConfigError, ConfigIssue, FlarionConfig, Issue, ModelConfig, RouteConfig, RuleConfig,
    AdapterConfig, VramBudgetSetting,
};
use crate::scheduling::{estimate_from_len, estimate_vram_mb, share, EstimateError, Placement, ResolvedPlacement};
use crate::text::{blank, is_blank, str_eq, opt_view, to_string};
use crate::upstream::{provider_default, provider_default_base_url, upstream_issue, url_parse, validate_upstream_url, parse_url};
use crate::vram_detect::{VramInfo, VramDetectError};

verus! {

/// What the host's filesystem says about a model's `path`.
pub struct PathFacts {
    /// `Path::is_file` on the model's path.
    pub is_file: bool,
    /// The file size in bytes from the path's metadata, or the error message.
    pub len: Result<u64, String>,
}

/// Facts about the host that validation needs and cannot compute itself.
pub struct HostFacts {
    /// One entry per configured model, in order.
    pub model_files: Vec<PathFacts>,
    /// Whether `[metrics].bind` parses as a socket address.
    pub metrics_bind_valid: bool,
}

// ---------------------------------------------------------------------
// First-match helper
// ---------------------------------------------------------------------

/// The least index below `n` satisfying `p`, if any.
pub open spec fn first_index(n: int, p: spec_fn(int) -> bool) -> Option<int> {
    if exists|i: int| 0 <= i < n && #[trigger] p(i) {
        Some(choose|i: int| 0 <= i < n && #[trigger] p(i) && forall|j: int| 0 <= j < i ==> !#[trigger] p(j))
    } else {
        None
    }
}

proof fn lemma_least_exists(n: int, p: spec_fn(int) -> bool, k: int)
    requires
        0 <= k < n,
        p(k),
    ensures
        exists|i: int| 0 <= i < n && #[trigger] p(i) && forall|j: int| 0 <= j < i ==> !#[trigger] p(j),
    decreases k,
{
    if exists|j: int| 0 <= j < k && #[trigger] p(j) {
        let j = choose|j: int| 0 <= j < k && #[trigger] p(j);
        lemma_least_exists(n, p, j);
    }
}

pub proof fn lemma_first_index_is(n: int, p: spec_fn(int) -> bool, i: int)
    requires
        0 <= i < n,
        p(i),
        forall|j: int| 0 <= j < i ==> !#[trigger] p(j),
    ensures
        first_index(n, p) == Some(i),
{
    lemma_least_exists(n, p, i);
    let k = choose|k: int| 0 <= k < n && #[trigger] p(k) && forall|j: int| 0 <= j < k ==> !#[trigger] p(j);
    if k < i {
        assert(!p(k));
    }
    if k > i {
        assert(!p(i));
    }
}

pub proof fn lemma_first_index_none(n: int, p: spec_fn(int) -> bool)
    requires
        forall|j: int| 0 <= j < n ==> !#[trigger] p(j),
    ensures
        first_index(n, p) is None,
{
}

pub proof fn lemma_first_index_some(n: int, p: spec_fn(int) -> bool)
    requires
        first_index(n, p) is Some,
    ensures
        0 <= first_index(n, p)->0 < n,
        p(first_index(n, p)->0),
        forall|j: int| 0 <= j < first_index(n, p)->0 ==> !#[trigger] p(j),
{
    let i = choose|i: int| 0 <= i < n && #[trigger] p(i);
    lemma_least_exists(n, p, i);
}

// ---------------------------------------------------------------------
// Outside checks
// ---------------------------------------------------------------------

/// The message of the error `regex::Regex::new` returns for a pattern, or
/// `None` when the pattern compiles. A function of the pattern alone.
pub uninterp spec fn regex_error(pattern: Seq<char>) -> Option<Seq<char>>;

/// `regex::Regex::new`: compiles a pattern; returns the error's message
/// when compilation fails.
#[verifier::external_body]
fn regex_check(pattern: &str) -> (r: Option<String>)
    ensures
        opt_view(r) == regex_error(pattern@),
{
    regex::Regex::new(pattern).err().map(|e| e.to_string())
}

// ---------------------------------------------------------------------
// Model declarations
// ---------------------------------------------------------------------

pub open spec fn is_cloud(b: BackendType) -> bool {
    b == BackendType::Openai || b == BackendType::Groq || b == BackendType::Anthropic
}

/// The first HF-only field set on a model, by name.
pub open spec fn hf_field(m: ModelConfig) -> Option<Seq<char>> {
    if m.repo is Some {
        Some("repo"@)
    } else if m.revision is Some {
        Some("revision"@)
    } else if m.dtype is Some {
        Some("dtype"@)
    } else if m.hf_token_env is Some {
        Some("hf_token_env"@)
    } else if m.adapters@.len() > 0 {
        Some("adapters"@)
    } else {
        None
    }
}

pub open spec fn adapter_issue(id: Seq<char>, a: AdapterConfig, index: int) -> Option<Issue> {
    if a.path is Some && a.repo is Some {
        Some(ConfigIssue::HfAdapterPathAndRepoExclusive { id, index: index as usize })
    } else if a.path is None && a.repo is None {
        Some(ConfigIssue::HfAdapterNeedsPathOrRepo { id, index: index as usize })
    } else {
        None
    }
}

/// The URL a cloud model's requests go to: `base_url`, else the
/// provider's default.
pub open spec fn effective_url(m: ModelConfig) -> Seq<char> {
    match m.base_url {
        Some(u) => u@,
        None => provider_default(m.backend)->0,
    }
}

pub open spec fn local_issue(m: ModelConfig, pf: PathFacts) -> Option<Issue> {
    if hf_field(m) is Some {
        Some(ConfigIssue::HfFieldOnNonHfBackend { id: m.id@, field: hf_field(m)->0 })
    } else if m.path is None {
        Some(ConfigIssue::LocalBackendNeedsPath { id: m.id@ })
    } else if !pf.is_file {
        Some(ConfigIssue::ModelPathMissing { id: m.id@, path: m.path->0@ })
    } else {
        None
    }
}

pub open spec fn cloud_issue(m: ModelConfig, allow_plaintext: bool) -> Option<Issue> {
    if hf_field(m) is Some {
        Some(ConfigIssue::HfFieldOnNonHfBackend { id: m.id@, field: hf_field(m)->0 })
    } else if m.path is Some {
        Some(ConfigIssue::PathOnCloudBackend { id: m.id@ })
    } else if m.api_key is None || blank(m.api_key->0@) {
        Some(ConfigIssue::CloudBackendNeedsApiKey { id: m.id@ })
    } else {
        upstream_issue(m.id@, effective_url(m), allow_plaintext)
    }
}

pub open spec fn hf_issue(m: ModelConfig) -> Option<Issue> {
    if m.path is Some && m.repo is Some {
        Some(ConfigIssue::HfBackendPathAndRepoExclusive { id: m.id@ })
    } else if m.path is None && m.repo is None {
        Some(ConfigIssue::HfBackendNeedsPathOrRepo { id: m.id@ })
    } else {
        adapters_issue(m.id@, m.adapters@)
    }
}

/// The first adapter that sets both or neither of `path` and `repo`.
pub open spec fn adapters_issue(id: Seq<char>, adapters: Seq<AdapterConfig>) -> Option<Issue> {
    match first_index(adapters.len() as int, |k: int| adapter_issue(id, adapters[k], k) is Some) {
        Some(k) => adapter_issue(id, adapters[k], k),
        None => None,
    }
}

/// The backend-specific problem of one model declaration, if any.
pub open spec fn model_issue(m: ModelConfig, pf: PathFacts, allow_plaintext: bool) -> Option<Issue> {
    if m.backend == BackendType::Local {
        local_issue(m, pf)
    } else if is_cloud(m.backend) {
        cloud_issue(m, allow_plaintext)
    } else {
        hf_issue(m)
    }
}

pub open spec fn ids_dup_at(ms: Seq<ModelConfig>, i: int) -> bool {
    exists|j: int| 0 <= j < i && #[trigger] ms[j].id@ == ms[i].id@
}

/// Problems with the model declarations: none declared, an empty id, a
/// duplicate id, then the first model with a backend-specific problem.
pub open spec fn models_issue(c: FlarionConfig, f: HostFacts) -> Option<Issue> {
    let ms = c.models@;
    if ms.len() == 0 {
        Some(ConfigIssue::NoModelsConfigured)
    } else if first_index(ms.len() as int, |i: int| blank(ms[i].id@)) is Some {
        Some(ConfigIssue::EmptyModelId)
    } else if first_index(ms.len() as int, |i: int| ids_dup_at(ms, i)) is Some {
        let i = first_index(ms.len() as int, |i: int| ids_dup_at(ms, i))->0;
        Some(ConfigIssue::DuplicateModelId { id: ms[i].id@ })
    } else {
        match first_index(ms.len() as int, model_bad(c, f)) {
            Some(i) => model_issue(ms[i], f.model_files@[i], c.server.allow_plaintext_upstream),
            None => None,
        }
    }
}

/// Model `i` has a backend-specific problem.
pub open spec fn model_bad(c: FlarionConfig, f: HostFacts) -> spec_fn(int) -> bool {
    |i: int| model_issue(c.models@[i], f.model_files@[i], c.server.allow_plaintext_upstream) is Some
}

pub open spec fn issue_post(expected: Option<Issue>, r: Result<(), ConfigError>) -> bool {
    match expected {
        None => r is Ok,
        Some(i) => r matches Err(e) && e.issue() == i,
    }
}

fn reject_hf_fields_on_non_hf(m: &ModelConfig) -> (r: Result<(), ConfigError>)
    ensures
        issue_post(
            match hf_field(*m) {
                Some(fld) => Some(ConfigIssue::HfFieldOnNonHfBackend { id: m.id@, field: fld }),
                None => None,
            },
            r,
        ),
{
    let field = if m.repo.is_some() {
        "repo"
    } else if m.revision.is_some() {
        "revision"
    } else if m.dtype.is_some() {
        "dtype"
    } else if m.hf_token_env.is_some() {
        "hf_token_env"
    } else if m.adapters.len() > 0 {
        "adapters"
    } else {
        return Ok(());
    };
    Err(ConfigError::HfFieldOnNonHfBackend { id: m.id.clone(), field: to_string(field) })
}

fn check_local(m: &ModelConfig, pf: &PathFacts) -> (r: Result<(), ConfigError>)
    ensures
        issue_post(local_issue(*m, *pf), r),
{
    reject_hf_fields_on_non_hf(m)?;
    match &m.path {
        None => Err(ConfigError::LocalBackendNeedsPath { id: m.id.clone() }),
        Some(path) => {
            if !pf.is_file {
                return Err(ConfigError::ModelPathMissing { id: m.id.clone(), path: path.clone() });
            }
            Ok(())
        },
    }
}

fn check_cloud(m: &ModelConfig, allow_plaintext: bool) -> (r: Result<(), ConfigError>)
    requires
        is_cloud(m.backend),
    ensures
        issue_post(cloud_issue(*m, allow_plaintext), r),
{
    reject_hf_fields_on_non_hf(m)?;
    if m.path.is_some() {
        return Err(ConfigError::PathOnCloudBackend { id: m.id.clone() });
    }
    match &m.api_key {
        None => return Err(ConfigError::CloudBackendNeedsApiKey { id: m.id.clone() }),
        Some(k) => {
            if is_blank(k.as_str()) {
                return Err(ConfigError::CloudBackendNeedsApiKey { id: m.id.clone() });
            }
        },
    }
    let url: &str = match &m.base_url {
        Some(u) => u.as_str(),
        None => match provider_default_base_url(&m.backend) {
            Some(d) => d,
            None => {
                return Err(ConfigError::InvalidBaseUrl {
                    id: m.id.clone(),
                    reason: to_string("no base_url and no provider default"),
                });
            },
        },
    };
    validate_upstream_url(m.id.as_str(), url, allow_plaintext)
}

fn check_adapters(id: &String, adapters: &Vec<AdapterConfig>) -> (r: Result<(), ConfigError>)
    ensures
        issue_post(adapters_issue(id@, adapters@), r),
{
    let ghost p = |k: int| adapter_issue(id@, adapters@[k], k) is Some;
    let mut k: usize = 0;
    while k < adapters.len()
        invariant
            k <= adapters@.len(),
            p == (|k: int| adapter_issue(id@, adapters@[k], k) is Some),
            forall|j: int| 0 <= j < k ==> !#[trigger] p(j),
        decreases adapters@.len() - k,
    {
        let a = &adapters[k];
        if a.path.is_some() && a.repo.is_some() {
            proof { lemma_first_index_is(adapters@.len() as int, p, k as int); }
            return Err(ConfigError::HfAdapterPathAndRepoExclusive { id: id.clone(), index: k });
        }
        if a.path.is_none() && a.repo.is_none() {
            proof { lemma_first_index_is(adapters@.len() as int, p, k as int); }
            return Err(ConfigError::HfAdapterNeedsPathOrRepo { id: id.clone(), index: k });
        }
        k = k + 1;
    }
    proof { lemma_first_index_none(adapters@.len() as int, p); }
    Ok(())
}

fn check_hf(m: &ModelConfig) -> (r: Result<(), ConfigError>)
    ensures
        issue_post(hf_issue(*m), r),
{
    if m.path.is_some() && m.repo.is_some() {
        return Err(ConfigError::HfBackendPathAndRepoExclusive { id: m.id.clone() });
    }
    if m.path.is_none() && m.repo.is_none() {
        return Err(ConfigError::HfBackendNeedsPathOrRepo { id: m.id.clone() });
    }
    check_adapters(&m.id, &m.adapters)
}

fn check_model(m: &ModelConfig, pf: &PathFacts, allow_plaintext: bool) -> (r: Result<(), ConfigError>)
    ensures
        issue_post(model_issue(*m, *pf, allow_plaintext), r),
{
    match m.backend {
        BackendType::Local => check_local(m, pf),
        BackendType::Openai | BackendType::Groq | BackendType::Anthropic => check_cloud(m, allow_plaintext),
        BackendType::Hf => check_hf(m),
    }
}

/// Stage one: the model declarations.
#[verifier::loop_isolation(false)]
pub fn check_models(c: &FlarionConfig, f: &HostFacts) -> (r: Result<(), ConfigError>)
    requires
        f.model_files@.len() == c.models@.len(),
    ensures
        issue_post(models_issue(*c, *f), r),
{
    let ghost ms = c.models@;
    let n = c.models.len();
    if n == 0 {
        return Err(ConfigError::NoModelsConfigured);
    }
    let ghost p1 = |i: int| blank(ms[i].id@);
    let mut i: usize = 0;
    while i < n
        invariant
            n == ms.len(),
            ms == c.models@,
            i <= n,
            forall|j: int| 0 <= j < i ==> !#[trigger] p1(j),
            p1 == (|i: int| blank(ms[i].id@)),
        decreases n - i,
    {
        if is_blank(c.models[i].id.as_str()) {
            proof { lemma_first_index_is(n as int, p1, i as int); }
            return Err(ConfigError::EmptyModelId);
        }
        i = i + 1;
    }
    proof { lemma_first_index_none(n as int, p1); }
    let ghost p2 = |i: int| ids_dup_at(ms, i);
    let mut i: usize = 0;
    while i < n
        invariant
            n == ms.len(),
            ms == c.models@,
            i <= n,
            forall|j: int| 0 <= j < i ==> !#[trigger] p2(j),
            p2 == (|i: int| ids_dup_at(ms, i)),
        decreases n - i,
    {
        let mut j: usize = 0;
        while j < i
            invariant
                n == ms.len(),
                ms == c.models@,
                i < n,
                j <= i,
                forall|k: int| 0 <= k < j ==> ms[k].id@ != ms[i as int].id@,
            decreases i - j,
        {
            if str_eq(c.models[j].id.as_str(), c.models[i].id.as_str()) {
                proof {
                    assert(ms[j as int].id@ == ms[i as int].id@);
                    assert(p2(i as int));
                    lemma_first_index_is(n as int, p2, i as int);
                }
                return Err(ConfigError::DuplicateModelId { id: c.models[i].id.clone() });
            }
            j = j + 1;
        }
        i = i + 1;
    }
    proof { lemma_first_index_none(n as int, p2); }
    let ghost p3 = model_bad(*c, *f);
    let mut i: usize = 0;
    while i < n
        invariant
            n == ms.len(),
            ms == c.models@,
            f.model_files@.len() == n,
            i <= n,
            forall|j: int| 0 <= j < i ==> !#[trigger] p3(j),
            p3 == model_bad(*c, *f),
        decreases n - i,
    {
        let r = check_model(&c.models[i], &f.model_files[i], c.server.allow_plaintext_upstream);
        if r.is_err() {
            proof { lemma_first_index_is(n as int, p3, i as int); }
            return r;
        }
        i = i + 1;
    }
    proof { lemma_first_index_none(n as int, p3); }
    Ok(())
}


// ---------------------------------------------------------------------
// Routes, CORS origins, metrics listener
// ---------------------------------------------------------------------

pub open spec fn route_ids(c: FlarionConfig) -> Seq<Seq<char>> {
    c.routes@.map_values(|r: RouteConfig| r.id@)
}

pub open spec fn model_ids(c: FlarionConfig) -> Seq<Seq<char>> {
    c.models@.map_values(|m: ModelConfig| m.id@)
}

/// A rule target that names a route, or names no model.
pub open spec fn target_bad(c: FlarionConfig, t: Seq<char>) -> bool {
    route_ids(c).contains(t) || !model_ids(c).contains(t)
}

pub open spec fn rule_issue(c: FlarionConfig, route_id: Seq<char>, rule: RuleConfig) -> Option<Issue> {
    let ts = rule.targets@;
    if ts.len() == 0 {
        Some(ConfigIssue::RuleNoTargets { route_id, rule: rule.name@ })
    } else {
        match first_index(ts.len() as int, |k: int| target_bad(c, ts[k]@)) {
            Some(k) => if route_ids(c).contains(ts[k]@) {
                Some(ConfigIssue::RouteTargetsRoute { route_id, target: ts[k]@ })
            } else {
                Some(ConfigIssue::RouteTargetUnknown { route_id, target: ts[k]@ })
            },
            None => match rule.matchers.content_regex {
                Some(p) => match regex_error(p@) {
                    Some(e) => Some(ConfigIssue::InvalidRegex { route_id, rule: rule.name@, error: e }),
                    None => None,
                },
                None => None,
            },
        }
    }
}

pub open spec fn route_dup_at(rs: Seq<RouteConfig>, i: int) -> bool {
    exists|j: int| 0 <= j < i && #[trigger] rs[j].id@ == rs[i].id@
}

pub open spec fn rules_issue(c: FlarionConfig, route_id: Seq<char>, rules: Seq<RuleConfig>) -> Option<Issue> {
    match first_index(rules.len() as int, |k: int| rule_issue(c, route_id, rules[k]) is Some) {
        Some(k) => rule_issue(c, route_id, rules[k]),
        None => None,
    }
}

pub open spec fn has_catch_all(rules: Seq<RuleConfig>) -> bool {
    exists|k: int| 0 <= k < rules.len() && (#[trigger] rules[k]).matchers.spec_is_empty()
}

/// The problem of route `i`, if any.
pub open spec fn route_issue(c: FlarionConfig, i: int) -> Option<Issue> {
    let r = c.routes@[i];
    if blank(r.id@) {
        Some(ConfigIssue::RouteEmptyId)
    } else if route_dup_at(c.routes@, i) {
        Some(ConfigIssue::DuplicateRouteId { id: r.id@ })
    } else if model_ids(c).contains(r.id@) {
        Some(ConfigIssue::RouteIdCollision { id: r.id@ })
    } else if r.rules@.len() == 0 {
        Some(ConfigIssue::RouteNoRules { id: r.id@ })
    } else if rules_issue(c, r.id@, r.rules@) is Some {
        rules_issue(c, r.id@, r.rules@)
    } else if !has_catch_all(r.rules@) {
        Some(ConfigIssue::RouteNoCatchAll { id: r.id@ })
    } else {
        None
    }
}

pub open spec fn routes_issue(c: FlarionConfig) -> Option<Issue> {
    match first_index(c.routes@.len() as int, |i: int| route_issue(c, i) is Some) {
        Some(i) => route_issue(c, i),
        None => None,
    }
}

pub open spec fn cors_issue(c: FlarionConfig) -> Option<Issue> {
    let os = c.server.cors_origins@;
    match first_index(os.len() as int, |i: int| url_parse(os[i]@) is Err) {
        Some(i) => Some(ConfigIssue::InvalidCorsOrigin { origin: os[i]@ }),
        None => None,
    }
}

pub open spec fn metrics_issue(c: FlarionConfig, f: HostFacts) -> Option<Issue> {
    match c.metrics.bind {
        Some(a) => if f.metrics_bind_valid { None } else { Some(ConfigIssue::InvalidMetricsBind { addr: a@ }) },
        None => None,
    }
}

fn contains_id(v: &Vec<String>, t: &str) -> (r: bool)
    ensures
        r == crate::text::strings_view(v@).contains(t@),
{
    let mut i: usize = 0;
    while i < v.len()
        invariant
            i <= v@.len(),
            forall|j: int| 0 <= j < i ==> (#[trigger] v@[j])@ != t@,
        decreases v@.len() - i,
    {
        if str_eq(v[i].as_str(), t) {
            proof {
                assert(crate::text::strings_view(v@)[i as int] == t@);
            }
            return true;
        }
        i = i + 1;
    }
    proof {
        if crate::text::strings_view(v@).contains(t@) {
            let k = choose|k: int| 0 <= k < v@.len() && crate::text::strings_view(v@)[k] == t@;
            assert(v@[k]@ == t@);
        }
    }
    false
}

fn collect_model_ids(c: &FlarionConfig) -> (r: Vec<String>)
    ensures
        crate::text::strings_view(r@) == model_ids(*c),
{
    let mut r: Vec<String> = Vec::new();
    let mut i: usize = 0;
    while i < c.models.len()
        invariant
            i <= c.models@.len(),
            r@.len() == i,
            forall|k: int| 0 <= k < i ==> (#[trigger] r@[k])@ == c.models@[k].id@,
        decreases c.models@.len() - i,
    {
        r.push(c.models[i].id.clone());
        i = i + 1;
    }
    assert(crate::text::strings_view(r@) =~= model_ids(*c));
    r
}

fn collect_route_ids(c: &FlarionConfig) -> (r: Vec<String>)
    ensures
        crate::text::strings_view(r@) == route_ids(*c),
{
    let mut r: Vec<String> = Vec::new();
    let mut i: usize = 0;
    while i < c.routes.len()
        invariant
            i <= c.routes@.len(),
            r@.len() == i,
            forall|k: int| 0 <= k < i ==> (#[trigger] r@[k])@ == c.routes@[k].id@,
        decreases c.routes@.len() - i,
    {
        r.push(c.routes[i].id.clone());
        i = i + 1;
    }
    assert(crate::text::strings_view(r@) =~= route_ids(*c));
    r
}

fn check_rule(c: &FlarionConfig, model_ids_v: &Vec<String>, route_ids_v: &Vec<String>, route_id: &String, rule: &RuleConfig) -> (r: Result<(), ConfigError>)
    requires
        crate::text::strings_view(model_ids_v@) == model_ids(*c),
        crate::text::strings_view(route_ids_v@) == route_ids(*c),
    ensures
        issue_post(rule_issue(*c, route_id@, *rule), r),
{
    if rule.targets.len() == 0 {
        return Err(ConfigError::RuleNoTargets { route_id: route_id.clone(), rule: rule.name.clone() });
    }
    let ghost ts = rule.targets@;
    let ghost p = |k: int| target_bad(*c, ts[k]@);
    let mut k: usize = 0;
    while k < rule.targets.len()
        invariant
            ts == rule.targets@,
            p == (|k: int| target_bad(*c, ts[k]@)),
            crate::text::strings_view(model_ids_v@) == model_ids(*c),
            crate::text::strings_view(route_ids_v@) == route_ids(*c),
            k <= ts.len(),
            forall|j: int| 0 <= j < k ==> !#[trigger] p(j),
        decreases ts.len() - k,
    {
        let t = &rule.targets[k];
        if contains_id(route_ids_v, t.as_str()) {
            proof { lemma_first_index_is(ts.len() as int, p, k as int); }
            return Err(ConfigError::RouteTargetsRoute { route_id: route_id.clone(), target: t.clone() });
        }
        if !contains_id(model_ids_v, t.as_str()) {
            proof { lemma_first_index_is(ts.len() as int, p, k as int); }
            return Err(ConfigError::RouteTargetUnknown { route_id: route_id.clone(), target: t.clone() });
        }
        k = k + 1;
    }
    proof { lemma_first_index_none(ts.len() as int, p); }
    if let Some(pattern) = &rule.matchers.content_regex {
        if let Some(e) = regex_check(pattern.as_str()) {
            return Err(ConfigError::InvalidRegex { route_id: route_id.clone(), rule: rule.name.clone(), error: e });
        }
    }
    Ok(())
}

fn check_rules(c: &FlarionConfig, model_ids_v: &Vec<String>, route_ids_v: &Vec<String>, route_id: &String, rules: &Vec<RuleConfig>) -> (r: Result<(), ConfigError>)
    requires
        crate::text::strings_view(model_ids_v@) == model_ids(*c),
        crate::text::strings_view(route_ids_v@) == route_ids(*c),
    ensures
        issue_post(rules_issue(*c, route_id@, rules@), r),
{
    let ghost p = |k: int| rule_issue(*c, route_id@, rules@[k]) is Some;
    let mut k: usize = 0;
    while k < rules.len()
        invariant
            p == (|k: int| rule_issue(*c, route_id@, rules@[k]) is Some),
            crate::text::strings_view(model_ids_v@) == model_ids(*c),
            crate::text::strings_view(route_ids_v@) == route_ids(*c),
            k <= rules@.len(),
            forall|j: int| 0 <= j < k ==> !#[trigger] p(j),
        decreases rules@.len() - k,
    {
        let r = check_rule(c, model_ids_v, route_ids_v, route_id, &rules[k]);
        if r.is_err() {
            proof { lemma_first_index_is(rules@.len() as int, p, k as int); }
            return r;
        }
        k = k + 1;
    }
    proof { lemma_first_index_none(rules@.len() as int, p); }
    Ok(())
}

fn any_catch_all(rules: &Vec<RuleConfig>) -> (r: bool)
    ensures
        r == has_catch_all(rules@),
{
    let mut k: usize = 0;
    while k < rules.len()
        invariant
            k <= rules@.len(),
            forall|j: int| 0 <= j < k ==> !(#[trigger] rules@[j]).matchers.spec_is_empty(),
        decreases rules@.len() - k,
    {
        if rules[k].matchers.is_empty() {
            return true;
        }
        k = k + 1;
    }
    false
}

fn check_route(c: &FlarionConfig, model_ids_v: &Vec<String>, route_ids_v: &Vec<String>, i: usize) -> (r: Result<(), ConfigError>)
    requires
        i < c.routes@.len(),
        crate::text::strings_view(model_ids_v@) == model_ids(*c),
        crate::text::strings_view(route_ids_v@) == route_ids(*c),
    ensures
        issue_post(route_issue(*c, i as int), r),
{
    let route = &c.routes[i];
    if is_blank(route.id.as_str()) {
        return Err(ConfigError::RouteEmptyId);
    }
    let mut j: usize = 0;
    while j < i
        invariant
            i < c.routes@.len(),
            j <= i,
            route == c.routes@[i as int],
            !blank(route.id@),
            forall|k: int| 0 <= k < j ==> c.routes@[k].id@ != c.routes@[i as int].id@,
        decreases i - j,
    {
        if str_eq(c.routes[j].id.as_str(), route.id.as_str()) {
            proof { assert(c.routes@[j as int].id@ == c.routes@[i as int].id@); }
            return Err(ConfigError::DuplicateRouteId { id: route.id.clone() });
        }
        j = j + 1;
    }
    if contains_id(model_ids_v, route.id.as_str()) {
        return Err(ConfigError::RouteIdCollision { id: route.id.clone() });
    }
    if route.rules.len() == 0 {
        return Err(ConfigError::RouteNoRules { id: route.id.clone() });
    }
    check_rules(c, model_ids_v, route_ids_v, &route.id, &route.rules)?;
    if !any_catch_all(&route.rules) {
        return Err(ConfigError::RouteNoCatchAll { id: route.id.clone() });
    }
    Ok(())
}

/// Stage two: the routes.
pub fn check_routes(c: &FlarionConfig) -> (r: Result<(), ConfigError>)
    ensures
        issue_post(routes_issue(*c), r),
{
    let model_ids_v = collect_model_ids(c);
    let route_ids_v = collect_route_ids(c);
    let ghost p = |i: int| route_issue(*c, i) is Some;
    let mut i: usize = 0;
    while i < c.routes.len()
        invariant
            p == (|i: int| route_issue(*c, i) is Some),
            crate::text::strings_view(model_ids_v@) == model_ids(*c),
            crate::text::strings_view(route_ids_v@) == route_ids(*c),
            i <= c.routes@.len(),
            forall|j: int| 0 <= j < i ==> !#[trigger] p(j),
        decreases c.routes@.len() - i,
    {
        let r = check_route(c, &model_ids_v, &route_ids_v, i);
        if r.is_err() {
            proof { lemma_first_index_is(c.routes@.len() as int, p, i as int); }
            return r;
        }
        i = i + 1;
    }
    proof { lemma_first_index_none(c.routes@.len() as int, p); }
    Ok(())
}

/// Stage three: every CORS origin must parse as a URL.
pub fn check_cors(c: &FlarionConfig) -> (r: Result<(), ConfigError>)
    ensures
        issue_post(cors_issue(*c), r),
{
    let ghost os = c.server.cors_origins@;
    let ghost p = |i: int| url_parse(os[i]@) is Err;
    let mut i: usize = 0;
    while i < c.server.cors_origins.len()
        invariant
            os == c.server.cors_origins@,
            p == (|i: int| url_parse(os[i]@) is Err),
            i <= os.len(),
            forall|j: int| 0 <= j < i ==> !#[trigger] p(j),
        decreases os.len() - i,
    {
        let origin = &c.server.cors_origins[i];
        if parse_url(origin.as_str()).is_err() {
            proof { lemma_first_index_is(os.len() as int, p, i as int); }
            return Err(ConfigError::InvalidCorsOrigin { origin: origin.clone() });
        }
        i = i + 1;
    }
    proof { lemma_first_index_none(os.len() as int, p); }
    Ok(())
}

/// Stage four: a dedicated metrics listener must be a socket address.
pub fn check_metrics(c: &FlarionConfig, f: &HostFacts) -> (r: Result<(), ConfigError>)
    ensures
        issue_post(metrics_issue(*c, *f), r),
{
    match &c.metrics.bind {
        Some(addr) => if f.metrics_bind_valid {
            Ok(())
        } else {
            Err(ConfigError::InvalidMetricsBind { addr: addr.clone() })
        },
        None => Ok(()),
    }
}

// ---------------------------------------------------------------------
// Per-model placement options
// ---------------------------------------------------------------------

pub open spec fn gpu_dup_at(gs: Seq<u32>, k: int) -> bool {
    exists|j: int| 0 <= j < k && #[trigger] gs[j] == gs[k]
}

/// `lazy`, `vram_mb`, `pin` and `gpus` are local-only; a placement may
/// not name a device twice.
pub open spec fn capability_issue(m: ModelConfig) -> Option<Issue> {
    let local = m.backend == BackendType::Local;
    let gs = m.gpus@;
    if m.lazy && !local {
        Some(ConfigIssue::LazyOnlyForLocal { id: m.id@, backend: m.backend })
    } else if m.vram_mb is Some && !local {
        Some(ConfigIssue::VramMbOnlyForLocal { id: m.id@, backend: m.backend })
    } else if m.pin && !local {
        Some(ConfigIssue::PinOnlyForLocal { id: m.id@, backend: m.backend })
    } else if gs.len() > 0 && !local {
        Some(ConfigIssue::GpuIdOnCloudBackend { id: m.id@, gpus: gs, backend: m.backend })
    } else {
        match first_index(gs.len() as int, |k: int| gpu_dup_at(gs, k)) {
            Some(k) => Some(ConfigIssue::GpuIdDuplicated { model_id: m.id@, gpu_id: gs[k] }),
            None => None,
        }
    }
}

pub open spec fn capabilities_issue(c: FlarionConfig) -> Option<Issue> {
    let ms = c.models@;
    match first_index(ms.len() as int, |i: int| capability_issue(ms[i]) is Some) {
        Some(i) => capability_issue(ms[i]),
        None => None,
    }
}

#[verifier::loop_isolation(false)]
fn check_capability(m: &ModelConfig) -> (r: Result<(), ConfigError>)
    ensures
        issue_post(capability_issue(*m), r),
{
    let local = m.backend == BackendType::Local;
    if m.lazy && !local {
        return Err(ConfigError::LazyOnlyForLocal { id: m.id.clone(), backend: m.backend });
    }
    if m.vram_mb.is_some() && !local {
        return Err(ConfigError::VramMbOnlyForLocal { id: m.id.clone(), backend: m.backend });
    }
    if m.pin && !local {
        return Err(ConfigError::PinOnlyForLocal { id: m.id.clone(), backend: m.backend });
    }
    if m.gpus.len() > 0 && !local {
        return Err(ConfigError::GpuIdOnCloudBackend { id: m.id.clone(), gpus: m.gpus.clone(), backend: m.backend });
    }
    let ghost gs = m.gpus@;
    let ghost p = |k: int| gpu_dup_at(gs, k);
    let mut k: usize = 0;
    while k < m.gpus.len()
        invariant
            gs == m.gpus@,
            p == (|k: int| gpu_dup_at(gs, k)),
            k <= gs.len(),
            forall|j: int| 0 <= j < k ==> !#[trigger] p(j),
        decreases gs.len() - k,
    {
        let mut j: usize = 0;
        while j < k
            invariant
                gs == m.gpus@,
                p == (|k: int| gpu_dup_at(gs, k)),
                forall|q: int| 0 <= q < k ==> !#[trigger] p(q),
                k < gs.len(),
                j <= k,
                forall|q: int| 0 <= q < j ==> gs[q] != gs[k as int],
            decreases k - j,
        {
            if m.gpus[j] == m.gpus[k] {
                proof {
                    assert(gs[j as int] == gs[k as int]);
                    assert(p(k as int));
                    lemma_first_index_is(gs.len() as int, p, k as int);
                }
                return Err(ConfigError::GpuIdDuplicated { model_id: m.id.clone(), gpu_id: m.gpus[k] });
            }
            j = j + 1;
        }
        k = k + 1;
    }
    proof { lemma_first_index_none(gs.len() as int, p); }
    Ok(())
}

/// Stage five: local-only options and duplicate devices.
pub fn check_capabilities(c: &FlarionConfig) -> (r: Result<(), ConfigError>)
    ensures
        issue_post(capabilities_issue(*c), r),
{
    let ghost ms = c.models@;
    let ghost p = |i: int| capability_issue(ms[i]) is Some;
    let mut i: usize = 0;
    while i < c.models.len()
        invariant
            ms == c.models@,
            p == (|i: int| capability_issue(ms[i]) is Some),
            i <= ms.len(),
            forall|j: int| 0 <= j < i ==> !#[trigger] p(j),
        decreases ms.len() - i,
    {
        let r = check_capability(&c.models[i]);
        if r.is_err() {
            proof { lemma_first_index_is(ms.len() as int, p, i as int); }
            return r;
        }
        i = i + 1;
    }
    proof { lemma_first_index_none(ms.len() as int, p); }
    Ok(())
}

/// Everything that can be checked before budgets are resolved.
pub open spec fn static_issue(c: FlarionConfig, f: HostFacts) -> Option<Issue> {
    if models_issue(c, f) is Some {
        models_issue(c, f)
    } else if routes_issue(c) is Some {
        routes_issue(c)
    } else if cors_issue(c) is Some {
        cors_issue(c)
    } else if metrics_issue(c, f) is Some {
        metrics_issue(c, f)
    } else {
        capabilities_issue(c)
    }
}

pub fn check_static(c: &FlarionConfig, f: &HostFacts) -> (r: Result<(), ConfigError>)
    requires
        f.model_files@.len() == c.models@.len(),
    ensures
        issue_post(static_issue(*c, *f), r),
{
    check_models(c, f)?;
    check_routes(c)?;
    check_cors(c)?;
    check_metrics(c, f)?;
    check_capabilities(c)
}

// ---------------------------------------------------------------------
// Declared device count
// ---------------------------------------------------------------------

pub open spec fn max_with(acc: Option<u32>, s: Seq<u32>) -> Option<u32>
    decreases s.len(),
{
    if s.len() == 0 {
        acc
    } else {
        match max_with(acc, s.drop_last()) {
            None => Some(s.last()),
            Some(x) => Some(if s.last() > x { s.last() } else { x }),
        }
    }
}

/// The largest device id any model names.
pub open spec fn max_gpu(ms: Seq<ModelConfig>) -> Option<u32>
    decreases ms.len(),
{
    if ms.len() == 0 {
        None
    } else {
        max_with(max_gpu(ms.drop_last()), ms.last().gpus@)
    }
}

/// One past the largest device id named by any model, or 1 when no
/// model names a device.
pub open spec fn declared_count(c: FlarionConfig) -> u32 {
    match max_gpu(c.models@) {
        None => 1,
        Some(m) => (m + 1) as u32,
    }
}

/// No model names device `u32::MAX` (one past it would not be a `u32`).
pub open spec fn gpus_bounded(c: FlarionConfig) -> bool {
    forall|i: int, k: int| 0 <= i < c.models@.len() && 0 <= k < c.models@[i].gpus@.len()
        ==> #[trigger] c.models@[i].gpus@[k] < u32::MAX
}

proof fn lemma_max_with_bound(acc: Option<u32>, s: Seq<u32>)
    requires
        acc matches Some(a) ==> a < u32::MAX,
        forall|k: int| 0 <= k < s.len() ==> #[trigger] s[k] < u32::MAX,
    ensures
        max_with(acc, s) matches Some(a) ==> a < u32::MAX,
    decreases s.len(),
{
    if s.len() > 0 {
        lemma_max_with_bound(acc, s.drop_last());
    }
}

pub fn declared_device_count(c: &FlarionConfig) -> (n: u32)
    requires
        gpus_bounded(*c),
    ensures
        n == declared_count(*c),
{
    let ghost ms = c.models@;
    let mut acc: Option<u32> = None;
    let mut i: usize = 0;
    while i < c.models.len()
        invariant
            ms == c.models@,
            gpus_bounded(*c),
            i <= ms.len(),
            acc == max_gpu(ms.subrange(0, i as int)),
            acc matches Some(a) ==> a < u32::MAX,
        decreases ms.len() - i,
    {
        let gs = &c.models[i].gpus;
        let ghost start = acc;
        let mut k: usize = 0;
        while k < gs.len()
            invariant
                ms == c.models@,
                gpus_bounded(*c),
                i < ms.len(),
                gs == c.models@[i as int].gpus,
                k <= gs@.len(),
                acc == max_with(start, gs@.subrange(0, k as int)),
                acc matches Some(a) ==> a < u32::MAX,
            decreases gs@.len() - k,
        {
            let g = gs[k];
            proof {
                assert(gs@.subrange(0, k as int + 1).drop_last() =~= gs@.subrange(0, k as int));
                assert(c.models@[i as int].gpus@[k as int] < u32::MAX);
            }
            acc = match acc {
                None => Some(g),
                Some(x) => Some(if g > x { g } else { x }),
            };
            k = k + 1;
        }
        proof {
            assert(gs@.subrange(0, k as int) =~= gs@);
            assert(ms.subrange(0, i as int + 1).drop_last() =~= ms.subrange(0, i as int));
        }
        i = i + 1;
    }
    proof {
        assert(ms.subrange(0, i as int) =~= ms);
    }
    match acc {
        None => 1,
        Some(m) => m + 1,
    }
}

// ---------------------------------------------------------------------
// Devices, estimates and per-device totals
// ---------------------------------------------------------------------

pub open spec fn model_exceeds(m: ModelConfig, count: int) -> bool {
    m.backend == BackendType::Local && exists|k: int| 0 <= k < m.gpus@.len() && #[trigger] m.gpus@[k] >= count
}

/// A local model naming a device at or beyond the device count.
pub open spec fn exceed_issue(c: FlarionConfig, count: int) -> Option<Issue> {
    let ms = c.models@;
    match first_index(ms.len() as int, |i: int| model_exceeds(ms[i], count)) {
        Some(i) => {
            let gs = ms[i].gpus@;
            let k = first_index(gs.len() as int, |k: int| gs[k] >= count)->0;
            Some(ConfigIssue::GpuIdExceedsDetected { model_id: ms[i].id@, gpu_id: gs[k], detected_count: count as u32 })
        },
        None => None,
    }
}

/// Eager (local, not lazy) or pinned (local, pinned) models.
pub open spec fn in_group(m: ModelConfig, pinned: bool) -> bool {
    m.backend == BackendType::Local && (if pinned { m.pin } else { !m.lazy })
}

/// A model's VRAM estimate: the override, else the file size × 1.2 in MB,
/// else the message of the failed file lookup.
pub open spec fn est_outcome(m: ModelConfig, pf: PathFacts) -> Result<u64, Seq<char>> {
    match m.vram_mb {
        Some(n) => Ok(n),
        None => match pf.len {
            Ok(len) => Ok(estimate_from_len(len)),
            Err(msg) => Err(msg@),
        },
    }
}

pub open spec fn estimate_issue(c: FlarionConfig, f: HostFacts, pinned: bool) -> Option<Issue> {
    let ms = c.models@;
    match first_index(ms.len() as int, |i: int| in_group(ms[i], pinned) && est_outcome(ms[i], f.model_files@[i]) is Err) {
        Some(i) => Some(ConfigIssue::VramEstimateFailed {
            id: ms[i].id@,
            path: ms[i].path->0@,
            source: est_outcome(ms[i], f.model_files@[i])->Err_0,
        }),
        None => None,
    }
}

/// The reservation a model's placement puts on device `g`, if any.
pub open spec fn cost_on(m: ModelConfig, est: u64, g: u32) -> Option<u64> {
    let gs = m.gpus@;
    if gs.len() == 0 {
        None
    } else if gs.len() == 1 {
        if gs[0] == g { Some(est) } else { None }
    } else if gs.contains(g) {
        Some(share(est, gs.len()))
    } else {
        None
    }
}

pub open spec fn sat_add(a: u64, b: u64) -> u64 {
    if a + b > u64::MAX { u64::MAX } else { (a + b) as u64 }
}

pub open spec fn group_cost(c: FlarionConfig, f: HostFacts, i: int, g: u32, pinned: bool) -> Option<u64> {
    let m = c.models@[i];
    if in_group(m, pinned) {
        cost_on(m, est_outcome(m, f.model_files@[i])->Ok_0, g)
    } else {
        None
    }
}

/// The (saturating) sum of the reservations the first `n` models of a
/// group put on device `g`.
pub open spec fn group_total(c: FlarionConfig, f: HostFacts, n: int, g: u32, pinned: bool) -> u64
    decreases n,
{
    if n <= 0 {
        0
    } else {
        match group_cost(c, f, n - 1, g, pinned) {
            Some(x) => sat_add(group_total(c, f, n - 1, g, pinned), x),
            None => group_total(c, f, n - 1, g, pinned),
        }
    }
}

/// The models among the first `n` of a group that touch device `g`, with
/// their reservation there, in model order.
pub open spec fn group_offenders(c: FlarionConfig, f: HostFacts, n: int, g: u32, pinned: bool) -> Seq<(Seq<char>, u64)>
    decreases n,
{
    if n <= 0 {
        Seq::empty()
    } else {
        match group_cost(c, f, n - 1, g, pinned) {
            Some(x) => group_offenders(c, f, n - 1, g, pinned).push((c.models@[n - 1].id@, x)),
            None => group_offenders(c, f, n - 1, g, pinned),
        }
    }
}

pub open spec fn over_budget(c: FlarionConfig, f: HostFacts, b: Seq<u64>, g: int, pinned: bool) -> bool {
    b[g] > 0 && group_total(c, f, c.models@.len() as int, g as u32, pinned) > b[g]
}

/// The lowest device whose group total exceeds a non-zero budget.
pub open spec fn overflow_issue(c: FlarionConfig, f: HostFacts, b: Seq<u64>, pinned: bool) -> Option<Issue> {
    match first_index(b.len() as int, |g: int| over_budget(c, f, b, g, pinned)) {
        Some(g) => {
            let n = c.models@.len() as int;
            let total = group_total(c, f, n, g as u32, pinned);
            let offenders = group_offenders(c, f, n, g as u32, pinned);
            if pinned {
                Some(ConfigIssue::PinnedExceedsBudget { gpu_id: g as u32, total_mb: total, budget_mb: b[g], offenders })
            } else {
                Some(ConfigIssue::EagerLoadsExceedBudget { gpu_id: g as u32, total_mb: total, budget_mb: b[g], offenders })
            }
        },
        None => None,
    }
}

/// Everything checked once the per-device budgets `b` are known.
pub open spec fn placement_issue(c: FlarionConfig, f: HostFacts, b: Seq<u64>) -> Option<Issue> {
    if exceed_issue(c, b.len() as int) is Some {
        exceed_issue(c, b.len() as int)
    } else if estimate_issue(c, f, false) is Some {
        estimate_issue(c, f, false)
    } else if overflow_issue(c, f, b, false) is Some {
        overflow_issue(c, f, b, false)
    } else if estimate_issue(c, f, true) is Some {
        estimate_issue(c, f, true)
    } else {
        overflow_issue(c, f, b, true)
    }
}

#[verifier::loop_isolation(false)]
fn check_exceed(c: &FlarionConfig, count: u32) -> (r: Result<(), ConfigError>)
    ensures
        issue_post(exceed_issue(*c, count as int), r),
{
    let ghost ms = c.models@;
    let ghost p = |i: int| model_exceeds(ms[i], count as int);
    let mut i: usize = 0;
    while i < c.models.len()
        invariant
            i <= ms.len(),
            forall|j: int| 0 <= j < i ==> !#[trigger] p(j),
        decreases ms.len() - i,
    {
        let m = &c.models[i];
        if m.backend == BackendType::Local {
            let ghost gs = m.gpus@;
            let ghost q = |k: int| gs[k] >= count as int;
            let mut k: usize = 0;
            while k < m.gpus.len()
                invariant
                    k <= gs.len(),
                    forall|j: int| 0 <= j < k ==> !#[trigger] q(j),
                decreases gs.len() - k,
            {
                if m.gpus[k] >= count {
                    proof {
                        assert(p(i as int));
                        lemma_first_index_is(ms.len() as int, p, i as int);
                        lemma_first_index_is(gs.len() as int, q, k as int);
                    }
                    return Err(ConfigError::GpuIdExceedsDetected { model_id: m.id.clone(), gpu_id: m.gpus[k], detected_count: count });
                }
                k = k + 1;
            }
            proof {
                assert(!p(i as int)) by {
                    if p(i as int) {
                        let w = choose|w: int| 0 <= w < gs.len() && #[trigger] gs[w] >= count as int;
                        assert(!q(w));
                    }
                }
            }
        }
        i = i + 1;
    }
    proof { lemma_first_index_none(ms.len() as int, p); }
    Ok(())
}

fn model_estimate(m: &ModelConfig, pf: &PathFacts) -> (r: Result<u64, EstimateError>)
    ensures
        match est_outcome(*m, *pf) {
            Ok(n) => r == Ok::<u64, EstimateError>(n),
            Err(msg) => r matches Err(EstimateError::StatFailed { path, source }) && source@ == msg
                && path@ == (match m.path { Some(p) => p@, None => Seq::<char>::empty() }),
        },
{
    proof { reveal_strlit(""); }
    let path: &str = match &m.path {
        Some(p) => p.as_str(),
        None => "",
    };
    estimate_vram_mb(path, m.vram_mb, &pf.len)
}

#[verifier::loop_isolation(false)]
fn check_estimates(c: &FlarionConfig, f: &HostFacts, pinned: bool) -> (r: Result<(), ConfigError>)
    requires
        f.model_files@.len() == c.models@.len(),
        forall|i: int| 0 <= i < c.models@.len() && #[trigger] c.models@[i].backend == BackendType::Local ==> c.models@[i].path is Some,
    ensures
        issue_post(estimate_issue(*c, *f, pinned), r),
{
    let ghost ms = c.models@;
    let ghost p = |i: int| in_group(ms[i], pinned) && est_outcome(ms[i], f.model_files@[i]) is Err;
    let mut i: usize = 0;
    while i < c.models.len()
        invariant
            i <= ms.len(),
            forall|j: int| 0 <= j < i ==> !#[trigger] p(j),
        decreases ms.len() - i,
    {
        let m = &c.models[i];
        let member = m.backend == BackendType::Local && (if pinned { m.pin } else { !m.lazy });
        if member {
            match model_estimate(m, &f.model_files[i]) {
                Ok(_) => {},
                Err(EstimateError::StatFailed { path, source }) => {
                    proof {
                        assert(c.models@[i as int].backend == BackendType::Local);
                        lemma_first_index_is(ms.len() as int, p, i as int);
                    }
                    return Err(ConfigError::VramEstimateFailed { id: m.id.clone(), path, source });
                },
            }
        }
        i = i + 1;
    }
    proof { lemma_first_index_none(ms.len() as int, p); }
    Ok(())
}

#[verifier::loop_isolation(false)]
fn model_cost_on(m: &ModelConfig, est: u64, g: u32) -> (r: Option<u64>)
    ensures
        r == cost_on(*m, est, g),
{
    match ResolvedPlacement::from_gpus(&m.gpus) {
        ResolvedPlacement::Auto => None,
        ResolvedPlacement::Resolved(p) => {
            let costs = p.per_device_cost(est);
            let ghost devs = p.devices();
            let mut k: usize = 0;
            while k < costs.len()
                invariant
                    k <= costs@.len(),
                    costs@.len() == devs.len(),
                    forall|j: int| 0 <= j < k ==> devs[j] != g,
                    forall|j: int| 0 <= j < costs@.len() ==> (#[trigger] costs@[j]).0 == devs[j],
                decreases costs@.len() - k,
            {
                if costs[k].0 == g {
                    proof {
                        assert(devs[k as int] == g);
                        if m.gpus@.len() >= 2 {
                            assert(m.gpus@.contains(g));
                        }
                    }
                    return Some(costs[k].1);
                }
                k = k + 1;
            }
            proof {
                if m.gpus@.len() >= 2 && m.gpus@.contains(g) {
                    let w = choose|w: int| 0 <= w < m.gpus@.len() && m.gpus@[w] == g;
                    assert(devs[w] == g);
                }
            }
            None
        },
    }
}

proof fn lemma_estimates_ok(c: FlarionConfig, f: HostFacts, pinned: bool, i: int)
    requires
        estimate_issue(c, f, pinned) is None,
        0 <= i < c.models@.len(),
        in_group(c.models@[i], pinned),
    ensures
        est_outcome(c.models@[i], f.model_files@[i]) is Ok,
{
    let ms = c.models@;
    let p = |i: int| in_group(ms[i], pinned) && est_outcome(ms[i], f.model_files@[i]) is Err;
    if est_outcome(ms[i], f.model_files@[i]) is Err {
        assert(p(i));
        lemma_least_exists(ms.len() as int, p, i);
    }
}

/// The group total and offenders on device `g`.
fn group_on(c: &FlarionConfig, f: &HostFacts, g: u32, pinned: bool) -> (r: (u64, Vec<(String, u64)>))
    requires
        f.model_files@.len() == c.models@.len(),
        estimate_issue(*c, *f, pinned) is None,
    ensures
        r.0 == group_total(*c, *f, c.models@.len() as int, g, pinned),
        crate::config::offenders_view(r.1@) == group_offenders(*c, *f, c.models@.len() as int, g, pinned),
{
    let mut total: u64 = 0;
    let mut offenders: Vec<(String, u64)> = Vec::new();
    let mut i: usize = 0;
    while i < c.models.len()
        invariant
            f.model_files@.len() == c.models@.len(),
            estimate_issue(*c, *f, pinned) is None,
            i <= c.models@.len(),
            total == group_total(*c, *f, i as int, g, pinned),
            crate::config::offenders_view(offenders@) == group_offenders(*c, *f, i as int, g, pinned),
        decreases c.models@.len() - i,
    {
        let m = &c.models[i];
        let member = m.backend == BackendType::Local && (if pinned { m.pin } else { !m.lazy });
        if member {
            proof { lemma_estimates_ok(*c, *f, pinned, i as int); }
            let est = match model_estimate(m, &f.model_files[i]) {
                Ok(e) => e,
                Err(_) => 0,
            };
            match model_cost_on(m, est, g) {
                Some(x) => {
                    total = if total > u64::MAX - x { u64::MAX } else { total + x };
                    let ghost before = offenders@;
                    offenders.push((m.id.clone(), x));
                    proof {
                        assert(offenders@ == before.push((m.id, x)));
                        assert(crate::config::offenders_view(offenders@) =~= crate::config::offenders_view(before).push((m.id@, x)));
                    }
                },
                None => {},
            }
        }
        i = i + 1;
    }
    (total, offenders)
}

fn overflow_error(g: u32, total: u64, budget: u64, offenders: Vec<(String, u64)>, pinned: bool) -> (e: ConfigError)
    ensures
        pinned ==> e.issue() == (Issue::PinnedExceedsBudget {
            gpu_id: g, total_mb: total, budget_mb: budget, offenders: crate::config::offenders_view(offenders@) }),
        !pinned ==> e.issue() == (Issue::EagerLoadsExceedBudget {
            gpu_id: g, total_mb: total, budget_mb: budget, offenders: crate::config::offenders_view(offenders@) }),
{
    if pinned {
        ConfigError::PinnedExceedsBudget { gpu_id: g, total_mb: total, budget_mb: budget, offenders }
    } else {
        ConfigError::EagerLoadsExceedBudget { gpu_id: g, total_mb: total, budget_mb: budget, offenders }
    }
}

fn check_overflow(c: &FlarionConfig, f: &HostFacts, budgets: &Vec<u64>, pinned: bool) -> (r: Result<(), ConfigError>)
    requires
        f.model_files@.len() == c.models@.len(),
        estimate_issue(*c, *f, pinned) is None,
        budgets@.len() <= u32::MAX,
    ensures
        issue_post(overflow_issue(*c, *f, budgets@, pinned), r),
{
    let ghost b = budgets@;
    let ghost p = |g: int| over_budget(*c, *f, b, g, pinned);
    let mut g: usize = 0;
    while g < budgets.len()
        invariant
            b == budgets@,
            b.len() <= u32::MAX,
            p == (|g: int| over_budget(*c, *f, b, g, pinned)),
            f.model_files@.len() == c.models@.len(),
            estimate_issue(*c, *f, pinned) is None,
            g <= b.len(),
            forall|j: int| 0 <= j < g ==> !#[trigger] p(j),
        decreases b.len() - g,
    {
        let budget = budgets[g];
        let (total, offenders) = group_on(c, f, g as u32, pinned);
        if budget > 0 && total > budget {
            proof {
                assert(p(g as int));
                lemma_first_index_is(b.len() as int, p, g as int);
            }
            return Err(overflow_error(g as u32, total, budget, offenders, pinned));
        }
        g = g + 1;
    }
    proof { lemma_first_index_none(b.len() as int, p); }
    Ok(())
}

/// Stages after budget resolution: device ids against the device count,
/// then the eager and the pinned totals per device.
pub fn check_placement(c: &FlarionConfig, f: &HostFacts, budgets: &Vec<u64>) -> (r: Result<(), ConfigError>)
    requires
        f.model_files@.len() == c.models@.len(),
        budgets@.len() <= u32::MAX,
        forall|i: int| 0 <= i < c.models@.len() && #[trigger] c.models@[i].backend == BackendType::Local ==> c.models@[i].path is Some,
    ensures
        issue_post(placement_issue(*c, *f, budgets@), r),
{
    check_exceed(c, budgets.len() as u32)?;
    check_estimates(c, f, false)?;
    check_overflow(c, f, budgets, false)?;
    check_estimates(c, f, true)?;
    check_overflow(c, f, budgets, true)
}

// ---------------------------------------------------------------------
// The whole validation
// ---------------------------------------------------------------------

/// The problem validation reports for a configuration, host facts and
/// device-detection outcome (the outcome is consulted only for an `Auto`
/// budget), or `None` when the configuration is valid.
pub open spec fn validation_issue(
    c: FlarionConfig,
    f: HostFacts,
    detected: Option<Result<Vec<VramInfo>, VramDetectError>>,
) -> Option<Issue> {
    match static_issue(c, f) {
        Some(i) => Some(i),
        None => match c.server.budget_seq(declared_count(c), detected) {
            Err(e) => Some(e.issue()),
            Ok(b) => placement_issue(c, f, b),
        },
    }
}

pub proof fn lemma_first_index_none_all(n: int, p: spec_fn(int) -> bool, j: int)
    requires
        first_index(n, p) is None,
        0 <= j < n,
    ensures
        !p(j),
{
}

proof fn lemma_static_ok_paths(c: FlarionConfig, f: HostFacts)
    requires
        static_issue(c, f) is None,
        f.model_files@.len() == c.models@.len(),
    ensures
        forall|i: int| 0 <= i < c.models@.len() && #[trigger] c.models@[i].backend == BackendType::Local
            ==> c.models@[i].path is Some,
{
    let ms = c.models@;
    assert forall|i: int| 0 <= i < ms.len() && #[trigger] ms[i].backend == BackendType::Local implies ms[i].path is Some by {
        let p3 = model_bad(c, f);
        if first_index(ms.len() as int, p3) is Some {
            lemma_first_index_some(ms.len() as int, p3);
        }
        assert(first_index(ms.len() as int, p3) is None);
        lemma_first_index_none_all(ms.len() as int, p3, i);
    }
}

/// The grace period after clamping to 3600 seconds.
pub open spec fn clamped_grace(secs: u64) -> u64 {
    if secs > 3600 { 3600 } else { secs }
}

/// `c` with its shutdown grace clamped to 3600 seconds and every other
/// field as it was.
pub open spec fn with_clamped_grace(c: FlarionConfig) -> FlarionConfig {
    FlarionConfig {
        server: crate::config::ServerConfig { shutdown_grace_secs: clamped_grace(c.server.shutdown_grace_secs), ..c.server },
        ..c
    }
}

impl FlarionConfig {
    fn clamp_shutdown_grace(&mut self)
        ensures
            *final(self) == with_clamped_grace(*old(self)),
    {
        if self.server.shutdown_grace_secs > 3600 {
            self.server.shutdown_grace_secs = 3600;
        }
    }

    /// Validate with the outcome of device detection supplied by the caller
    /// (used only for an `Auto` budget). The shutdown grace is clamped to
    /// 3600 seconds whether or not validation succeeds.
    pub fn validate_with_detection(
        &mut self,
        facts: &HostFacts,
        detected: Option<Result<Vec<VramInfo>, VramDetectError>>,
    ) -> (r: Result<(), ConfigError>)
        requires
            facts.model_files@.len() == old(self).models@.len(),
            gpus_bounded(*old(self)),
            old(self).server.vram_budget_mb is Auto ==> detected is Some,
            detected matches Some(Ok(v)) ==> v@.len() <= u32::MAX,
        ensures
            *final(self) == with_clamped_grace(*old(self)),
            final(self).server.shutdown_grace_secs == clamped_grace(old(self).server.shutdown_grace_secs),
            issue_post(validation_issue(*old(self), *facts, detected), r),
    {
        let r = self.validation_result(facts, detected);
        self.clamp_shutdown_grace();
        r
    }

    fn validation_result(
        &self,
        facts: &HostFacts,
        detected: Option<Result<Vec<VramInfo>, VramDetectError>>,
    ) -> (r: Result<(), ConfigError>)
        requires
            facts.model_files@.len() == self.models@.len(),
            gpus_bounded(*self),
            self.server.vram_budget_mb is Auto ==> detected is Some,
            detected matches Some(Ok(v)) ==> v@.len() <= u32::MAX,
        ensures
            issue_post(validation_issue(*self, *facts, detected), r),
    {
        check_static(self, facts)?;
        proof { lemma_static_ok_paths(*self, *facts); }
        let declared = declared_device_count(self);
        let budgets = self.server.resolve_vram_budgets_given(declared, detected)?;
        check_placement(self, facts, &budgets)
    }

    /// Validate the configuration; see `validation_issue` for the order in
    /// which problems are reported. For an `Auto` budget the devices are
    /// detected through NVML once the earlier checks pass. The shutdown
    /// grace is clamped to 3600 seconds whether or not validation succeeds.
    pub fn validate(&mut self, facts: &HostFacts) -> (r: Result<(), ConfigError>)
        requires
            facts.model_files@.len() == old(self).models@.len(),
            gpus_bounded(*old(self)),
        ensures
            *final(self) == with_clamped_grace(*old(self)),
            final(self).server.shutdown_grace_secs == clamped_grace(old(self).server.shutdown_grace_secs),
            old(self).server.vram_budget_mb is Fixed ==> issue_post(validation_issue(*old(self), *facts, None), r),
            old(self).server.vram_budget_mb is Auto ==> exists|d: Result<Vec<VramInfo>, VramDetectError>|
                issue_post(validation_issue(*old(self), *facts, Some(d)), r),
    {
        let r = self.validation_detecting(facts);
        self.clamp_shutdown_grace();
        r
    }

    fn validation_detecting(&self, facts: &HostFacts) -> (r: Result<(), ConfigError>)
        requires
            facts.model_files@.len() == self.models@.len(),
            gpus_bounded(*self),
        ensures
            self.server.vram_budget_mb is Fixed ==> issue_post(validation_issue(*self, *facts, None), r),
            self.server.vram_budget_mb is Auto ==> exists|d: Result<Vec<VramInfo>, VramDetectError>|
                issue_post(validation_issue(*self, *facts, Some(d)), r),
    {
        let st = check_static(self, facts);
        if st.is_err() {
            proof {
                assert(issue_post(validation_issue(*self, *facts, None), st));
                if self.server.vram_budget_mb is Auto {
                    let d = arbitrary::<Result<Vec<VramInfo>, VramDetectError>>();
                    assert(issue_post(validation_issue(*self, *facts, Some(d)), st));
                }
            }
            return st;
        }
        proof { lemma_static_ok_paths(*self, *facts); }
        let declared = declared_device_count(self);
        match self.server.vram_budget_mb {
            VramBudgetSetting::Fixed(_) => {
                let budgets = self.server.resolve_vram_budgets_given(declared, None)?;
                check_placement(self, facts, &budgets)
            },
            VramBudgetSetting::Auto => {
                let d = crate::vram_detect::detect_all_devices();
                let ghost gd = d;
                let r = match self.server.resolve_vram_budgets_given(declared, Some(d)) {
                    Ok(budgets) => check_placement(self, facts, &budgets),
                    Err(e) => Err(e),
                };
                assert(issue_post(validation_issue(*self, *facts, Some(gd)), r));
                r
            },
        }
    }
}
} // verus!
