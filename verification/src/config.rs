//! Gateway configuration: the typed form of `flarion.toml`, its defaults,
//! and the per-device VRAM budget resolution.

use vstd::prelude::*;
use crate::text::{copy_string, to_string};
use crate::vram_detect::{VramInfo, VramDetectError, detect_all_devices, detect_device_zero};

verus! {

/// Command-line overrides for the server.
pub struct Cli {
    pub config: String,
    pub host: Option<String>,
    pub port: Option<u16>,
    pub log_level: Option<String>,
}

pub struct FlarionConfig {
    pub server: ServerConfig,
    pub models: Vec<ModelConfig>,
    pub routes: Vec<RouteConfig>,
    pub metrics: MetricsConfig,
    pub logging: LoggingConfig,
}

pub struct RouteConfig {
    pub id: String,
    pub first_token_timeout_ms: Option<u64>,
    pub rules: Vec<RuleConfig>,
}

pub struct RuleConfig {
    pub name: String,
    pub matchers: Matchers,
    pub targets: Vec<String>,
    pub first_token_timeout_ms: Option<u64>,
}

/// Request matchers of a routing rule. All set fields must match; a rule
/// with no field set is a catch-all.
pub struct Matchers {
    pub stream: Option<bool>,
    pub prompt_tokens_gte: Option<u32>,
    pub prompt_tokens_lte: Option<u32>,
    pub message_count_gte: Option<u32>,
    pub message_count_lte: Option<u32>,
    pub has_system_prompt: Option<bool>,
    pub content_regex: Option<String>,
    /// Exact header matches, as (name, value) pairs.
    pub header_equals: Vec<(String, String)>,
}

impl Matchers {
    pub open spec fn spec_is_empty(&self) -> bool {
        &&& self.stream is None
        &&& self.prompt_tokens_gte is None
        &&& self.prompt_tokens_lte is None
        &&& self.message_count_gte is None
        &&& self.message_count_lte is None
        &&& self.has_system_prompt is None
        &&& self.content_regex is None
        &&& self.header_equals@.len() == 0
    }

    /// True if no matcher field is set — i.e. this is a catch-all.
    pub fn is_empty(&self) -> (r: bool)
        ensures
            r == self.spec_is_empty(),
    {
        self.stream.is_none() && self.prompt_tokens_gte.is_none() && self.prompt_tokens_lte.is_none()
            && self.message_count_gte.is_none() && self.message_count_lte.is_none()
            && self.has_system_prompt.is_none() && self.content_regex.is_none()
            && self.header_equals.len() == 0
    }
}

pub struct MetricsConfig {
    pub enabled: bool,
    pub path: String,
    /// When set, `/metrics` is served only from this dedicated `host:port`.
    pub bind: Option<String>,
}

impl MetricsConfig {
    pub fn default() -> (m: Self)
        ensures
            !m.enabled,
            m.path@ == "/metrics"@,
            m.bind is None,
    {
        MetricsConfig { enabled: false, path: default_metrics_path(), bind: None }
    }
}

pub fn default_metrics_path() -> (s: String)
    ensures
        s@ == "/metrics"@,
{
    to_string("/metrics")
}

/// How the VRAM budget in MB is derived. `Fixed(n)` uses `n` verbatim (0
/// disables scheduling); `Auto` queries NVML and subtracts the headroom.
#[derive(Clone, Copy, Debug, PartialEq, Eq, Structural)]
pub enum VramBudgetSetting {
    Auto,
    Fixed(u64),
}

impl VramBudgetSetting {
    pub fn default() -> (s: Self)
        ensures
            s == VramBudgetSetting::Fixed(0),
    {
        VramBudgetSetting::Fixed(0)
    }
}

pub struct ServerConfig {
    pub host: String,
    pub port: u16,
    /// Grace period after shutdown for in-flight work; clamped to 3600.
    pub shutdown_grace_secs: u64,
    pub api_keys: Vec<String>,
    pub allow_unauthenticated: bool,
    pub cors_origins: Vec<String>,
    /// Allow `http://`, loopback and private-range cloud `base_url` values.
    pub allow_plaintext_upstream: bool,
    pub vram_budget_mb: VramBudgetSetting,
    /// Only honoured when `vram_budget_mb` is `Auto`.
    pub vram_budget_headroom_mb: u64,
    /// Per-device budget overrides as (gpu_id, MB) pairs.
    pub vram_budget_overrides: Vec<(u32, u64)>,
}

#[derive(Clone, Copy, Debug, PartialEq, Eq, Structural)]
pub enum BackendType {
    Local,
    Openai,
    Groq,
    Anthropic,
    Hf,
}

/// Precision / quantization selection for the HF backend.
#[derive(Clone, Copy, Debug, PartialEq, Eq, Structural)]
pub enum Dtype {
    Bf16,
    Fp16,
    Q4_0,
    Q4KM,
    Q8_0,
}

/// LoRA adapter merged at load time. Exactly one of `path` or `repo`
/// must be set. The scale is carried as the bit pattern of an `f32`.
pub struct AdapterConfig {
    pub path: Option<String>,
    pub repo: Option<String>,
    pub revision: Option<String>,
    pub scale_bits: u32,
}

/// The bit pattern of the default adapter scale, `1.0f32`.
pub fn default_adapter_scale_bits() -> (b: u32)
    ensures
        b == 0x3f80_0000u32,
{
    0x3f80_0000u32
}

pub struct ModelConfig {
    pub id: String,
    pub backend: BackendType,
    pub path: Option<String>,
    pub context_size: u32,
    pub gpu_layers: u32,
    pub threads: Option<u32>,
    pub batch_size: Option<u32>,
    pub seed: Option<u32>,
    pub api_key: Option<String>,
    pub base_url: Option<String>,
    pub upstream_model: Option<String>,
    pub timeout_secs: Option<u64>,
    pub max_tokens_cap: Option<u32>,
    pub lazy: bool,
    pub vram_mb: Option<u64>,
    pub pin: bool,
    /// `[]` = auto-placement, `[N]` = device N, `[N, M, ...]` = tensor split.
    pub gpus: Vec<u32>,
    pub repo: Option<String>,
    pub revision: Option<String>,
    pub dtype: Option<Dtype>,
    pub hf_token_env: Option<String>,
    pub adapters: Vec<AdapterConfig>,
}

pub struct LoggingConfig {
    pub level: String,
}

impl LoggingConfig {
    pub fn default() -> (l: Self)
        ensures
            l.level@ == "info"@,
    {
        LoggingConfig { level: default_log_level() }
    }
}

pub fn default_host() -> (s: String)
    ensures
        s@ == "0.0.0.0"@,
{
    to_string("0.0.0.0")
}

pub fn default_port() -> (p: u16)
    ensures
        p == 8080,
{
    8080
}

pub fn default_context_size() -> (n: u32)
    ensures
        n == 4096,
{
    4096
}

pub fn default_gpu_layers() -> (n: u32)
    ensures
        n == 99,
{
    99
}

pub fn default_log_level() -> (s: String)
    ensures
        s@ == "info"@,
{
    to_string("info")
}

pub fn default_shutdown_grace_secs() -> (n: u64)
    ensures
        n == 30,
{
    30
}

pub fn default_vram_headroom_mb() -> (n: u64)
    ensures
        n == 2048,
{
    2048
}

impl ServerConfig {
    pub fn default() -> (s: Self)
        ensures
            s.host@ == "0.0.0.0"@,
            s.port == 8080,
            s.shutdown_grace_secs == 30,
            s.api_keys@.len() == 0,
            !s.allow_unauthenticated,
            s.cors_origins@.len() == 0,
            !s.allow_plaintext_upstream,
            s.vram_budget_mb == VramBudgetSetting::Fixed(0),
            s.vram_budget_headroom_mb == 2048,
            s.vram_budget_overrides@.len() == 0,
    {
        ServerConfig {
            host: default_host(),
            port: default_port(),
            shutdown_grace_secs: default_shutdown_grace_secs(),
            api_keys: Vec::new(),
            allow_unauthenticated: false,
            cors_origins: Vec::new(),
            allow_plaintext_upstream: false,
            vram_budget_mb: VramBudgetSetting::Fixed(0),
            vram_budget_headroom_mb: default_vram_headroom_mb(),
            vram_budget_overrides: Vec::new(),
        }
    }
}

impl FlarionConfig {
    /// Server defaults, no models, no routes, metrics off, log level "info".
    pub fn default() -> (c: Self)
        ensures
            c.models@.len() == 0,
            c.routes@.len() == 0,
            c.server.host@ == "0.0.0.0"@,
            c.server.port == 8080,
            c.server.shutdown_grace_secs == 30,
            c.server.api_keys@.len() == 0,
            !c.server.allow_unauthenticated,
            c.server.cors_origins@.len() == 0,
            !c.server.allow_plaintext_upstream,
            c.server.vram_budget_mb == VramBudgetSetting::Fixed(0),
            c.server.vram_budget_headroom_mb == 2048,
            c.server.vram_budget_overrides@.len() == 0,
            !c.metrics.enabled,
            c.metrics.path@ == "/metrics"@,
            c.metrics.bind is None,
            c.logging.level@ == "info"@,
    {
        FlarionConfig {
            server: ServerConfig::default(),
            models: Vec::new(),
            routes: Vec::new(),
            metrics: MetricsConfig::default(),
            logging: LoggingConfig::default(),
        }
    }

    /// Command-line flags override host, port and log level.
    pub fn apply_cli_overrides(&mut self, cli: &Cli)
        ensures
            final(self).server.host@ == (match cli.host { Some(h) => h@, None => old(self).server.host@ }),
            final(self).server.port == (match cli.port { Some(p) => p, None => old(self).server.port }),
            final(self).logging.level@ == (match cli.log_level { Some(l) => l@, None => old(self).logging.level@ }),
            final(self).models == old(self).models,
            final(self).routes == old(self).routes,
            final(self).server.api_keys == old(self).server.api_keys,
            final(self).server.vram_budget_mb == old(self).server.vram_budget_mb,
    {
        if let Some(h) = &cli.host {
            self.server.host = copy_string(h);
        }
        if let Some(p) = cli.port {
            self.server.port = p;
        }
        if let Some(l) = &cli.log_level {
            self.logging.level = copy_string(l);
        }
    }
}

#[allow(inconsistent_fields)]
#[derive(Debug)]
pub enum ConfigError {
    ReadFailed { path: String, reason: String },
    ParseFailed { path: String, reason: String },
    NoModelsConfigured,
    EmptyModelId,
    DuplicateModelId { id: String },
    ModelPathMissing { id: String, path: String },
    LocalBackendNeedsPath { id: String },
    CloudBackendNeedsApiKey { id: String },
    PathOnCloudBackend { id: String },
    MissingEnvVar { var: String, field: String },
    MalformedEnvRef { field: String, text: String },
    RouteEmptyId,
    DuplicateRouteId { id: String },
    RouteIdCollision { id: String },
    RouteNoRules { id: String },
    RuleNoTargets { route_id: String, rule: String },
    RouteTargetUnknown { route_id: String, target: String },
    RouteTargetsRoute { route_id: String, target: String },
    RouteNoCatchAll { id: String },
    InvalidRegex { route_id: String, rule: String, error: String },
    PlaintextUpstreamForbidden { id: String, url: String },
    InvalidBaseUrl { id: String, reason: String },
    InvalidMetricsBind { addr: String },
    InvalidCorsOrigin { origin: String },
    PublicBindRequiresAuth { host: String },
    LazyOnlyForLocal { id: String, backend: BackendType },
    VramMbOnlyForLocal { id: String, backend: BackendType },
    EagerLoadsExceedBudget { gpu_id: u32, total_mb: u64, budget_mb: u64, offenders: Vec<(String, u64)> },
    VramEstimateFailed { id: String, path: String, source: String },
    PinOnlyForLocal { id: String, backend: BackendType },
    PinnedExceedsBudget { gpu_id: u32, total_mb: u64, budget_mb: u64, offenders: Vec<(String, u64)> },
    GpuIdDuplicated { model_id: String, gpu_id: u32 },
    GpuIdOnCloudBackend { id: String, gpus: Vec<u32>, backend: BackendType },
    VramAutoDetectFailed { source: VramDetectError },
    VramAutoDetectInsufficient { total_mb: u64, headroom_mb: u64 },
    VramOverrideUnknownGpu { gpu_id: u32, device_count: u32 },
    GpuIdExceedsDetected { model_id: String, gpu_id: u32, detected_count: u32 },
    HfBackendNeedsPathOrRepo { id: String },
    HfBackendPathAndRepoExclusive { id: String },
    HfFieldOnNonHfBackend { id: String, field: String },
    HfAdapterNeedsPathOrRepo { id: String, index: usize },
    HfAdapterPathAndRepoExclusive { id: String, index: usize },
}

/// The abstract content of a `ConfigError`: strings by their characters,
/// the GPU list and the offender list by their elements. The detection
/// error carried by `VramAutoDetectFailed` is left out.
pub enum ConfigIssue<S, G, O> {
    ReadFailed { path: S, reason: S },
    ParseFailed { path: S, reason: S },
    NoModelsConfigured,
    EmptyModelId,
    DuplicateModelId { id: S },
    ModelPathMissing { id: S, path: S },
    LocalBackendNeedsPath { id: S },
    CloudBackendNeedsApiKey { id: S },
    PathOnCloudBackend { id: S },
    MissingEnvVar { var: S, field: S },
    MalformedEnvRef { field: S, text: S },
    RouteEmptyId,
    DuplicateRouteId { id: S },
    RouteIdCollision { id: S },
    RouteNoRules { id: S },
    RuleNoTargets { route_id: S, rule: S },
    RouteTargetUnknown { route_id: S, target: S },
    RouteTargetsRoute { route_id: S, target: S },
    RouteNoCatchAll { id: S },
    InvalidRegex { route_id: S, rule: S, error: S },
    PlaintextUpstreamForbidden { id: S, url: S },
    InvalidBaseUrl { id: S, reason: S },
    InvalidMetricsBind { addr: S },
    InvalidCorsOrigin { origin: S },
    PublicBindRequiresAuth { host: S },
    LazyOnlyForLocal { id: S, backend: BackendType },
    VramMbOnlyForLocal { id: S, backend: BackendType },
    EagerLoadsExceedBudget { gpu_id: u32, total_mb: u64, budget_mb: u64, offenders: O },
    VramEstimateFailed { id: S, path: S, source: S },
    PinOnlyForLocal { id: S, backend: BackendType },
    PinnedExceedsBudget { gpu_id: u32, total_mb: u64, budget_mb: u64, offenders: O },
    GpuIdDuplicated { model_id: S, gpu_id: u32 },
    GpuIdOnCloudBackend { id: S, gpus: G, backend: BackendType },
    VramAutoDetectFailed,
    VramAutoDetectInsufficient { total_mb: u64, headroom_mb: u64 },
    VramOverrideUnknownGpu { gpu_id: u32, device_count: u32 },
    GpuIdExceedsDetected { model_id: S, gpu_id: u32, detected_count: u32 },
    HfBackendNeedsPathOrRepo { id: S },
    HfBackendPathAndRepoExclusive { id: S },
    HfFieldOnNonHfBackend { id: S, field: S },
    HfAdapterNeedsPathOrRepo { id: S, index: usize },
    HfAdapterPathAndRepoExclusive { id: S, index: usize },
}

pub type Issue = ConfigIssue<Seq<char>, Seq<u32>, Seq<(Seq<char>, u64)>>;

pub open spec fn offenders_view(o: Seq<(String, u64)>) -> Seq<(Seq<char>, u64)> {
    o.map_values(|p: (String, u64)| (p.0@, p.1))
}

impl ConfigError {
    pub open spec fn issue(self) -> Issue {
        match self {
            ConfigError::ReadFailed { path, reason } => ConfigIssue::ReadFailed { path: path@, reason: reason@ },
            ConfigError::ParseFailed { path, reason } => ConfigIssue::ParseFailed { path: path@, reason: reason@ },
            ConfigError::NoModelsConfigured => ConfigIssue::NoModelsConfigured,
            ConfigError::EmptyModelId => ConfigIssue::EmptyModelId,
            ConfigError::DuplicateModelId { id } => ConfigIssue::DuplicateModelId { id: id@ },
            ConfigError::ModelPathMissing { id, path } => ConfigIssue::ModelPathMissing { id: id@, path: path@ },
            ConfigError::LocalBackendNeedsPath { id } => ConfigIssue::LocalBackendNeedsPath { id: id@ },
            ConfigError::CloudBackendNeedsApiKey { id } => ConfigIssue::CloudBackendNeedsApiKey { id: id@ },
            ConfigError::PathOnCloudBackend { id } => ConfigIssue::PathOnCloudBackend { id: id@ },
            ConfigError::MissingEnvVar { var, field } => ConfigIssue::MissingEnvVar { var: var@, field: field@ },
            ConfigError::MalformedEnvRef { field, text } => ConfigIssue::MalformedEnvRef { field: field@, text: text@ },
            ConfigError::RouteEmptyId => ConfigIssue::RouteEmptyId,
            ConfigError::DuplicateRouteId { id } => ConfigIssue::DuplicateRouteId { id: id@ },
            ConfigError::RouteIdCollision { id } => ConfigIssue::RouteIdCollision { id: id@ },
            ConfigError::RouteNoRules { id } => ConfigIssue::RouteNoRules { id: id@ },
            ConfigError::RuleNoTargets { route_id, rule } => ConfigIssue::RuleNoTargets { route_id: route_id@, rule: rule@ },
            ConfigError::RouteTargetUnknown { route_id, target } => ConfigIssue::RouteTargetUnknown { route_id: route_id@, target: target@ },
            ConfigError::RouteTargetsRoute { route_id, target } => ConfigIssue::RouteTargetsRoute { route_id: route_id@, target: target@ },
            ConfigError::RouteNoCatchAll { id } => ConfigIssue::RouteNoCatchAll { id: id@ },
            ConfigError::InvalidRegex { route_id, rule, error } => ConfigIssue::InvalidRegex { route_id: route_id@, rule: rule@, error: error@ },
            ConfigError::PlaintextUpstreamForbidden { id, url } => ConfigIssue::PlaintextUpstreamForbidden { id: id@, url: url@ },
            ConfigError::InvalidBaseUrl { id, reason } => ConfigIssue::InvalidBaseUrl { id: id@, reason: reason@ },
            ConfigError::InvalidMetricsBind { addr } => ConfigIssue::InvalidMetricsBind { addr: addr@ },
            ConfigError::InvalidCorsOrigin { origin } => ConfigIssue::InvalidCorsOrigin { origin: origin@ },
            ConfigError::PublicBindRequiresAuth { host } => ConfigIssue::PublicBindRequiresAuth { host: host@ },
            ConfigError::LazyOnlyForLocal { id, backend } => ConfigIssue::LazyOnlyForLocal { id: id@, backend },
            ConfigError::VramMbOnlyForLocal { id, backend } => ConfigIssue::VramMbOnlyForLocal { id: id@, backend },
            ConfigError::EagerLoadsExceedBudget { gpu_id, total_mb, budget_mb, offenders } =>
                ConfigIssue::EagerLoadsExceedBudget { gpu_id, total_mb, budget_mb, offenders: offenders_view(offenders@) },
            ConfigError::VramEstimateFailed { id, path, source } => ConfigIssue::VramEstimateFailed { id: id@, path: path@, source: source@ },
            ConfigError::PinOnlyForLocal { id, backend } => ConfigIssue::PinOnlyForLocal { id: id@, backend },
            ConfigError::PinnedExceedsBudget { gpu_id, total_mb, budget_mb, offenders } =>
                ConfigIssue::PinnedExceedsBudget { gpu_id, total_mb, budget_mb, offenders: offenders_view(offenders@) },
            ConfigError::GpuIdDuplicated { model_id, gpu_id } => ConfigIssue::GpuIdDuplicated { model_id: model_id@, gpu_id },
            ConfigError::GpuIdOnCloudBackend { id, gpus, backend } => ConfigIssue::GpuIdOnCloudBackend { id: id@, gpus: gpus@, backend },
            ConfigError::VramAutoDetectFailed { .. } => ConfigIssue::VramAutoDetectFailed,
            ConfigError::VramAutoDetectInsufficient { total_mb, headroom_mb } => ConfigIssue::VramAutoDetectInsufficient { total_mb, headroom_mb },
            ConfigError::VramOverrideUnknownGpu { gpu_id, device_count } => ConfigIssue::VramOverrideUnknownGpu { gpu_id, device_count },
            ConfigError::GpuIdExceedsDetected { model_id, gpu_id, detected_count } =>
                ConfigIssue::GpuIdExceedsDetected { model_id: model_id@, gpu_id, detected_count },
            ConfigError::HfBackendNeedsPathOrRepo { id } => ConfigIssue::HfBackendNeedsPathOrRepo { id: id@ },
            ConfigError::HfBackendPathAndRepoExclusive { id } => ConfigIssue::HfBackendPathAndRepoExclusive { id: id@ },
            ConfigError::HfFieldOnNonHfBackend { id, field } => ConfigIssue::HfFieldOnNonHfBackend { id: id@, field: field@ },
            ConfigError::HfAdapterNeedsPathOrRepo { id, index } => ConfigIssue::HfAdapterNeedsPathOrRepo { id: id@, index },
            ConfigError::HfAdapterPathAndRepoExclusive { id, index } => ConfigIssue::HfAdapterPathAndRepoExclusive { id: id@, index },
        }
    }
}

// ---------------------------------------------------------------------
// VRAM budget resolution
// ---------------------------------------------------------------------

/// The budget of one detected device: total minus headroom, or an error
/// when the headroom swallows the whole device.
pub open spec fn budget_from_info(total_mb: u64, headroom_mb: u64) -> Result<u64, (u64, u64)> {
    if total_mb <= headroom_mb {
        Err((total_mb, headroom_mb))
    } else {
        Ok((total_mb - headroom_mb) as u64)
    }
}

/// Per-device budgets before overrides, for `Auto`: one per detected
/// device, failing at the first device whose total does not exceed the
/// headroom.
pub open spec fn auto_budgets(infos: Seq<VramInfo>, headroom_mb: u64) -> Result<Seq<u64>, (u64, u64)>
    decreases infos.len(),
{
    if infos.len() == 0 {
        Ok(Seq::empty())
    } else {
        match auto_budgets(infos.drop_last(), headroom_mb) {
            Err(e) => Err(e),
            Ok(b) => match budget_from_info(infos.last().total_mb, headroom_mb) {
                Err(e) => Err(e),
                Ok(x) => Ok(b.push(x)),
            },
        }
    }
}

/// Apply `(gpu_id, MB)` overrides in order; the first override naming a
/// device at or beyond `b.len()` is reported as `(gpu_id, device_count)`.
pub open spec fn apply_overrides(b: Seq<u64>, ov: Seq<(u32, u64)>) -> Result<Seq<u64>, (u32, u32)>
    decreases ov.len(),
{
    if ov.len() == 0 {
        Ok(b)
    } else {
        match apply_overrides(b, ov.drop_last()) {
            Err(e) => Err(e),
            Ok(b2) => if ov.last().0 >= b.len() {
                Err((ov.last().0, b.len() as u32))
            } else {
                Ok(b2.update(ov.last().0 as int, ov.last().1))
            },
        }
    }
}

proof fn lemma_apply_overrides_len(b: Seq<u64>, ov: Seq<(u32, u64)>)
    ensures
        apply_overrides(b, ov) matches Ok(r) ==> r.len() == b.len(),
    decreases ov.len(),
{
    if ov.len() > 0 {
        lemma_apply_overrides_len(b, ov.drop_last());
    }
}

proof fn lemma_auto_budgets_len(infos: Seq<VramInfo>, h: u64)
    ensures
        auto_budgets(infos, h) matches Ok(r) ==> r.len() == infos.len(),
    decreases infos.len(),
{
    if infos.len() > 0 {
        lemma_auto_budgets_len(infos.drop_last(), h);
    }
}

impl ServerConfig {
    /// Pure arithmetic: total minus headroom, or `VramAutoDetectInsufficient`
    /// when the total does not exceed the headroom.
    pub fn resolve_vram_budget_mb_from_info(info: &VramInfo, headroom_mb: u64) -> (r: Result<u64, ConfigError>)
        ensures
            info.total_mb <= headroom_mb ==> (r matches Err(ConfigError::VramAutoDetectInsufficient { total_mb, headroom_mb: h })
                && total_mb == info.total_mb && h == headroom_mb),
            info.total_mb > headroom_mb ==> r == Ok::<u64, ConfigError>((info.total_mb - headroom_mb) as u64),
    {
        if info.total_mb <= headroom_mb {
            return Err(ConfigError::VramAutoDetectInsufficient { total_mb: info.total_mb, headroom_mb });
        }
        Ok(info.total_mb - headroom_mb)
    }

    /// Resolve the single-device budget from the outcome of detecting
    /// device 0 (consulted only for `Auto`).
    pub fn resolve_vram_budget_mb_given(&self, device_zero: Option<Result<VramInfo, VramDetectError>>) -> (r: Result<u64, ConfigError>)
        requires
            self.vram_budget_mb is Auto ==> device_zero is Some,
        ensures
            self.budget_mb_post(device_zero, r),
    {
        match self.vram_budget_mb {
            VramBudgetSetting::Fixed(n) => Ok(n),
            VramBudgetSetting::Auto => {
                match device_zero {
                    Some(Ok(info)) => Self::resolve_vram_budget_mb_from_info(&info, self.vram_budget_headroom_mb),
                    Some(Err(e)) => Err(ConfigError::VramAutoDetectFailed { source: e }),
                    None => Err(ConfigError::VramAutoDetectInsufficient { total_mb: 0, headroom_mb: 0 }),
                }
            },
        }
    }

    /// What the single-device budget resolution returns for a given outcome
    /// of detecting device 0.
    pub open spec fn budget_mb_post(self, device_zero: Option<Result<VramInfo, VramDetectError>>, r: Result<u64, ConfigError>) -> bool {
        match self.vram_budget_mb {
            VramBudgetSetting::Fixed(n) => r == Ok::<u64, ConfigError>(n),
            VramBudgetSetting::Auto => match device_zero {
                Some(Err(e)) => r matches Err(ConfigError::VramAutoDetectFailed { source }) && source == e,
                Some(Ok(info)) => match budget_from_info(info.total_mb, self.vram_budget_headroom_mb) {
                    Ok(b) => r == Ok::<u64, ConfigError>(b),
                    Err((t, h)) => r matches Err(ConfigError::VramAutoDetectInsufficient { total_mb, headroom_mb })
                        && total_mb == t && headroom_mb == h,
                },
                None => true,
            },
        }
    }

    /// Resolve the configured budget. `Fixed(n)` → n; `Auto` → NVML device 0
    /// total minus `vram_budget_headroom_mb`.
    pub fn resolve_vram_budget_mb(&self) -> (r: Result<u64, ConfigError>)
        ensures
            self.vram_budget_mb is Fixed ==> self.budget_mb_post(None, r),
            self.vram_budget_mb is Auto ==> exists|d: Result<VramInfo, VramDetectError>|
                self.budget_mb_post(Some(d), r),
    {
        match self.vram_budget_mb {
            VramBudgetSetting::Fixed(_) => self.resolve_vram_budget_mb_given(None),
            VramBudgetSetting::Auto => {
                let d = detect_device_zero();
                let ghost gd = d;
                let r = self.resolve_vram_budget_mb_given(Some(d));
                assert(self.budget_mb_post(Some(gd), r));
                r
            },
        }
    }

    /// Per-device budgets given the detection outcome (consulted only for
    /// `Auto`): `Fixed(n)` gives `declared_device_count` copies of n, `Auto`
    /// one budget per detected device; overrides are applied on top.
    pub fn resolve_vram_budgets_given(
        &self,
        declared_device_count: u32,
        detected: Option<Result<Vec<VramInfo>, VramDetectError>>,
    ) -> (r: Result<Vec<u64>, ConfigError>)
        requires
            self.vram_budget_mb is Auto ==> detected is Some,
            detected matches Some(Ok(v)) ==> v@.len() <= u32::MAX,
        ensures
            r matches Ok(b) ==> b@.len() <= u32::MAX,
            self.budgets_post(declared_device_count, detected, r),
    {
        let ghost det = detected;
        let mut budgets: Vec<u64> = Vec::new();
        match self.vram_budget_mb {
            VramBudgetSetting::Fixed(n) => {
                let mut i: u32 = 0;
                while i < declared_device_count
                    invariant
                        i <= declared_device_count,
                        budgets@ == Seq::new(i as nat, |k: int| n),
                    decreases declared_device_count - i,
                {
                    budgets.push(n);
                    i = i + 1;
                    assert(budgets@ =~= Seq::new(i as nat, |k: int| n));
                }
                assert(budgets@ =~= Seq::new(declared_device_count as nat, |i: int| n));
            },
            VramBudgetSetting::Auto => {
                let infos = match detected {
                    Some(Ok(v)) => v,
                    Some(Err(e)) => return Err(ConfigError::VramAutoDetectFailed { source: e }),
                    None => return Err(ConfigError::VramAutoDetectInsufficient { total_mb: 0, headroom_mb: 0 }),
                };
                assert(det == Some(Ok::<Vec<VramInfo>, VramDetectError>(infos)));
                let mut i: usize = 0;
                while i < infos.len()
                    invariant
                        i <= infos@.len(),
                        det == Some(Ok::<Vec<VramInfo>, VramDetectError>(infos)),
                        det == detected,
                        self.vram_budget_mb is Auto,
                        auto_budgets(infos@.subrange(0, i as int), self.vram_budget_headroom_mb) == Ok::<Seq<u64>, (u64, u64)>(budgets@),
                    decreases infos@.len() - i,
                {
                    proof {
                        assert(infos@.subrange(0, i as int + 1).drop_last() =~= infos@.subrange(0, i as int));
                    }
                    let b = Self::resolve_vram_budget_mb_from_info(&infos[i], self.vram_budget_headroom_mb);
                    match b {
                        Ok(x) => budgets.push(x),
                        Err(e) => {
                            proof {
                                let pre = infos@.subrange(0, i as int + 1);
                                assert(pre.last() == infos@[i as int]);
                                assert(auto_budgets(pre, self.vram_budget_headroom_mb) == Err::<Seq<u64>, (u64, u64)>(
                                    (infos@[i as int].total_mb, self.vram_budget_headroom_mb)));
                                lemma_auto_budgets_prefix_err(infos@, self.vram_budget_headroom_mb, i as int + 1);
                                assert(self.budgets_post(declared_device_count, det, Err(e)));
                            }
                            return Err(e);
                        },
                    }
                    i = i + 1;
                }
                assert(infos@.subrange(0, i as int) =~= infos@);
            },
        }
        proof {
            match self.vram_budget_mb {
                VramBudgetSetting::Auto => {
                    lemma_auto_budgets_len(detected->0->Ok_0@, self.vram_budget_headroom_mb);
                },
                _ => {},
            }
        }
        let device_count = budgets.len() as u32;
        let ghost base = budgets@;
        let mut i: usize = 0;
        while i < self.vram_budget_overrides.len()
            invariant
                forall|rr: Result<Vec<u64>, ConfigError>| overridden(rr, base, self.vram_budget_overrides@)
                    ==> #[trigger] self.budgets_post(declared_device_count, det, rr),
                device_count == base.len(),
                det == detected,
                i <= self.vram_budget_overrides@.len(),
                apply_overrides(base, self.vram_budget_overrides@.subrange(0, i as int)) == Ok::<Seq<u64>, (u32, u32)>(budgets@),
                budgets@.len() == base.len(),
            decreases self.vram_budget_overrides@.len() - i,
        {
            let (gpu_id, mb) = self.vram_budget_overrides[i];
            proof {
                assert(self.vram_budget_overrides@.subrange(0, i as int + 1).drop_last() =~= self.vram_budget_overrides@.subrange(0, i as int));
            }
            if gpu_id >= device_count {
                proof {
                    let pre = self.vram_budget_overrides@.subrange(0, i as int + 1);
                    assert(pre.last() == (gpu_id, mb));
                    assert(apply_overrides(base, pre) == Err::<Seq<u64>, (u32, u32)>((gpu_id, base.len() as u32)));
                    lemma_overrides_prefix_err(base, self.vram_budget_overrides@, i as int + 1);
                }
                return Err(ConfigError::VramOverrideUnknownGpu { gpu_id, device_count });
            }
            budgets.set(gpu_id as usize, mb);
            i = i + 1;
        }
        assert(self.vram_budget_overrides@.subrange(0, i as int) =~= self.vram_budget_overrides@);
        Ok(budgets)
    }

    /// Resolve per-device budgets; for `Auto` this queries NVML for every
    /// device and ignores `declared_device_count`.
    pub fn resolve_vram_budgets(&self, declared_device_count: u32) -> (r: Result<Vec<u64>, ConfigError>)
        ensures
            r matches Ok(b) ==> b@.len() <= u32::MAX,
            self.vram_budget_mb is Fixed ==> self.budgets_post(declared_device_count, None, r),
            self.vram_budget_mb is Auto ==> exists|d: Result<Vec<VramInfo>, VramDetectError>|
                self.budgets_post(declared_device_count, Some(d), r),
    {
        match self.vram_budget_mb {
            VramBudgetSetting::Fixed(_) => self.resolve_vram_budgets_given(declared_device_count, None),
            VramBudgetSetting::Auto => {
                let d = detect_all_devices();
                let ghost gd = d;
                let r = self.resolve_vram_budgets_given(declared_device_count, Some(d));
                assert(self.budgets_post(declared_device_count, Some(gd), r));
                r
            },
        }
    }

    /// The per-device budgets (or the error) for a given detection outcome.
    pub open spec fn budget_seq(
        self,
        declared_device_count: u32,
        detected: Option<Result<Vec<VramInfo>, VramDetectError>>,
    ) -> Result<Seq<u64>, ConfigError> {
        let base: Result<Seq<u64>, ConfigError> = match self.vram_budget_mb {
            VramBudgetSetting::Fixed(n) => Ok(Seq::new(declared_device_count as nat, |i: int| n)),
            VramBudgetSetting::Auto => match detected {
                Some(Err(e)) => Err(ConfigError::VramAutoDetectFailed { source: e }),
                Some(Ok(v)) => match auto_budgets(v@, self.vram_budget_headroom_mb) {
                    Ok(b) => Ok(b),
                    Err((t, h)) => Err(ConfigError::VramAutoDetectInsufficient { total_mb: t, headroom_mb: h }),
                },
                None => Ok(Seq::empty()),
            },
        };
        match base {
            Err(e) => Err(e),
            Ok(b) => match apply_overrides(b, self.vram_budget_overrides@) {
                Ok(fin) => Ok(fin),
                Err((g, c)) => Err(ConfigError::VramOverrideUnknownGpu { gpu_id: g, device_count: c }),
            },
        }
    }

    /// What the per-device budget resolution returns for a given detection
    /// outcome.
    pub open spec fn budgets_post(
        self,
        declared_device_count: u32,
        detected: Option<Result<Vec<VramInfo>, VramDetectError>>,
        r: Result<Vec<u64>, ConfigError>,
    ) -> bool {
        match self.budget_seq(declared_device_count, detected) {
            Ok(b) => r matches Ok(v) && v@ == b,
            Err(e) => r == Err::<Vec<u64>, ConfigError>(e),
        }
    }
}

/// The outcome of applying overrides to base budgets `b`.
pub open spec fn overridden(r: Result<Vec<u64>, ConfigError>, b: Seq<u64>, ov: Seq<(u32, u64)>) -> bool {
    match apply_overrides(b, ov) {
        Ok(fin) => r matches Ok(v) && v@ == fin,
        Err((g, c)) => r == Err::<Vec<u64>, ConfigError>(ConfigError::VramOverrideUnknownGpu { gpu_id: g, device_count: c }),
    }
}

proof fn lemma_auto_budgets_prefix_err(s: Seq<VramInfo>, h: u64, k: int)
    requires
        0 <= k <= s.len(),
        auto_budgets(s.subrange(0, k), h) is Err,
    ensures
        auto_budgets(s, h) == auto_budgets(s.subrange(0, k), h),
    decreases s.len(),
{
    if k < s.len() {
        assert(s.drop_last().subrange(0, k) =~= s.subrange(0, k));
        lemma_auto_budgets_prefix_err(s.drop_last(), h, k);
    } else {
        assert(s.subrange(0, k) =~= s);
    }
}

proof fn lemma_overrides_prefix_err(b: Seq<u64>, ov: Seq<(u32, u64)>, k: int)
    requires
        0 <= k <= ov.len(),
        apply_overrides(b, ov.subrange(0, k)) is Err,
    ensures
        apply_overrides(b, ov) == apply_overrides(b, ov.subrange(0, k)),
    decreases ov.len(),
{
    if k < ov.len() {
        assert(ov.drop_last().subrange(0, k) =~= ov.subrange(0, k));
        lemma_overrides_prefix_err(b, ov.drop_last(), k);
    } else {
        assert(ov.subrange(0, k) =~= ov);
    }
}

// ---------------------------------------------------------------------
// The bind address
// ---------------------------------------------------------------------

/// An IP address, as parsing text with `IpAddr`'s `FromStr` gives it.
pub enum IpAddress {
    V4([u8; 4]),
    V6([u16; 8]),
}

/// A loopback address: `127.0.0.0/8`, or `::1`.
pub open spec fn is_loopback(ip: IpAddress) -> bool {
    match ip {
        IpAddress::V4(o) => o[0] == 127,
        IpAddress::V6(s) => s@ == seq![0u16, 0, 0, 0, 0, 0, 0, 1],
    }
}

impl ServerConfig {
    /// Whether the server binds only the loopback interface: its host,
    /// trimmed, is `localhost` in any case, or parses (as `ip` says it
    /// does) to a loopback address. A host that parses to nothing is taken
    /// as public.
    pub fn binds_loopback(&self, ip: Option<IpAddress>) -> (r: bool)
        ensures
            r == (crate::text::eq_ignore_case(crate::text::trim(self.host@), "localhost"@) || (match ip {
                Some(a) => is_loopback(a),
                None => false,
            })),
    {
        let h = crate::text::trimmed(self.host.as_str());
        if crate::text::str_eq_ignore_case(h.as_str(), "localhost") {
            return true;
        }
        match ip {
            Some(IpAddress::V4(o)) => o[0] == 127,
            Some(IpAddress::V6(s)) => {
                let r = s[0] == 0 && s[1] == 0 && s[2] == 0 && s[3] == 0 && s[4] == 0 && s[5] == 0 && s[6] == 0
                    && s[7] == 1;
                assert(r == (s@ == seq![0u16, 0, 0, 0, 0, 0, 0, 1])) by {
                    if r {
                        assert(s@ =~= seq![0u16, 0, 0, 0, 0, 0, 0, 1]);
                    }
                }
                r
            },
            None => false,
        }
    }
}

/// How the server answers cross-origin requests.
pub enum CorsPolicy {
    /// Any origin (development on a loopback bind).
    Permissive,
    /// No cross-origin request.
    DenyAll,
    /// Only these origins.
    AllowList(Vec<String>),
}

impl ServerConfig {
    /// The startup check on authentication: a server that binds a public
    /// address must have API keys, or say that it runs unauthenticated.
    pub fn check_auth_posture(&self, ip: Option<IpAddress>) -> (r: Result<(), ConfigError>)
        ensures
            ({
                let loopback = crate::text::eq_ignore_case(crate::text::trim(self.host@), "localhost"@) || (match ip {
                    Some(a) => is_loopback(a),
                    None => false,
                });
                if !loopback && self.api_keys@.len() == 0 && !self.allow_unauthenticated {
                    r matches Err(ConfigError::PublicBindRequiresAuth { host }) && host@ == self.host@
                } else {
                    r is Ok
                }
            }),
    {
        if !self.binds_loopback(ip) && self.api_keys.len() == 0 && !self.allow_unauthenticated {
            Err(ConfigError::PublicBindRequiresAuth { host: crate::text::copy_string(&self.host) })
        } else {
            Ok(())
        }
    }

    /// The CORS policy: the configured origins when there are any; else
    /// permissive on a loopback bind and closed on a public one.
    pub fn cors_policy(&self, loopback: bool) -> (p: CorsPolicy)
        ensures
            self.cors_origins@.len() > 0 ==> (p matches CorsPolicy::AllowList(v)
                && crate::text::strings_view(v@) == crate::text::strings_view(self.cors_origins@)),
            self.cors_origins@.len() == 0 && loopback ==> p is Permissive,
            self.cors_origins@.len() == 0 && !loopback ==> p is DenyAll,
    {
        if self.cors_origins.len() > 0 {
            CorsPolicy::AllowList(crate::text::copy_strings(&self.cors_origins))
        } else if loopback {
            CorsPolicy::Permissive
        } else {
            CorsPolicy::DenyAll
        }
    }
}


// ---------------------------------------------------------------------
// Laws
// ---------------------------------------------------------------------

/// The last override that names a device, if any.
pub open spec fn last_override(ov: Seq<(u32, u64)>, d: int) -> Option<u64>
    decreases ov.len(),
{
    if ov.len() == 0 {
        None
    } else if ov.last().0 == d {
        Some(ov.last().1)
    } else {
        last_override(ov.drop_last(), d)
    }
}

/// Overrides win: a device's budget is the last override naming it, and a
/// device no override names keeps its budget.
pub proof fn law_override_wins(b: Seq<u64>, ov: Seq<(u32, u64)>)
    requires
        apply_overrides(b, ov) is Ok,
    ensures
        ({
            let r = apply_overrides(b, ov)->Ok_0;
            &&& r.len() == b.len()
            &&& forall|d: int| 0 <= d < b.len() ==> #[trigger] r[d] == match last_override(ov, d) {
                Some(mb) => mb,
                None => b[d],
            }
        }),
    decreases ov.len(),
{
    lemma_apply_overrides_len(b, ov);
    if ov.len() > 0 {
        law_override_wins(b, ov.drop_last());
        lemma_apply_overrides_len(b, ov.drop_last());
    }
}

/// Each budget of `r` is the matching device's total less the headroom.
pub open spec fn headroom_subtracted(infos: Seq<VramInfo>, headroom_mb: u64, r: Seq<u64>) -> bool {
    &&& r.len() == infos.len()
    &&& forall|i: int| 0 <= i < infos.len() ==> (#[trigger] infos[i]).total_mb > headroom_mb
    &&& forall|i: int| 0 <= i < infos.len() ==> #[trigger] r[i] == infos[i].total_mb - headroom_mb
}

/// Each auto-detected budget is the device's total less the headroom.
pub proof fn law_auto_budget_subtracts_headroom(infos: Seq<VramInfo>, headroom_mb: u64)
    requires
        auto_budgets(infos, headroom_mb) is Ok,
    ensures
        headroom_subtracted(infos, headroom_mb, auto_budgets(infos, headroom_mb)->Ok_0),
    decreases infos.len(),
{
    lemma_auto_budgets_len(infos, headroom_mb);
    if infos.len() > 0 {
        let pre = infos.drop_last();
        law_auto_budget_subtracts_headroom(pre, headroom_mb);
        let r = auto_budgets(infos, headroom_mb)->Ok_0;
        let p = auto_budgets(pre, headroom_mb)->Ok_0;
        assert(infos.last().total_mb > headroom_mb);
        assert(r == p.push((infos.last().total_mb - headroom_mb) as u64));
        assert forall|i: int| 0 <= i < infos.len() implies (#[trigger] infos[i]).total_mb > headroom_mb by {
            if i < infos.len() - 1 {
                assert(pre[i] == infos[i]);
            }
        }
        assert forall|i: int| 0 <= i < infos.len() implies #[trigger] r[i] == infos[i].total_mb - headroom_mb by {
            if i < infos.len() - 1 {
                assert(pre[i] == infos[i]);
                assert(r[i] == p[i]);
            }
        }
    }
}

} // verus!
