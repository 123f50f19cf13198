//! The names of the gateway's Prometheus metrics.

use vstd::prelude::*;

verus! {

pub const REQUESTS_TOTAL: &'static str = "flarion_requests_total";
pub const ROUTE_RULE_MATCHES_TOTAL: &'static str = "flarion_route_rule_matches_total";
pub const FALLBACKS_TOTAL: &'static str = "flarion_fallbacks_total";
pub const ROUTE_EXHAUSTED_TOTAL: &'static str = "flarion_route_exhausted_total";

pub const FIRST_TOKEN_SECONDS: &'static str = "flarion_first_token_seconds";
pub const REQUEST_DURATION_SECONDS: &'static str = "flarion_request_duration_seconds";
pub const PROMPT_TOKENS: &'static str = "flarion_prompt_tokens";
pub const COMPLETION_TOKENS: &'static str = "flarion_completion_tokens";

pub const BUILD_INFO: &'static str = "flarion_build_info";

pub const BACKEND_POISONED: &'static str = "flarion_backend_poisoned";
pub const VRAM_BUDGET_MB: &'static str = "flarion_vram_budget_mb";
pub const VRAM_RESERVED_MB: &'static str = "flarion_vram_reserved_mb";
pub const MODEL_LOADS_TOTAL: &'static str = "flarion_model_loads_total";
pub const MODEL_UNLOADS_TOTAL: &'static str = "flarion_model_unloads_total";
pub const MODEL_EVICTIONS_TOTAL: &'static str = "flarion_model_evictions_total";

} // verus!
