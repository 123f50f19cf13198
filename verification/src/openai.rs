//! The OpenAI-compatible backend (OpenAI, Groq): its settings, the request
//! body it sends, and the relabelling of answers to the local model id.

use vstd::prelude::*;
use crate::anthropic::{ModelInfo, or_default};
use crate::api_types::{ChatCompletionChunk, ChatCompletionRequest, ChatCompletionResponse, ChatMessage, copy_message};
use crate::cloud::{check_reply, join_endpoint, retry_after_secs, trim_slashes, upstream_error_is};
use crate::config::ModelConfig;
use crate::error::EngineError;
use crate::text::{copy_string, copy_strings, push_str, str_eq, strings_view, to_string};

verus! {

pub const OPENAI_DEFAULT_BASE_URL: &'static str = "https://api.openai.com/v1";
pub const GROQ_DEFAULT_BASE_URL: &'static str = "https://api.groq.com/openai/v1";

/// The settings of an OpenAI-compatible backend; the HTTP client is built
/// from them (with `timeout_secs`) by the caller.
pub struct OpenAICompatibleBackend {
    pub id: String,
    pub upstream_model: String,
    pub provider_name: &'static str,
    pub base_url: String,
    pub api_key: String,
    pub timeout_secs: u64,
    pub max_tokens_cap: u32,
}

/// The default base URL of a provider.
pub open spec fn provider_base_url(provider: Seq<char>) -> Seq<char> {
    if provider == "openai"@ { OPENAI_DEFAULT_BASE_URL@ } else { GROQ_DEFAULT_BASE_URL@ }
}

impl OpenAICompatibleBackend {
    /// Settings from a model declaration for `provider` (`openai` or
    /// `groq`; another provider needs an explicit base URL). The API key is
    /// required; the upstream model defaults to the local id, the base URL
    /// to the provider's, the timeout to 300 s and the token cap to 8192.
    pub fn new(cfg: &ModelConfig, provider: &'static str) -> (r: Result<Self, EngineError>)
        requires
            cfg.api_key is Some && cfg.base_url is None ==> (provider@ == "openai"@ || provider@ == "groq"@),
        ensures
            match r {
                Err(e) => cfg.api_key is None && (e matches EngineError::ModelLoadFailed(m)
                    && m@ == "model '"@ + cfg.id@ + "': api_key required for "@ + provider@ + " backend"@),
                Ok(b) => (cfg.api_key matches Some(k) && b.api_key@ == k@)
                    && b.id@ == cfg.id@
                    && b.provider_name == provider
                    && b.upstream_model@ == or_default(cfg.upstream_model, cfg.id@)
                    && b.base_url@ == or_default(cfg.base_url, provider_base_url(provider@))
                    && b.timeout_secs == (match cfg.timeout_secs { Some(t) => t, None => 300 })
                    && b.max_tokens_cap == (match cfg.max_tokens_cap { Some(c) => c, None => 8192 }),
            },
    {
        let api_key = match &cfg.api_key {
            Some(k) => copy_string(k),
            None => {
                let mut m = to_string("model '");
                push_str(&mut m, cfg.id.as_str());
                push_str(&mut m, "': api_key required for ");
                push_str(&mut m, provider);
                push_str(&mut m, " backend");
                return Err(EngineError::ModelLoadFailed(m));
            },
        };
        let upstream_model = match &cfg.upstream_model {
            Some(u) => copy_string(u),
            None => copy_string(&cfg.id),
        };
        let base_url = match &cfg.base_url {
            Some(u) => copy_string(u),
            None => {
                if str_eq(provider, "openai") {
                    to_string(OPENAI_DEFAULT_BASE_URL)
                } else {
                    to_string(GROQ_DEFAULT_BASE_URL)
                }
            },
        };
        let timeout_secs = match cfg.timeout_secs {
            Some(t) => t,
            None => 300,
        };
        let max_tokens_cap = match cfg.max_tokens_cap {
            Some(c) => c,
            None => 8192,
        };
        Ok(OpenAICompatibleBackend {
            id: copy_string(&cfg.id),
            upstream_model,
            provider_name: provider,
            base_url,
            api_key,
            timeout_secs,
            max_tokens_cap,
        })
    }

    /// The chat endpoint: the base URL without trailing slashes, then `/chat/completions`.
    pub fn endpoint(&self) -> (r: String)
        ensures
            r@ == trim_slashes(self.base_url@) + "/chat/completions"@,
    {
        join_endpoint(self.base_url.as_str(), "/chat/completions")
    }

    pub fn provider(&self) -> (r: &'static str)
        ensures
            r == self.provider_name,
    {
        self.provider_name
    }

    /// What the upstream's reply status decides, before its body is read
    /// as an answer: a 2xx reply goes on; a 429 is rate limiting with the
    /// `Retry-After` delay; any other is classified under this backend's
    /// provider name.
    pub fn check_reply(&self, status: u16, retry_after: Option<&str>, body: &str) -> (r: Result<(), EngineError>)
        requires
            100 <= status <= 999,
        ensures
            200 <= status < 300 ==> r is Ok,
            !(200 <= status < 300) && status == 429 ==> r == Err::<(), EngineError>(
                EngineError::RateLimited { retry_after_secs: retry_after_secs(retry_after) },
            ),
            !(200 <= status < 300) && status != 429 ==> (r matches Err(e) && upstream_error_is(
                e,
                self.provider_name@,
                status,
                body@,
            )),
    {
        check_reply(self.provider_name, status, retry_after, body)
    }

    pub fn max_tokens_cap(&self) -> (r: u32)
        ensures
            r == self.max_tokens_cap,
    {
        self.max_tokens_cap
    }

    pub fn model_info(&self) -> (r: ModelInfo)
        ensures
            r.id@ == self.id@,
            r.context_size == 0,
            r.loaded,
            r.provider@ == self.provider_name@,
    {
        ModelInfo { id: copy_string(&self.id), context_size: 0, loaded: true, provider: to_string(self.provider_name) }
    }

    /// The request body: the upstream model, the messages, the sampling
    /// parameters and `stream`; `stop` only when non-empty, `seed` only
    /// when set.
    pub fn build_body(&self, request: &ChatCompletionRequest, stream: bool) -> (b: OpenAiBody)
        ensures
            b.model@ == self.upstream_model@,
            b.messages@.len() == request.messages@.len(),
            forall|i: int| 0 <= i < b.messages@.len() ==> (#[trigger] b.messages@[i]).role@ == request.messages@[i].role@
                && b.messages@[i].content@ == request.messages@[i].content@,
            b.temperature_bits == request.temperature_bits,
            b.top_p_bits == request.top_p_bits,
            b.max_tokens == request.max_tokens,
            b.stream == stream,
            request.stop@.len() == 0 ==> b.stop is None,
            request.stop@.len() > 0 ==> (b.stop matches Some(s) && strings_view(s@) == strings_view(request.stop@)),
            b.seed == request.seed,
    {
        let mut messages: Vec<ChatMessage> = Vec::new();
        let mut i: usize = 0;
        while i < request.messages.len()
            invariant
                i <= request.messages@.len(),
                messages@.len() == i,
                forall|k: int| 0 <= k < i ==> (#[trigger] messages@[k]).role@ == request.messages@[k].role@
                    && messages@[k].content@ == request.messages@[k].content@,
            decreases request.messages@.len() - i,
        {
            messages.push(copy_message(&request.messages[i]));
            i = i + 1;
        }
        let stop = if request.stop.len() == 0 {
            None
        } else {
            Some(copy_strings(&request.stop))
        };
        OpenAiBody {
            model: copy_string(&self.upstream_model),
            messages,
            temperature_bits: request.temperature_bits,
            top_p_bits: request.top_p_bits,
            max_tokens: request.max_tokens,
            stream,
            stop,
            seed: request.seed,
        }
    }

    /// Report an upstream answer under the local model id.
    pub fn relabel_response(&self, resp: &mut ChatCompletionResponse)
        ensures
            final(resp).model@ == self.id@,
            *final(resp) == (ChatCompletionResponse { model: final(resp).model, ..*old(resp) }),
    {
        resp.model = copy_string(&self.id);
    }

    /// Report an upstream chunk under the local model id.
    pub fn relabel_chunk(&self, chunk: &mut ChatCompletionChunk)
        ensures
            final(chunk).model@ == self.id@,
            *final(chunk) == (ChatCompletionChunk { model: final(chunk).model, ..*old(chunk) }),
    {
        chunk.model = copy_string(&self.id);
    }
}

/// The body of a chat request to an OpenAI-compatible upstream.
pub struct OpenAiBody {
    pub model: String,
    pub messages: Vec<ChatMessage>,
    /// Bit pattern of the `f32` temperature.
    pub temperature_bits: u32,
    /// Bit pattern of the `f32` `top_p`.
    pub top_p_bits: u32,
    pub max_tokens: u32,
    pub stream: bool,
    pub stop: Option<Vec<String>>,
    pub seed: Option<u32>,
}

/// The data of the event that ends an upstream stream.
pub fn is_done_event(data: &str) -> (r: bool)
    ensures
        r == (data@ == "[DONE]"@),
{
    str_eq(data, "[DONE]")
}

} // verus!
