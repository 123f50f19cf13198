//! The Hugging Face (safetensors) backend. Only its settings exist so far:
//! loading and inference answer `NotImplemented`.

use vstd::prelude::*;
use crate::anthropic::ModelInfo;
use crate::api_types::{ChatCompletionRequest, ChatCompletionResponse};
use crate::config::ModelConfig;
use crate::error::EngineError;
use crate::text::{copy_string, push_str, to_string};

verus! {

pub struct HfBackend {
    pub id: String,
    pub context_size: u32,
    pub max_tokens_cap: u32,
}

/// The error an entry point of this backend answers: `NotImplemented`
/// with a message naming the operation and the model.
pub open spec fn not_implemented(e: EngineError, msg: Seq<char>) -> bool {
    e matches EngineError::NotImplemented(m) && m@ == msg
}

fn not_implemented_error(prefix: &str, id: &str, suffix: &str) -> (e: EngineError)
    ensures
        not_implemented(e, prefix@ + id@ + suffix@),
{
    let mut m = to_string(prefix);
    push_str(&mut m, id);
    push_str(&mut m, suffix);
    EngineError::NotImplemented(m)
}

impl HfBackend {
    /// Settings from a model declaration; no weights are read. The token
    /// cap defaults to 8192.
    pub fn new(cfg: &ModelConfig) -> (r: Result<Self, EngineError>)
        ensures
            r matches Ok(b) && b.id@ == cfg.id@ && b.context_size == cfg.context_size
                && b.max_tokens_cap == (match cfg.max_tokens_cap { Some(c) => c, None => 8192 }),
    {
        Ok(HfBackend {
            id: copy_string(&cfg.id),
            context_size: cfg.context_size,
            max_tokens_cap: match cfg.max_tokens_cap {
                Some(c) => c,
                None => 8192,
            },
        })
    }

    pub fn load(&self) -> (r: Result<(), EngineError>)
        ensures
            r matches Err(e) && not_implemented(e, "hf backend load for '"@ + self.id@ + "': Wave 2 lands the loader"@),
    {
        Err(not_implemented_error("hf backend load for '", self.id.as_str(), "': Wave 2 lands the loader"))
    }

    pub fn chat_completion(&self, request: ChatCompletionRequest) -> (r: Result<ChatCompletionResponse, EngineError>)
        ensures
            r matches Err(e) && not_implemented(e, "hf backend chat_completion for '"@ + self.id@ + "'"@),
    {
        Err(not_implemented_error("hf backend chat_completion for '", self.id.as_str(), "'"))
    }

    /// A streaming request; nothing is sent.
    pub fn chat_completion_stream(&self, request: ChatCompletionRequest) -> (r: Result<(), EngineError>)
        ensures
            r matches Err(e) && not_implemented(e, "hf backend chat_completion_stream for '"@ + self.id@ + "'"@),
    {
        Err(not_implemented_error("hf backend chat_completion_stream for '", self.id.as_str(), "'"))
    }

    /// Its listing entry: never loaded, provider `hf`.
    pub fn model_info(&self) -> (r: ModelInfo)
        ensures
            r.id@ == self.id@,
            r.context_size == self.context_size,
            !r.loaded,
            r.provider@ == "hf"@,
    {
        ModelInfo { id: copy_string(&self.id), context_size: self.context_size, loaded: false, provider: to_string("hf") }
    }

    pub fn provider(&self) -> (r: &'static str)
        ensures
            r@ == "hf"@,
    {
        "hf"
    }

    pub fn max_tokens_cap(&self) -> (r: u32)
        ensures
            r == self.max_tokens_cap,
    {
        self.max_tokens_cap
    }
}

} // verus!
