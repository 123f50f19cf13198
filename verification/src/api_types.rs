//! The OpenAI-compatible request and response types of the gateway's API.
//!
//! Sampling parameters that the wire format carries as `f32` are held here
//! as their IEEE-754 bit patterns; the serialising layer converts.

use vstd::prelude::*;
use crate::text::{opt_view, to_string};

verus! {

pub struct ChatCompletionRequest {
    pub model: String,
    pub messages: Vec<ChatMessage>,
    pub stream: bool,
    /// Bit pattern of the `f32` temperature.
    pub temperature_bits: u32,
    /// Bit pattern of the `f32` nucleus-sampling threshold.
    pub top_p_bits: u32,
    pub max_tokens: u32,
    pub stop: Vec<String>,
    pub seed: Option<u32>,
}

/// Bit pattern of the default temperature, `0.7f32`.
pub fn default_temperature() -> (b: u32)
    ensures
        b == 0x3f33_3333u32,
{
    0x3f33_3333u32
}

/// Bit pattern of the default `top_p`, `0.9f32`.
pub fn default_top_p() -> (b: u32)
    ensures
        b == 0x3f66_6666u32,
{
    0x3f66_6666u32
}

pub fn default_max_tokens() -> (n: u32)
    ensures
        n == 2048,
{
    2048
}

pub struct ChatMessage {
    pub role: String,
    pub content: String,
}

pub fn copy_message(m: &ChatMessage) -> (r: ChatMessage)
    ensures
        r.role@ == m.role@,
        r.content@ == m.content@,
{
    ChatMessage { role: to_string(m.role.as_str()), content: to_string(m.content.as_str()) }
}

pub struct ChatCompletionResponse {
    pub id: String,
    pub object: String,
    pub created: i64,
    pub model: String,
    pub choices: Vec<ChatCompletionChoice>,
    pub usage: Usage,
}

pub struct ChatCompletionChoice {
    pub index: u32,
    pub message: ChatMessage,
    pub finish_reason: String,
}

pub struct Usage {
    pub prompt_tokens: u32,
    pub completion_tokens: u32,
    pub total_tokens: u32,
}

pub struct ChatCompletionChunk {
    pub id: String,
    pub object: String,
    pub created: i64,
    pub model: String,
    pub choices: Vec<ChatCompletionChunkChoice>,
}

pub struct ChatCompletionChunkChoice {
    pub index: u32,
    pub delta: ChatDelta,
    pub finish_reason: Option<String>,
}

pub struct ChatDelta {
    pub role: Option<String>,
    pub content: Option<String>,
}

pub struct ModelsResponse {
    pub object: String,
    pub data: Vec<ModelObject>,
}

pub struct ModelObject {
    pub id: String,
    pub object: String,
    pub created: i64,
    pub owned_by: String,
}

pub struct HealthResponse {
    pub status: String,
    pub version: String,
    pub model_loaded: bool,
    pub model_id: String,
}

/// A chunk with one choice, index 0: `id`, `model`, the delta and the
/// finish reason as given, object `chat.completion.chunk`.
pub open spec fn is_chunk(
    c: ChatCompletionChunk,
    id: Seq<char>,
    model: Seq<char>,
    created: i64,
    role: Option<Seq<char>>,
    content: Option<Seq<char>>,
    finish: Option<Seq<char>>,
) -> bool {
    &&& c.id@ == id
    &&& c.object@ == "chat.completion.chunk"@
    &&& c.created == created
    &&& c.model@ == model
    &&& c.choices@.len() == 1
    &&& c.choices@[0].index == 0
    &&& opt_view(c.choices@[0].delta.role) == role
    &&& opt_view(c.choices@[0].delta.content) == content
    &&& opt_view(c.choices@[0].finish_reason) == finish
}

fn opt_str(o: Option<&str>) -> (r: Option<String>)
    ensures
        opt_view(r) == (match o {
            Some(s) => Some(s@),
            None => None::<Seq<char>>,
        }),
{
    match o {
        Some(s) => Some(to_string(s)),
        None => None,
    }
}

/// Build a one-choice streaming chunk.
pub fn make_chunk(
    id: &str,
    model: &str,
    created: i64,
    role: Option<&str>,
    content: Option<&str>,
    finish: Option<&str>,
) -> (c: ChatCompletionChunk)
    ensures
        is_chunk(
            c,
            id@,
            model@,
            created,
            match role { Some(s) => Some(s@), None => None },
            match content { Some(s) => Some(s@), None => None },
            match finish { Some(s) => Some(s@), None => None },
        ),
{
    let choice = ChatCompletionChunkChoice {
        index: 0,
        delta: ChatDelta { role: opt_str(role), content: opt_str(content) },
        finish_reason: opt_str(finish),
    };
    let mut choices: Vec<ChatCompletionChunkChoice> = Vec::new();
    choices.push(choice);
    ChatCompletionChunk {
        id: to_string(id),
        object: to_string("chat.completion.chunk"),
        created,
        model: to_string(model),
        choices,
    }
}

} // verus!
