//! The Anthropic Messages API backend: its settings, the translation of
//! an OpenAI-style request into a Messages request and back, and the
//! handling of each server-sent event of a streamed answer.

use vstd::prelude::*;
use crate::api_types::{
    ChatCompletionChoice, ChatCompletionChunk, ChatCompletionRequest, ChatCompletionResponse, ChatMessage, Usage,
    is_chunk, make_chunk,
};
use crate::cloud::{check_reply, join_endpoint, retry_after_secs, trim_slashes, upstream_error_is};
use crate::config::ModelConfig;
use crate::error::EngineError;
use crate::text::{copy_string, copy_strings, opt_view, push_str, str_eq, strings_view, to_string};

verus! {

pub const ANTHROPIC_DEFAULT_BASE_URL: &'static str = "https://api.anthropic.com/v1";
pub const ANTHROPIC_VERSION: &'static str = "2023-06-01";

/// The settings of an Anthropic backend; the HTTP client is built from
/// them (with `timeout_secs`) by the caller.
pub struct AnthropicBackend {
    pub id: String,
    pub upstream_model: String,
    pub base_url: String,
    pub api_key: String,
    pub timeout_secs: u64,
    pub max_tokens_cap: u32,
}

/// What a backend reports of its model.
pub struct ModelInfo {
    pub id: String,
    pub context_size: u32,
    pub loaded: bool,
    pub provider: String,
}

pub open spec fn or_default(o: Option<String>, d: Seq<char>) -> Seq<char> {
    match o {
        Some(s) => s@,
        None => d,
    }
}

impl AnthropicBackend {
    /// Settings from a model declaration. The API key is required; the
    /// upstream model defaults to the local id, the base URL to Anthropic's,
    /// the timeout to 300 s and the token cap to 8192.
    pub fn new(cfg: &ModelConfig) -> (r: Result<Self, EngineError>)
        ensures
            match r {
                Err(e) => cfg.api_key is None && (e matches EngineError::ModelLoadFailed(m)
                    && m@ == "model '"@ + cfg.id@ + "': api_key required for anthropic backend"@),
                Ok(b) => (cfg.api_key matches Some(k) && b.api_key@ == k@)
                    && b.id@ == cfg.id@
                    && b.upstream_model@ == or_default(cfg.upstream_model, cfg.id@)
                    && b.base_url@ == or_default(cfg.base_url, ANTHROPIC_DEFAULT_BASE_URL@)
                    && b.timeout_secs == (match cfg.timeout_secs { Some(t) => t, None => 300 })
                    && b.max_tokens_cap == (match cfg.max_tokens_cap { Some(c) => c, None => 8192 }),
            },
    {
        let api_key = match &cfg.api_key {
            Some(k) => copy_string(k),
            None => {
                let mut m = to_string("model '");
                push_str(&mut m, cfg.id.as_str());
                push_str(&mut m, "': api_key required for anthropic backend");
                return Err(EngineError::ModelLoadFailed(m));
            },
        };
        let upstream_model = match &cfg.upstream_model {
            Some(u) => copy_string(u),
            None => copy_string(&cfg.id),
        };
        let base_url = match &cfg.base_url {
            Some(u) => copy_string(u),
            None => to_string(ANTHROPIC_DEFAULT_BASE_URL),
        };
        let timeout_secs = match cfg.timeout_secs {
            Some(t) => t,
            None => 300,
        };
        let max_tokens_cap = match cfg.max_tokens_cap {
            Some(c) => c,
            None => 8192,
        };
        Ok(AnthropicBackend { id: copy_string(&cfg.id), upstream_model, base_url, api_key, timeout_secs, max_tokens_cap })
    }

    /// The Messages endpoint: the base URL without trailing slashes, then `/messages`.
    pub fn endpoint(&self) -> (r: String)
        ensures
            r@ == trim_slashes(self.base_url@) + "/messages"@,
    {
        join_endpoint(self.base_url.as_str(), "/messages")
    }

    pub fn provider(&self) -> (r: &'static str)
        ensures
            r@ == "anthropic"@,
    {
        "anthropic"
    }

    /// What the upstream's reply status decides, before its body is read
    /// as an answer: a 2xx reply goes on; a 429 is rate limiting with the
    /// `Retry-After` delay; any other is classified as an `anthropic`
    /// failure.
    pub fn check_reply(&self, status: u16, retry_after: Option<&str>, body: &str) -> (r: Result<(), EngineError>)
        requires
            100 <= status <= 999,
        ensures
            200 <= status < 300 ==> r is Ok,
            !(200 <= status < 300) && status == 429 ==> r == Err::<(), EngineError>(
                EngineError::RateLimited { retry_after_secs: retry_after_secs(retry_after) },
            ),
            !(200 <= status < 300) && status != 429 ==> (r matches Err(e) && upstream_error_is(e, "anthropic"@, status, body@)),
    {
        check_reply(self.provider(), status, retry_after, body)
    }

    pub fn max_tokens_cap(&self) -> (r: u32)
        ensures
            r == self.max_tokens_cap,
    {
        self.max_tokens_cap
    }

    pub fn model_info(&self) -> (r: ModelInfo)
        ensures
            r.id@ == self.id@,
            r.context_size == 0,
            r.loaded,
            r.provider@ == "anthropic"@,
    {
        ModelInfo { id: copy_string(&self.id), context_size: 0, loaded: true, provider: to_string("anthropic") }
    }
}

// ---------------------------------------------------------------------
// Requests
// ---------------------------------------------------------------------

pub struct AnthropicRequest {
    pub model: String,
    pub messages: Vec<AnthropicMessage>,
    pub system: Option<String>,
    pub max_tokens: u32,
    /// Bit pattern of the `f32` temperature.
    pub temperature_bits: Option<u32>,
    /// Bit pattern of the `f32` `top_p`.
    pub top_p_bits: Option<u32>,
    pub stop_sequences: Option<Vec<String>>,
    pub stream: bool,
}

pub struct AnthropicMessage {
    pub role: String,
    pub content: String,
}

/// The system prompt of the conversation `msgs`: the contents of its
/// `system` messages in order, separated by a blank line; `None` if it has
/// none.
pub open spec fn system_prompt(msgs: Seq<ChatMessage>) -> Option<Seq<char>>
    decreases msgs.len(),
{
    if msgs.len() == 0 {
        None
    } else {
        let prev = system_prompt(msgs.drop_last());
        let m = msgs.last();
        if m.role@ == "system"@ {
            Some(match prev {
                Some(p) => p + "\n\n"@ + m.content@,
                None => m.content@,
            })
        } else {
            prev
        }
    }
}

/// The non-`system` messages of the conversation, in order, as (role, content).
pub open spec fn turns(msgs: Seq<ChatMessage>) -> Seq<(Seq<char>, Seq<char>)>
    decreases msgs.len(),
{
    if msgs.len() == 0 {
        Seq::empty()
    } else {
        let prev = turns(msgs.drop_last());
        let m = msgs.last();
        if m.role@ == "system"@ {
            prev
        } else {
            prev.push((m.role@, m.content@))
        }
    }
}

pub open spec fn messages_view(v: Seq<AnthropicMessage>) -> Seq<(Seq<char>, Seq<char>)> {
    v.map_values(|m: AnthropicMessage| (m.role@, m.content@))
}

/// Translate a chat request into a Messages request for `upstream_model`.
pub fn to_anthropic_request(req: &ChatCompletionRequest, upstream_model: &str, stream: bool) -> (r: AnthropicRequest)
    ensures
        r.model@ == upstream_model@,
        messages_view(r.messages@) == turns(req.messages@),
        opt_view(r.system) == system_prompt(req.messages@),
        r.max_tokens == req.max_tokens,
        r.temperature_bits == Some(req.temperature_bits),
        r.top_p_bits == Some(req.top_p_bits),
        req.stop@.len() == 0 ==> r.stop_sequences is None,
        req.stop@.len() > 0 ==> (r.stop_sequences matches Some(s) && strings_view(s@) == strings_view(req.stop@)),
        r.stream == stream,
{
    let mut system: Option<String> = None;
    let mut messages: Vec<AnthropicMessage> = Vec::new();
    let mut i: usize = 0;
    while i < req.messages.len()
        invariant
            i <= req.messages@.len(),
            opt_view(system) == system_prompt(req.messages@.subrange(0, i as int)),
            messages_view(messages@) == turns(req.messages@.subrange(0, i as int)),
        decreases req.messages@.len() - i,
    {
        let m = &req.messages[i];
        let ghost pre = req.messages@.subrange(0, i as int);
        let ghost next = req.messages@.subrange(0, i + 1);
        assert(next.drop_last() =~= pre);
        assert(next.last() == *m);
        if str_eq(m.role.as_str(), "system") {
            system = match system {
                Some(prev) => {
                    let mut s = prev;
                    push_str(&mut s, "\n\n");
                    push_str(&mut s, m.content.as_str());
                    Some(s)
                },
                None => Some(copy_string(&m.content)),
            };
        } else {
            messages.push(AnthropicMessage { role: copy_string(&m.role), content: copy_string(&m.content) });
            assert(messages_view(messages@) =~= turns(pre).push((m.role@, m.content@)));
        }
        i = i + 1;
    }
    assert(req.messages@.subrange(0, req.messages@.len() as int) =~= req.messages@);
    let stop_sequences = if req.stop.len() == 0 {
        None
    } else {
        Some(copy_strings(&req.stop))
    };
    AnthropicRequest {
        model: to_string(upstream_model),
        messages,
        system,
        max_tokens: req.max_tokens,
        temperature_bits: Some(req.temperature_bits),
        top_p_bits: Some(req.top_p_bits),
        stop_sequences,
        stream,
    }
}

// ---------------------------------------------------------------------
// Responses
// ---------------------------------------------------------------------

pub struct AnthropicResponse {
    pub id: String,
    pub model: String,
    pub content: Vec<AnthropicContent>,
    pub stop_reason: Option<String>,
    pub usage: AnthropicUsage,
}

pub struct AnthropicContent {
    pub content_type: String,
    pub text: String,
}

pub struct AnthropicUsage {
    pub input_tokens: u32,
    pub output_tokens: u32,
}

/// OpenAI's finish reason for an Anthropic stop reason: `max_tokens` is
/// `length`, everything else (`end_turn`, `stop_sequence`, unknown or
/// absent) is `stop`.
pub open spec fn finish_reason_for(reason: Option<Seq<char>>) -> Seq<char> {
    if reason == Some("max_tokens"@) {
        "length"@
    } else {
        "stop"@
    }
}

pub fn map_stop_reason(reason: Option<&str>) -> (r: String)
    ensures
        r@ == finish_reason_for(match reason { Some(s) => Some(s@), None => None }),
{
    match reason {
        Some(s) => {
            if str_eq(s, "max_tokens") {
                to_string("length")
            } else {
                to_string("stop")
            }
        },
        None => to_string("stop"),
    }
}

/// The text of the `text` blocks of `blocks`, concatenated in order.
pub open spec fn text_of(blocks: Seq<AnthropicContent>) -> Seq<char>
    decreases blocks.len(),
{
    if blocks.len() == 0 {
        Seq::empty()
    } else {
        let b = blocks.last();
        text_of(blocks.drop_last()) + (if b.content_type@ == "text"@ { b.text@ } else { Seq::empty() })
    }
}

/// Translate a Messages answer into a chat completion for the local model
/// `local_id`, with the id and creation time given.
pub fn from_anthropic_response(resp: AnthropicResponse, local_id: String, request_id: String, created: i64)
    -> (r: ChatCompletionResponse)
    requires
        resp.usage.input_tokens + resp.usage.output_tokens <= u32::MAX,
    ensures
        r.id@ == request_id@,
        r.object@ == "chat.completion"@,
        r.created == created,
        r.model@ == local_id@,
        r.choices@.len() == 1,
        r.choices@[0].index == 0,
        r.choices@[0].message.role@ == "assistant"@,
        r.choices@[0].message.content@ == text_of(resp.content@),
        r.choices@[0].finish_reason@ == finish_reason_for(opt_view(resp.stop_reason)),
        r.usage.prompt_tokens == resp.usage.input_tokens,
        r.usage.completion_tokens == resp.usage.output_tokens,
        r.usage.total_tokens == resp.usage.input_tokens + resp.usage.output_tokens,
{
    let mut content = String::new();
    let mut i: usize = 0;
    while i < resp.content.len()
        invariant
            i <= resp.content@.len(),
            content@ == text_of(resp.content@.subrange(0, i as int)),
        decreases resp.content@.len() - i,
    {
        let b = &resp.content[i];
        let ghost pre = resp.content@.subrange(0, i as int);
        let ghost next = resp.content@.subrange(0, i + 1);
        assert(next.drop_last() =~= pre);
        if str_eq(b.content_type.as_str(), "text") {
            push_str(&mut content, b.text.as_str());
        } else {
            assert(content@ =~= content@ + Seq::<char>::empty());
        }
        i = i + 1;
    }
    assert(resp.content@.subrange(0, resp.content@.len() as int) =~= resp.content@);
    let finish_reason = match &resp.stop_reason {
        Some(s) => map_stop_reason(Some(s.as_str())),
        None => map_stop_reason(None),
    };
    let mut choices: Vec<ChatCompletionChoice> = Vec::new();
    choices.push(ChatCompletionChoice {
        index: 0,
        message: ChatMessage { role: to_string("assistant"), content },
        finish_reason,
    });
    ChatCompletionResponse {
        id: request_id,
        object: to_string("chat.completion"),
        created,
        model: local_id,
        choices,
        usage: Usage {
            prompt_tokens: resp.usage.input_tokens,
            completion_tokens: resp.usage.output_tokens,
            total_tokens: resp.usage.input_tokens + resp.usage.output_tokens,
        },
    }
}

// ---------------------------------------------------------------------
// Streaming
// ---------------------------------------------------------------------

/// The server-sent events of a streamed answer, by what the gateway reads
/// of them.
#[allow(inconsistent_fields)]
pub enum AnthropicStreamEvent {
    MessageStart,
    ContentBlockStart { index: u32 },
    ContentBlockDelta { index: u32, delta: AnthropicContentDelta },
    ContentBlockStop { index: u32 },
    MessageDelta { delta: AnthropicMessageDelta, usage: AnthropicUsageDelta },
    MessageStop,
    Ping,
    Error,
}

pub struct AnthropicContentDelta {
    pub delta_type: String,
    pub text: String,
}

pub struct AnthropicMessageDelta {
    pub stop_reason: Option<String>,
}

pub struct AnthropicUsageDelta {
    pub output_tokens: u32,
}

/// What to do with one event of the stream.
pub enum StreamAction {
    /// Forward this chunk to the client.
    Send(ChatCompletionChunk),
    /// Nothing to forward; read the next event.
    Skip,
    /// End the stream.
    Stop,
}

/// The stream's answer to an event: the opening event announces the
/// assistant role, a non-empty text delta forwards its text, a message
/// delta with a stop reason forwards the finish reason, an error event ends
/// the stream, and every other event is passed over.
pub open spec fn event_action_is(
    a: StreamAction,
    event: AnthropicStreamEvent,
    request_id: Seq<char>,
    model: Seq<char>,
    created: i64,
) -> bool {
    match event {
        AnthropicStreamEvent::MessageStart => a matches StreamAction::Send(c)
            && is_chunk(c, request_id, model, created, Some("assistant"@), None, None),
        AnthropicStreamEvent::ContentBlockDelta { delta, .. } => if delta.text@.len() == 0 {
            a is Skip
        } else {
            a matches StreamAction::Send(c) && is_chunk(c, request_id, model, created, None, Some(delta.text@), None)
        },
        AnthropicStreamEvent::MessageDelta { delta, .. } => match delta.stop_reason {
            Some(r) => a matches StreamAction::Send(c)
                && is_chunk(c, request_id, model, created, None, None, Some(finish_reason_for(Some(r@)))),
            None => a is Skip,
        },
        AnthropicStreamEvent::Error => a is Stop,
        _ => a is Skip,
    }
}

impl AnthropicBackend {
    /// Handle one parsed event of a streamed answer to the request `request_id`.
    pub fn stream_event_action(&self, event: &AnthropicStreamEvent, request_id: &str, created: i64)
        -> (a: StreamAction)
        ensures
            event_action_is(a, *event, request_id@, self.id@, created),
    {
        match event {
            AnthropicStreamEvent::MessageStart => StreamAction::Send(
                make_chunk(request_id, self.id.as_str(), created, Some("assistant"), None, None),
            ),
            AnthropicStreamEvent::ContentBlockDelta { delta, .. } => {
                if delta.text.unicode_len() == 0 {
                    StreamAction::Skip
                } else {
                    StreamAction::Send(
                        make_chunk(request_id, self.id.as_str(), created, None, Some(delta.text.as_str()), None),
                    )
                }
            },
            AnthropicStreamEvent::MessageDelta { delta, .. } => match &delta.stop_reason {
                Some(r) => {
                    let f = map_stop_reason(Some(r.as_str()));
                    StreamAction::Send(make_chunk(request_id, self.id.as_str(), created, None, None, Some(f.as_str())))
                },
                None => StreamAction::Skip,
            },
            AnthropicStreamEvent::Error => StreamAction::Stop,
            _ => StreamAction::Skip,
        }
    }
}

// ---------------------------------------------------------------------
// Laws
// ---------------------------------------------------------------------

/// No message sent as a turn has the `system` role: system messages go to
/// the system prompt, and every other message keeps its place.
pub proof fn law_turns_exclude_system(msgs: Seq<ChatMessage>)
    ensures
        forall|i: int| 0 <= i < turns(msgs).len() ==> (#[trigger] turns(msgs)[i]).0 != "system"@,
        turns(msgs).len() <= msgs.len(),
    decreases msgs.len(),
{
    if msgs.len() > 0 {
        law_turns_exclude_system(msgs.drop_last());
    }
}

/// The Anthropic turns keep the conversation's order: a conversation split
/// in two gives the turns of the first part followed by those of the
/// second; a single message gives its own turn unless it is a system
/// message, which gives none. So the turns are exactly the non-system
/// messages, each in its place.
pub proof fn law_turns_keep_order(a: Seq<ChatMessage>, b: Seq<ChatMessage>, m: ChatMessage)
    ensures
        turns(a + b) == turns(a) + turns(b),
        m.role@ != "system"@ ==> turns(seq![m]) == seq![(m.role@, m.content@)],
        m.role@ == "system"@ ==> turns(seq![m]).len() == 0,
        m.role@ != "system"@ ==> turns(a.push(m)) == turns(a).push((m.role@, m.content@)),
        m.role@ != "system"@ ==> turns(seq![m] + a) == seq![(m.role@, m.content@)] + turns(a),
{
    law_turns_concat(a, b);
    let one = seq![m];
    assert(one.drop_last() =~= Seq::<ChatMessage>::empty());
    assert(one.last() == m);
    assert(turns(Seq::<ChatMessage>::empty()) =~= Seq::<(Seq<char>, Seq<char>)>::empty());
    if m.role@ != "system"@ {
        assert(turns(one) =~= seq![(m.role@, m.content@)]);
    } else {
        assert(turns(one) =~= Seq::<(Seq<char>, Seq<char>)>::empty());
    }
    law_turns_concat(one, a);
    law_turns_concat(a, one);
    assert(a + one =~= a.push(m));
}

proof fn lemma_text_of_concat(a: Seq<AnthropicContent>, b: Seq<AnthropicContent>)
    ensures
        text_of(a + b) == text_of(a) + text_of(b),
    decreases b.len(),
{
    if b.len() > 0 {
        lemma_text_of_concat(a, b.drop_last());
        assert((a + b).drop_last() =~= a + b.drop_last());
        assert((a + b).last() == b.last());
    } else {
        assert(a + b =~= a);
        assert(text_of(a) + text_of(b) =~= text_of(a));
    }
}

/// An answer's text is the text of its `text` blocks in their order, and
/// nothing of any other block: blocks split in two give the first part's
/// text followed by the second's; one `text` block gives its text, any
/// other block none.
pub proof fn law_answer_text_in_order(a: Seq<AnthropicContent>, b: Seq<AnthropicContent>, c: AnthropicContent)
    ensures
        text_of(a + b) == text_of(a) + text_of(b),
        c.content_type@ == "text"@ ==> text_of(seq![c]) == c.text@,
        c.content_type@ != "text"@ ==> text_of(seq![c]).len() == 0,
{
    lemma_text_of_concat(a, b);
    let one = seq![c];
    assert(one.drop_last() =~= Seq::<AnthropicContent>::empty());
    assert(one.last() == c);
    assert(text_of(one.drop_last()) == Seq::<char>::empty());
    if c.content_type@ == "text"@ {
        assert(text_of(one) =~= c.text@);
    } else {
        assert(text_of(one) =~= Seq::<char>::empty());
    }
}

/// The system prompts of two parts of a conversation, joined by a blank
/// line when both have one.
pub open spec fn joined_prompts(x: Option<Seq<char>>, y: Option<Seq<char>>) -> Option<Seq<char>> {
    match (x, y) {
        (Some(p), Some(q)) => Some(p + "\n\n"@ + q),
        (Some(p), None) => Some(p),
        (None, q) => q,
    }
}

proof fn lemma_system_prompt_concat(a: Seq<ChatMessage>, b: Seq<ChatMessage>)
    ensures
        system_prompt(a + b) == joined_prompts(system_prompt(a), system_prompt(b)),
    decreases b.len(),
{
    if b.len() > 0 {
        lemma_system_prompt_concat(a, b.drop_last());
        assert((a + b).drop_last() =~= a + b.drop_last());
        assert((a + b).last() == b.last());
        let m = b.last();
        if m.role@ == "system"@ {
            match (system_prompt(a), system_prompt(b.drop_last())) {
                (Some(p), Some(q)) => {
                    assert(p + "\n\n"@ + q + "\n\n"@ + m.content@ =~= p + "\n\n"@ + (q + "\n\n"@ + m.content@));
                },
                _ => {},
            }
        }
    } else {
        assert(a + b =~= a);
    }
}

/// The system prompt gathers the system messages' contents in the
/// conversation's order, a blank line between two: split in two, a
/// conversation's prompt is the first part's joined to the second's; one
/// system message gives its content, any other message none.
pub proof fn law_system_prompt_in_order(a: Seq<ChatMessage>, b: Seq<ChatMessage>, m: ChatMessage)
    ensures
        system_prompt(a + b) == joined_prompts(system_prompt(a), system_prompt(b)),
        m.role@ == "system"@ ==> system_prompt(seq![m]) == Some(m.content@),
        m.role@ != "system"@ ==> system_prompt(seq![m]) is None,
{
    lemma_system_prompt_concat(a, b);
    let one = seq![m];
    assert(one.drop_last() =~= Seq::<ChatMessage>::empty());
    assert(one.last() == m);
    assert(system_prompt(one.drop_last()) is None);
}

/// Every chunk a streamed answer forwards is a chunk of this request, for
/// the local model, at the stream's creation time. Only the opening event
/// announces a role, the assistant's; content comes only from a non-empty
/// text delta and is exactly its text; a finish reason comes only from the
/// message's final delta and is `stop` or `length`. An error event ends
/// the stream.
pub proof fn law_stream_chunks_faithful(
    a: StreamAction,
    event: AnthropicStreamEvent,
    request_id: Seq<char>,
    model: Seq<char>,
    created: i64,
)
    requires
        event_action_is(a, event, request_id, model, created),
    ensures
        a matches StreamAction::Send(c) ==> c.id@ == request_id && c.model@ == model && c.created == created
            && c.choices@.len() == 1,
        a matches StreamAction::Send(c) ==> (opt_view(c.choices@[0].delta.role) is Some ==> event is MessageStart
            && opt_view(c.choices@[0].delta.role) == Some("assistant"@)),
        a matches StreamAction::Send(c) ==> (opt_view(c.choices@[0].delta.content) matches Some(t) ==> (
            event matches AnthropicStreamEvent::ContentBlockDelta { delta, .. } && delta.text@ == t && t.len() > 0)),
        a matches StreamAction::Send(c) ==> (opt_view(c.choices@[0].finish_reason) matches Some(f) ==> (
            event is MessageDelta && (f == "stop"@ || f == "length"@))),
        event is Error <==> a is Stop,
{
    law_finish_reason_values(match event {
        AnthropicStreamEvent::MessageDelta { delta, .. } => match delta.stop_reason {
            Some(r) => Some(r@),
            None => None,
        },
        _ => None,
    });
}

proof fn law_turns_concat(a: Seq<ChatMessage>, b: Seq<ChatMessage>)
    ensures
        turns(a + b) == turns(a) + turns(b),
    decreases b.len(),
{
    if b.len() > 0 {
        law_turns_concat(a, b.drop_last());
        assert((a + b).drop_last() =~= a + b.drop_last());
        assert((a + b).last() == b.last());
    } else {
        assert(a + b =~= a);
        assert(turns(a) + turns(b) =~= turns(a));
    }
}

/// The system prompt is absent exactly when no message has the `system` role.
pub proof fn law_system_prompt_absent(msgs: Seq<ChatMessage>)
    ensures
        system_prompt(msgs) is None <==> forall|i: int| 0 <= i < msgs.len() ==> (#[trigger] msgs[i]).role@ != "system"@,
    decreases msgs.len(),
{
    if msgs.len() > 0 {
        let pre = msgs.drop_last();
        law_system_prompt_absent(pre);
        if system_prompt(msgs) is None {
            assert forall|i: int| 0 <= i < msgs.len() implies (#[trigger] msgs[i]).role@ != "system"@ by {
                if i < pre.len() {
                    assert(pre[i] == msgs[i]);
                }
            }
        }
        if forall|i: int| 0 <= i < msgs.len() ==> (#[trigger] msgs[i]).role@ != "system"@ {
            assert(msgs[msgs.len() - 1].role@ != "system"@);
            assert forall|i: int| 0 <= i < pre.len() implies (#[trigger] pre[i]).role@ != "system"@ by {
                assert(pre[i] == msgs[i]);
            }
        }
    }
}

/// Only a `max_tokens` stop is reported as `length`.
pub proof fn law_finish_reason_values(reason: Option<Seq<char>>)
    ensures
        finish_reason_for(reason) == "length"@ <==> reason == Some("max_tokens"@),
        finish_reason_for(reason) == "stop"@ || finish_reason_for(reason) == "length"@,
{
    reveal_strlit("length");
    reveal_strlit("stop");
    assert("length"@ != "stop"@) by {
        assert("length"@.len() != "stop"@.len());
    }
}

} // verus!
