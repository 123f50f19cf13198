//! Local generation: the fallback chat templates, stop sequences, and the
//! bookkeeping of a generation run token by token (the model calls are
//! made by the caller, which hands each outcome to `Generation`).

use vstd::prelude::*;
use crate::api_types::{
    ChatCompletionChoice, ChatCompletionChunk, ChatCompletionResponse, ChatMessage, Usage, is_chunk, make_chunk,
};
use crate::error::EngineError;
use crate::text::{ends_with, has_suffix, push_str, str_eq, string_from_chars, to_string};

verus! {

// ---------------------------------------------------------------------
// Fallback templates
// ---------------------------------------------------------------------

pub open spec fn chatml_turns(ms: Seq<ChatMessage>) -> Seq<char>
    decreases ms.len(),
{
    if ms.len() == 0 {
        Seq::empty()
    } else {
        let m = ms.last();
        chatml_turns(ms.drop_last()) + "<|im_start|>"@ + m.role@ + "\n"@ + m.content@ + "<|im_end|>\n"@
    }
}

/// ChatML: each message as `<|im_start|>role\ncontent<|im_end|>\n`, then
/// the opening of the assistant's turn.
pub open spec fn chatml_prompt(ms: Seq<ChatMessage>) -> Seq<char> {
    chatml_turns(ms) + "<|im_start|>assistant\n"@
}

pub fn format_chatml_fallback(messages: &Vec<ChatMessage>) -> (p: String)
    ensures
        p@ == chatml_prompt(messages@),
{
    let mut p = String::new();
    let mut i: usize = 0;
    while i < messages.len()
        invariant
            i <= messages@.len(),
            p@ == chatml_turns(messages@.subrange(0, i as int)),
        decreases messages@.len() - i,
    {
        let m = &messages[i];
        push_str(&mut p, "<|im_start|>");
        push_str(&mut p, m.role.as_str());
        push_str(&mut p, "\n");
        push_str(&mut p, m.content.as_str());
        push_str(&mut p, "<|im_end|>\n");
        assert(messages@.subrange(0, i + 1).drop_last() =~= messages@.subrange(0, i as int));
        i = i + 1;
        assert(p@ =~= chatml_turns(messages@.subrange(0, i as int)));
    }
    assert(messages@.subrange(0, messages@.len() as int) =~= messages@);
    push_str(&mut p, "<|im_start|>assistant\n");
    p
}

/// The turn name of a role in Gemma's format: the assistant is `model`,
/// every other role is `user`.
pub open spec fn gemma_role(role: Seq<char>) -> Seq<char> {
    if role == "assistant"@ { "model"@ } else { "user"@ }
}

pub open spec fn gemma_turns(ms: Seq<ChatMessage>) -> Seq<char>
    decreases ms.len(),
{
    if ms.len() == 0 {
        Seq::empty()
    } else {
        let m = ms.last();
        gemma_turns(ms.drop_last()) + "<start_of_turn>"@ + gemma_role(m.role@) + "\n"@ + m.content@ + "<end_of_turn>\n"@
    }
}

/// Gemma-style turns, then the opening of the model's turn.
pub open spec fn gemma_prompt(ms: Seq<ChatMessage>) -> Seq<char> {
    gemma_turns(ms) + "<start_of_turn>model\n"@
}

pub fn format_gemma_turn_fallback(messages: &Vec<ChatMessage>) -> (p: String)
    ensures
        p@ == gemma_prompt(messages@),
{
    let mut p = String::new();
    let mut i: usize = 0;
    while i < messages.len()
        invariant
            i <= messages@.len(),
            p@ == gemma_turns(messages@.subrange(0, i as int)),
        decreases messages@.len() - i,
    {
        let m = &messages[i];
        let role = if str_eq(m.role.as_str(), "assistant") { "model" } else { "user" };
        push_str(&mut p, "<start_of_turn>");
        push_str(&mut p, role);
        push_str(&mut p, "\n");
        push_str(&mut p, m.content.as_str());
        push_str(&mut p, "<end_of_turn>\n");
        assert(messages@.subrange(0, i + 1).drop_last() =~= messages@.subrange(0, i as int));
        i = i + 1;
        assert(p@ =~= gemma_turns(messages@.subrange(0, i as int)));
    }
    assert(messages@.subrange(0, messages@.len() as int) =~= messages@);
    push_str(&mut p, "<start_of_turn>model\n");
    p
}

proof fn lemma_gemma_concat(a: Seq<ChatMessage>, b: Seq<ChatMessage>)
    ensures
        gemma_turns(a + b) == gemma_turns(a) + gemma_turns(b),
    decreases b.len(),
{
    if b.len() > 0 {
        lemma_gemma_concat(a, b.drop_last());
        assert((a + b).drop_last() =~= a + b.drop_last());
        assert((a + b).last() == b.last());
    } else {
        assert(a + b =~= a);
        assert(gemma_turns(a) + gemma_turns(b) =~= gemma_turns(a));
    }
}

proof fn lemma_chatml_concat(a: Seq<ChatMessage>, b: Seq<ChatMessage>)
    ensures
        chatml_turns(a + b) == chatml_turns(a) + chatml_turns(b),
    decreases b.len(),
{
    if b.len() > 0 {
        lemma_chatml_concat(a, b.drop_last());
        assert((a + b).drop_last() =~= a + b.drop_last());
        assert((a + b).last() == b.last());
    } else {
        assert(a + b =~= a);
        assert(chatml_turns(a) + chatml_turns(b) =~= chatml_turns(a));
    }
}

/// The Gemma fallback knows two turn names only: each message becomes one
/// turn, in the conversation's order, named `model` for an assistant
/// message and `user` for any other (a system message included), and the
/// prompt ends by opening the model's turn.
pub proof fn law_gemma_turns(a: Seq<ChatMessage>, b: Seq<ChatMessage>, m: ChatMessage)
    ensures
        gemma_prompt(a + b) == gemma_turns(a) + gemma_turns(b) + "<start_of_turn>model\n"@,
        gemma_turns(seq![m]) == "<start_of_turn>"@ + (if m.role@ == "assistant"@ { "model"@ } else { "user"@ }) + "\n"@
            + m.content@ + "<end_of_turn>\n"@,
        m.role@ == "system"@ ==> gemma_turns(seq![m]) == "<start_of_turn>user\n"@ + m.content@ + "<end_of_turn>\n"@,
        gemma_role(m.role@) == "user"@ || gemma_role(m.role@) == "model"@,
        gemma_role(m.role@) == "model"@ <==> m.role@ == "assistant"@,
{
    lemma_gemma_concat(a, b);
    let one = seq![m];
    assert(one.drop_last() =~= Seq::<ChatMessage>::empty());
    assert(one.last() == m);
    reveal_strlit("model");
    reveal_strlit("user");
    reveal_strlit("<start_of_turn>");
    reveal_strlit("<start_of_turn>user\n");
    reveal_strlit("\n");
    assert("model"@ != "user"@) by {
        assert("model"@[0] != "user"@[0]);
    }
    assert(gemma_turns(one.drop_last()) == Seq::<char>::empty());
    assert(gemma_turns(one) =~= "<start_of_turn>"@ + gemma_role(m.role@) + "\n"@ + m.content@ + "<end_of_turn>\n"@);
    if m.role@ == "system"@ {
        reveal_strlit("system");
        reveal_strlit("assistant");
        assert("system"@ != "assistant"@) by {
            assert("system"@.len() != "assistant"@.len());
        }
        assert("<start_of_turn>"@ + "user"@ + "\n"@ =~= "<start_of_turn>user\n"@);
    }
}

/// ChatML keeps each message's own role: each message becomes one
/// `<|im_start|>role\ncontent<|im_end|>\n` turn, in the conversation's
/// order, and the prompt ends by opening the assistant's turn.
pub proof fn law_chatml_turns(a: Seq<ChatMessage>, b: Seq<ChatMessage>, m: ChatMessage)
    ensures
        chatml_prompt(a + b) == chatml_turns(a) + chatml_turns(b) + "<|im_start|>assistant\n"@,
        chatml_turns(seq![m]) == "<|im_start|>"@ + m.role@ + "\n"@ + m.content@ + "<|im_end|>\n"@,
{
    lemma_chatml_concat(a, b);
    let one = seq![m];
    assert(one.drop_last() =~= Seq::<ChatMessage>::empty());
    assert(one.last() == m);
    assert(chatml_turns(one.drop_last()) == Seq::<char>::empty());
    assert(chatml_turns(one) =~= "<|im_start|>"@ + m.role@ + "\n"@ + m.content@ + "<|im_end|>\n"@);
}

/// What the model's own chat templates gave.
pub enum TemplateOutcome {
    /// The model ships no chat template.
    NoTemplate,
    /// The legacy template engine rendered the prompt.
    Legacy(String),
    /// The legacy engine failed and the Jinja (OpenAI-compatible) one rendered it.
    OaiCompat(String),
    /// Both engines failed.
    BothFailed,
}

/// The prompt for the conversation: the model's template where one of its
/// engines rendered it; ChatML for a model without a template; Gemma-style
/// turns when both engines failed.
pub open spec fn prompt_for(ms: Seq<ChatMessage>, t: TemplateOutcome) -> Seq<char> {
    match t {
        TemplateOutcome::NoTemplate => chatml_prompt(ms),
        TemplateOutcome::Legacy(p) => p@,
        TemplateOutcome::OaiCompat(p) => p@,
        TemplateOutcome::BothFailed => gemma_prompt(ms),
    }
}

pub fn select_prompt(messages: &Vec<ChatMessage>, t: TemplateOutcome) -> (p: String)
    ensures
        p@ == prompt_for(messages@, t),
{
    match t {
        TemplateOutcome::NoTemplate => format_chatml_fallback(messages),
        TemplateOutcome::Legacy(p) => p,
        TemplateOutcome::OaiCompat(p) => p,
        TemplateOutcome::BothFailed => format_gemma_turn_fallback(messages),
    }
}

// ---------------------------------------------------------------------
// Sampling and limits
// ---------------------------------------------------------------------

/// The sampling seed: the request's, else the model's, else 0.
pub fn sampler_seed(request_seed: Option<u32>, config_seed: Option<u32>) -> (s: u32)
    ensures
        s == (match request_seed {
            Some(x) => x,
            None => match config_seed {
                Some(y) => y,
                None => 0,
            },
        }),
{
    match request_seed {
        Some(x) => x,
        None => match config_seed {
            Some(y) => y,
            None => 0,
        },
    }
}

/// A prompt of `tokens` tokens fits a context of `context_size`, or the
/// request is refused with both numbers.
pub fn check_context(tokens: usize, context_size: u32) -> (r: Result<(), EngineError>)
    ensures
        tokens <= context_size ==> r is Ok,
        tokens > context_size ==> r == Err::<(), EngineError>(
            EngineError::ContextLengthExceeded { requested: tokens, max: context_size as usize },
        ),
{
    if tokens > context_size as usize {
        Err(EngineError::ContextLengthExceeded { requested: tokens, max: context_size as usize })
    } else {
        Ok(())
    }
}

// ---------------------------------------------------------------------
// Stop sequences
// ---------------------------------------------------------------------

pub open spec fn stop_at(text: Seq<char>, stops: Seq<String>) -> spec_fn(int) -> bool {
    |i: int| has_suffix(text, stops[i]@)
}

/// The index of the first stop sequence the text ends with.
pub open spec fn first_stop(text: Seq<char>, stops: Seq<String>) -> Option<int> {
    crate::validate::first_index(stops.len() as int, stop_at(text, stops))
}

/// A stop sequence is found exactly when the text ends with one: the one
/// found is the first listed that the text ends with, and when none is
/// found the text ends with none of them.
pub proof fn law_stop_sequence_found(text: Seq<char>, stops: Seq<String>)
    ensures
        first_stop(text, stops) matches Some(i) ==> 0 <= i < stops.len()
            && text.len() >= stops[i]@.len()
            && text.subrange(text.len() - stops[i]@.len(), text.len() as int) == stops[i]@
            && forall|j: int| 0 <= j < i ==> !has_suffix(text, #[trigger] stops[j]@),
        first_stop(text, stops) is None ==> forall|j: int| 0 <= j < stops.len() ==> !has_suffix(
            text,
            #[trigger] stops[j]@,
        ),
{
    let p = stop_at(text, stops);
    if first_stop(text, stops) is Some {
        crate::validate::lemma_first_index_some(stops.len() as int, p);
        let i = first_stop(text, stops)->0;
        assert forall|j: int| 0 <= j < i implies !has_suffix(text, #[trigger] stops[j]@) by {
            assert(!p(j));
        }
    } else {
        assert forall|j: int| 0 <= j < stops.len() implies !has_suffix(text, #[trigger] stops[j]@) by {
            if has_suffix(text, stops[j]@) {
                assert(p(j));
                crate::keyed::lemma_first_index_is_some_witness(stops.len() as int, p, j);
            }
        }
    }
}

/// The first stop sequence that `text` ends with.
pub fn check_stop_sequences<'a>(text: &Vec<char>, stops: &'a Vec<String>) -> (r: Option<&'a str>)
    ensures
        match first_stop(text@, stops@) {
            Some(i) => r matches Some(s) && s@ == stops@[i]@,
            None => r is None,
        },
{
    let ghost p = stop_at(text@, stops@);
    let mut i: usize = 0;
    while i < stops.len()
        invariant
            p == stop_at(text@, stops@),
            i <= stops@.len(),
            forall|k: int| 0 <= k < i ==> !#[trigger] p(k),
        decreases stops@.len() - i,
    {
        if ends_with(text, stops[i].as_str()) {
            proof { crate::validate::lemma_first_index_is(stops@.len() as int, p, i as int); }
            return Some(stops[i].as_str());
        }
        i = i + 1;
    }
    proof { crate::validate::lemma_first_index_none(stops@.len() as int, p); }
    None
}

// ---------------------------------------------------------------------
// A generation run
// ---------------------------------------------------------------------

#[derive(Clone, Copy, Debug, PartialEq, Eq, Structural)]
pub enum FinishReason {
    Stop,
    Length,
}

impl FinishReason {
    pub fn as_str(self) -> (r: &'static str)
        ensures
            r@ == (match self {
                FinishReason::Stop => "stop"@,
                FinishReason::Length => "length"@,
            }),
    {
        match self {
            FinishReason::Stop => "stop",
            FinishReason::Length => "length",
        }
    }
}

/// The outcome of a generation run.
pub struct GenerationResult {
    pub text: String,
    pub prompt_tokens: u32,
    pub completion_tokens: u32,
    pub finish_reason: FinishReason,
    /// The caller asked to stop before the end of the answer.
    pub canceled: bool,
}

/// The state of a run: the text so far (as characters), the tokens
/// counted, how it ended, and whether it has ended. `max_tokens` is the
/// limit on sampled tokens, `sampled` the tokens drawn from the model so
/// far (an end-of-generation token among them), and `forwarded` the pieces
/// handed on to the caller.
pub struct Generation {
    pub text: Vec<char>,
    pub prompt_tokens: u32,
    pub completion_tokens: u32,
    pub finish_reason: FinishReason,
    pub canceled: bool,
    pub done: bool,
    pub max_tokens: u32,
    pub sampled: u32,
    pub forwarded: u32,
}

impl Generation {
    /// What every run keeps: pieces are forwarded only for counted tokens,
    /// tokens are counted only when sampled, and no more than `max_tokens`
    /// are sampled. A run still going, or canceled, ends by length; one
    /// ended otherwise (end-of-generation token, stop sequence) by `stop`.
    pub open spec fn wf(self) -> bool {
        &&& self.forwarded <= self.completion_tokens
        &&& self.completion_tokens <= self.sampled
        &&& self.sampled <= self.max_tokens
        &&& !self.done ==> self.finish_reason == FinishReason::Length && !self.canceled
        &&& self.canceled ==> self.done && self.finish_reason == FinishReason::Length
        &&& self.done && !self.canceled ==> self.finish_reason == FinishReason::Stop
    }

    /// A run over a prompt of `prompt_tokens` tokens that may sample at most
    /// `max_tokens` tokens; it ends by length unless something else ends it
    /// first.
    pub fn start(prompt_tokens: u32, max_tokens: u32) -> (g: Self)
        ensures
            g.wf(),
            g.text@.len() == 0,
            g.prompt_tokens == prompt_tokens,
            g.completion_tokens == 0,
            g.finish_reason == FinishReason::Length,
            !g.canceled,
            !g.done,
            g.max_tokens == max_tokens,
            g.sampled == 0,
            g.forwarded == 0,
    {
        Generation {
            text: Vec::new(),
            prompt_tokens,
            completion_tokens: 0,
            finish_reason: FinishReason::Length,
            canceled: false,
            done: false,
            max_tokens,
            sampled: 0,
            forwarded: 0,
        }
    }

    /// Whether another token may be sampled: the run has not ended and the
    /// limit is not reached.
    pub fn may_sample(&self) -> (r: bool)
        ensures
            r == (!self.done && self.sampled < self.max_tokens),
    {
        !self.done && self.sampled < self.max_tokens
    }

    /// The sampled token was the end-of-generation token: the run stops.
    pub fn on_end_of_generation(&mut self)
        requires
            old(self).wf(),
            !old(self).done,
            old(self).sampled < old(self).max_tokens,
        ensures
            final(self).wf(),
            *final(self) == (Generation {
                finish_reason: FinishReason::Stop,
                done: true,
                sampled: (old(self).sampled + 1) as u32,
                ..*old(self)
            }),
    {
        self.finish_reason = FinishReason::Stop;
        self.done = true;
        self.sampled = self.sampled + 1;
    }

    /// A sampled token could not be decoded: it is counted and skipped.
    pub fn on_undecodable(&mut self)
        requires
            old(self).wf(),
            !old(self).done,
            old(self).sampled < old(self).max_tokens,
        ensures
            final(self).wf(),
            *final(self) == (Generation {
                completion_tokens: (old(self).completion_tokens + 1) as u32,
                sampled: (old(self).sampled + 1) as u32,
                ..*old(self)
            }),
    {
        self.completion_tokens = self.completion_tokens + 1;
        self.sampled = self.sampled + 1;
    }

    /// A sampled token decoded to `piece`. It is appended and counted; if
    /// the text now ends with a stop sequence, that sequence is cut off and
    /// the run stops (the result is `true`, and the piece is not
    /// forwarded); otherwise the piece is forwarded to the caller.
    pub fn on_piece(&mut self, piece: &str, stops: &Vec<String>) -> (stopped: bool)
        requires
            old(self).wf(),
            !old(self).done,
            old(self).sampled < old(self).max_tokens,
        ensures
            final(self).wf(),
            final(self).completion_tokens == old(self).completion_tokens + 1,
            final(self).sampled == old(self).sampled + 1,
            final(self).max_tokens == old(self).max_tokens,
            final(self).prompt_tokens == old(self).prompt_tokens,
            final(self).canceled == old(self).canceled,
            ({
                let t = old(self).text@ + piece@;
                match first_stop(t, stops@) {
                    Some(i) => stopped && final(self).done && final(self).finish_reason == FinishReason::Stop
                        && final(self).forwarded == old(self).forwarded
                        && final(self).text@ == t.subrange(0, t.len() - stops@[i]@.len()),
                    None => !stopped && !final(self).done && final(self).finish_reason == old(self).finish_reason
                        && final(self).forwarded == old(self).forwarded + 1
                        && final(self).text@ == t,
                }
            }),
    {
        let ghost t0 = self.text@;
        let n = piece.unicode_len();
        let mut k: usize = 0;
        while k < n
            invariant
                k <= n,
                n == piece@.len(),
                self.text@ == t0 + piece@.subrange(0, k as int),
                self.completion_tokens == old(self).completion_tokens,
                self.prompt_tokens == old(self).prompt_tokens,
                self.canceled == old(self).canceled,
                self.done == old(self).done,
                self.finish_reason == old(self).finish_reason,
                self.sampled == old(self).sampled,
                self.max_tokens == old(self).max_tokens,
                self.forwarded == old(self).forwarded,
            decreases n - k,
        {
            self.text.push(piece.get_char(k));
            k = k + 1;
            assert(self.text@ =~= t0 + piece@.subrange(0, k as int));
        }
        assert(piece@.subrange(0, n as int) =~= piece@);
        self.completion_tokens = self.completion_tokens + 1;
        self.sampled = self.sampled + 1;
        match check_stop_sequences(&self.text, stops) {
            Some(stop) => {
                proof {
                    crate::validate::lemma_first_index_some(stops@.len() as int, stop_at(t0 + piece@, stops@));
                }
                let cut = self.text.len() - stop.unicode_len();
                self.text.truncate(cut);
                self.finish_reason = FinishReason::Stop;
                self.done = true;
                true
            },
            None => {
                self.forwarded = self.forwarded + 1;
                false
            },
        }
    }

    /// The caller asked to stop after the last forwarded piece.
    pub fn on_cancel(&mut self)
        requires
            old(self).wf(),
            !old(self).done,
        ensures
            final(self).wf(),
            *final(self) == (Generation { canceled: true, done: true, ..*old(self) }),
    {
        self.canceled = true;
        self.done = true;
    }

    /// The run's result.
    pub fn finish(self) -> (r: GenerationResult)
        requires
            self.wf(),
        ensures
            r.text@ == self.text@,
            r.prompt_tokens == self.prompt_tokens,
            r.completion_tokens == self.completion_tokens,
            r.finish_reason == self.finish_reason,
            r.canceled == self.canceled,
    {
        let len = self.text.len();
        let text = string_from_chars(&self.text, 0, len);
        assert(self.text@.subrange(0, len as int) =~= self.text@);
        GenerationResult {
            text,
            prompt_tokens: self.prompt_tokens,
            completion_tokens: self.completion_tokens,
            finish_reason: self.finish_reason,
            canceled: self.canceled,
        }
    }
}

/// The token limit of a run: the caller is handed at most `max_tokens`
/// pieces, at most `max_tokens` tokens are counted, and once no further
/// token may be sampled the run reports `length` exactly when it was
/// canceled or reached the limit without an end-of-generation token or
/// stop sequence.
pub proof fn law_generation_within_limit(g: Generation)
    requires
        g.wf(),
    ensures
        g.forwarded <= g.completion_tokens <= g.sampled <= g.max_tokens,
        !(!g.done && g.sampled < g.max_tokens) ==> (g.finish_reason == FinishReason::Length <==> (
            g.canceled || (!g.done && g.sampled == g.max_tokens))),
{
}

// ---------------------------------------------------------------------
// Answers
// ---------------------------------------------------------------------

/// The non-streaming answer for a finished generation: one assistant
/// choice with the text and finish reason, and the token usage.
pub fn completion_response(id: String, created: i64, model: String, r: GenerationResult) -> (resp: ChatCompletionResponse)
    requires
        r.prompt_tokens + r.completion_tokens <= u32::MAX,
    ensures
        resp.id@ == id@,
        resp.object@ == "chat.completion"@,
        resp.created == created,
        resp.model@ == model@,
        resp.choices@.len() == 1,
        resp.choices@[0].index == 0,
        resp.choices@[0].message.role@ == "assistant"@,
        resp.choices@[0].message.content@ == r.text@,
        resp.choices@[0].finish_reason@ == (match r.finish_reason {
            FinishReason::Stop => "stop"@,
            FinishReason::Length => "length"@,
        }),
        resp.usage.prompt_tokens == r.prompt_tokens,
        resp.usage.completion_tokens == r.completion_tokens,
        resp.usage.total_tokens == r.prompt_tokens + r.completion_tokens,
{
    let finish = to_string(r.finish_reason.as_str());
    let mut choices: Vec<ChatCompletionChoice> = Vec::new();
    choices.push(ChatCompletionChoice {
        index: 0,
        message: ChatMessage { role: to_string("assistant"), content: r.text },
        finish_reason: finish,
    });
    ChatCompletionResponse {
        id,
        object: to_string("chat.completion"),
        created,
        model,
        choices,
        usage: Usage {
            prompt_tokens: r.prompt_tokens,
            completion_tokens: r.completion_tokens,
            total_tokens: r.prompt_tokens + r.completion_tokens,
        },
    }
}

/// The first chunk of a stream: it announces the assistant's role.
pub fn role_chunk(id: &str, model: &str, created: i64) -> (c: ChatCompletionChunk)
    ensures
        is_chunk(c, id@, model@, created, Some("assistant"@), None, None),
{
    make_chunk(id, model, created, Some("assistant"), None, None)
}

/// A chunk carrying one decoded piece of text.
pub fn token_chunk(id: &str, model: &str, created: i64, text: &str) -> (c: ChatCompletionChunk)
    ensures
        is_chunk(c, id@, model@, created, None, Some(text@), None),
{
    make_chunk(id, model, created, None, Some(text), None)
}

/// The last chunk of a stream that finished generating (a canceled
/// stream gets none): it carries the finish reason.
pub fn final_chunk(id: &str, model: &str, created: i64, r: &GenerationResult) -> (c: Option<ChatCompletionChunk>)
    ensures
        r.canceled ==> c is None,
        !r.canceled ==> (c matches Some(x) && is_chunk(x, id@, model@, created, None, None, Some(match r.finish_reason {
            FinishReason::Stop => "stop"@,
            FinishReason::Length => "length"@,
        }))),
{
    if r.canceled {
        None
    } else {
        Some(make_chunk(id, model, created, None, None, Some(r.finish_reason.as_str())))
    }
}


// ---------------------------------------------------------------------
// The order of a stream's chunks
// ---------------------------------------------------------------------

/// The kinds of chunk a stream sends.
#[derive(Clone, Copy, Debug, PartialEq, Eq, Structural)]
pub enum ChunkKind {
    Role,
    Token,
    Final,
}

/// Where a stream is: before its role chunk, sending tokens, ended with
/// its final chunk, or given up (the client went away or the run was
/// canceled, so no final chunk follows).
#[derive(Clone, Copy, Debug, PartialEq, Eq, Structural)]
pub enum SendPhase {
    Opening,
    Streaming,
    Finished,
    Closed,
}

/// A role chunk first, then token chunks, and at most one final chunk,
/// which is the last one.
pub open spec fn well_ordered(sent: Seq<ChunkKind>) -> bool {
    &&& sent.len() > 0 ==> sent[0] == ChunkKind::Role
    &&& forall|i: int| 1 <= i < sent.len() ==> #[trigger] sent[i] == ChunkKind::Token
        || (sent[i] == ChunkKind::Final && i == sent.len() - 1)
}

/// What a stream has sent so far, and the decisions of the worker that
/// sends it: which chunk goes next, and whether generation goes on.
pub struct StreamSend {
    pub phase: SendPhase,
    pub tokens_sent: u64,
    pub sent: Ghost<Seq<ChunkKind>>,
}

impl StreamSend {
    pub open spec fn wf(self) -> bool {
        let sent = self.sent@;
        &&& well_ordered(sent)
        &&& self.phase == SendPhase::Opening ==> sent.len() == 0 && self.tokens_sent == 0
        &&& self.phase == SendPhase::Streaming ==> sent.len() == self.tokens_sent + 1
            && forall|i: int| 0 <= i < sent.len() ==> #[trigger] sent[i] != ChunkKind::Final
        &&& self.phase == SendPhase::Finished <==> (sent.len() > 0 && sent.last() == ChunkKind::Final)
    }

    /// Nothing sent yet.
    pub fn new() -> (s: Self)
        ensures
            s.wf(),
            s.phase == SendPhase::Opening,
            s.tokens_sent == 0,
            s.sent@ == Seq::<ChunkKind>::empty(),
    {
        StreamSend { phase: SendPhase::Opening, tokens_sent: 0, sent: Ghost(Seq::empty()) }
    }

    /// The role chunk was offered to the client; `delivered` says whether
    /// it got through. Generation starts only if it did: a client already
    /// gone ends the stream, as a cancellation and not an error.
    pub fn role_offered(&mut self, delivered: bool) -> (generate: bool)
        requires
            old(self).wf(),
            old(self).phase == SendPhase::Opening,
        ensures
            final(self).wf(),
            generate == delivered,
            final(self).tokens_sent == 0,
            delivered ==> final(self).phase == SendPhase::Streaming
                && final(self).sent@ == seq![ChunkKind::Role],
            !delivered ==> final(self).phase == SendPhase::Closed
                && final(self).sent@ == Seq::<ChunkKind>::empty(),
    {
        if delivered {
            self.phase = SendPhase::Streaming;
            proof { self.sent@ = seq![ChunkKind::Role]; }
            true
        } else {
            self.phase = SendPhase::Closed;
            assert(self.sent@ =~= Seq::<ChunkKind>::empty());
            false
        }
    }

    /// A token chunk was offered; `delivered` says whether it got through
    /// and `closed` whether the client is gone afterwards. Generation goes
    /// on only if the chunk got through and the client is still there.
    pub fn token_offered(&mut self, delivered: bool, closed: bool) -> (go_on: bool)
        requires
            old(self).wf(),
            old(self).phase == SendPhase::Streaming,
            old(self).tokens_sent < u64::MAX,
        ensures
            final(self).wf(),
            go_on == (delivered && !closed),
            final(self).phase == SendPhase::Streaming,
            delivered ==> final(self).tokens_sent == old(self).tokens_sent + 1
                && final(self).sent@ == old(self).sent@.push(ChunkKind::Token),
            !delivered ==> *final(self) == *old(self),
    {
        if delivered {
            self.tokens_sent = self.tokens_sent + 1;
            proof { self.sent@ = self.sent@.push(ChunkKind::Token); }
            assert(well_ordered(self.sent@)) by {
                assert forall|i: int| 1 <= i < self.sent@.len() implies #[trigger] self.sent@[i] == ChunkKind::Token
                    || (self.sent@[i] == ChunkKind::Final && i == self.sent@.len() - 1) by {
                    if i < self.sent@.len() - 1 {
                        assert(self.sent@[i] == old(self).sent@[i]);
                        assert(old(self).sent@[i] != ChunkKind::Final);
                    }
                }
            }
        }
        delivered && !closed
    }

    /// Generation ended. The final chunk is sent only when the run was not
    /// canceled; either way nothing more is sent.
    pub fn generation_ended(&mut self, canceled: bool) -> (send_final: bool)
        requires
            old(self).wf(),
            old(self).phase == SendPhase::Streaming,
        ensures
            final(self).wf(),
            send_final == !canceled,
            final(self).tokens_sent == old(self).tokens_sent,
            !canceled ==> final(self).phase == SendPhase::Finished
                && final(self).sent@ == old(self).sent@.push(ChunkKind::Final),
            canceled ==> final(self).phase == SendPhase::Closed && final(self).sent@ == old(self).sent@,
    {
        if canceled {
            self.phase = SendPhase::Closed;
            assert(!(self.sent@.len() > 0 && self.sent@.last() == ChunkKind::Final)) by {
                if self.sent@.len() > 0 {
                    assert(self.sent@[self.sent@.len() - 1] != ChunkKind::Final);
                }
            }
            false
        } else {
            self.phase = SendPhase::Finished;
            proof { self.sent@ = self.sent@.push(ChunkKind::Final); }
            assert(well_ordered(self.sent@)) by {
                assert forall|i: int| 1 <= i < self.sent@.len() implies #[trigger] self.sent@[i] == ChunkKind::Token
                    || (self.sent@[i] == ChunkKind::Final && i == self.sent@.len() - 1) by {
                    if i < self.sent@.len() - 1 {
                        assert(self.sent@[i] == old(self).sent@[i]);
                        assert(old(self).sent@[i] != ChunkKind::Final);
                    }
                }
            }
            true
        }
    }
}

/// The chunks of a stream come in order: the role chunk first, then token
/// chunks, one per forwarded piece; a final chunk is sent at most once and
/// nothing follows it; once the stream has finished or closed no step
/// sends anything more.
pub proof fn law_stream_chunk_order(s: StreamSend)
    requires
        s.wf(),
    ensures
        s.sent@.len() > 0 ==> s.sent@[0] == ChunkKind::Role,
        forall|i: int| 0 <= i < s.sent@.len() && #[trigger] s.sent@[i] == ChunkKind::Final ==> i == s.sent@.len() - 1,
        s.phase == SendPhase::Finished ==> s.sent@.last() == ChunkKind::Final,
        s.phase != SendPhase::Finished ==> forall|i: int| 0 <= i < s.sent@.len() ==> #[trigger] s.sent@[i]
            != ChunkKind::Final,
{
    assert forall|i: int| 0 <= i < s.sent@.len() && #[trigger] s.sent@[i] == ChunkKind::Final implies i
        == s.sent@.len() - 1 by {
        if i > 0 {
            assert(s.sent@[i] == ChunkKind::Token || (s.sent@[i] == ChunkKind::Final && i == s.sent@.len() - 1));
        }
    }
    if s.phase != SendPhase::Finished {
        assert forall|i: int| 0 <= i < s.sent@.len() implies #[trigger] s.sent@[i] != ChunkKind::Final by {
            if i > 0 && s.sent@[i] == ChunkKind::Final {
                assert(i == s.sent@.len() - 1);
            }
        }
    }
}

} // verus!
