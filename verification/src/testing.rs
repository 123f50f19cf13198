//! A scripted backend for exercising the gateway without a model: each
//! call consumes the next queued behaviour, and the last one repeats.

use vstd::prelude::*;
use crate::anthropic::ModelInfo;
use crate::api_types::{
    ChatCompletionChoice, ChatCompletionChunk, ChatCompletionResponse, ChatMessage, Usage, copy_message, is_chunk,
    make_chunk,
};
use crate::error::EngineError;
use crate::validate::{first_index, lemma_first_index_is, lemma_first_index_none};
use crate::text::{copy_string, push_str, strings_view, to_string};

verus! {

/// How the mock answers one call.
pub enum MockBehavior {
    /// Return a fixed response.
    Succeed { response: ChatCompletionResponse },
    /// Fail with a copy of the given error.
    Fail { template: EngineError },
    /// Wait `delay_ms`, then fail with `Timeout`.
    Timeout { delay_ms: u64 },
    /// Stream the given chunks, then finish cleanly.
    StreamChunks { chunks: Vec<String> },
    /// Stream the given chunks, then fail with a copy of the error.
    StreamThenError { chunks: Vec<String>, err: EngineError },
    /// Stream the chunks with a pause of `per_chunk_delay_ms` before each.
    StreamPaced { chunks: Vec<String>, per_chunk_delay_ms: u64 },
}

pub struct MockBackend {
    pub id: String,
    pub provider: &'static str,
    pub behaviors: Vec<MockBehavior>,
    pub call_count: usize,
    pub max_tokens_cap_override: Option<u32>,
    pub cancel_observed: bool,
}

/// Two responses agree field by field.
pub open spec fn same_response(a: ChatCompletionResponse, b: ChatCompletionResponse) -> bool {
    &&& a.id@ == b.id@
    &&& a.object@ == b.object@
    &&& a.created == b.created
    &&& a.model@ == b.model@
    &&& a.usage == b.usage
    &&& a.choices@.len() == b.choices@.len()
    &&& forall|i: int| 0 <= i < a.choices@.len() ==> {
        let (x, y) = (#[trigger] a.choices@[i], b.choices@[i]);
        &&& x.index == y.index
        &&& x.message.role@ == y.message.role@
        &&& x.message.content@ == y.message.content@
        &&& x.finish_reason@ == y.finish_reason@
    }
}

pub fn copy_response(r: &ChatCompletionResponse) -> (c: ChatCompletionResponse)
    ensures
        same_response(c, *r),
{
    let mut choices: Vec<ChatCompletionChoice> = Vec::new();
    let mut i: usize = 0;
    while i < r.choices.len()
        invariant
            i <= r.choices@.len(),
            choices@.len() == i,
            forall|k: int| 0 <= k < i ==> {
                let (x, y) = (#[trigger] choices@[k], r.choices@[k]);
                &&& x.index == y.index
                &&& x.message.role@ == y.message.role@
                &&& x.message.content@ == y.message.content@
                &&& x.finish_reason@ == y.finish_reason@
            },
        decreases r.choices@.len() - i,
    {
        let ch = &r.choices[i];
        choices.push(ChatCompletionChoice {
            index: ch.index,
            message: copy_message(&ch.message),
            finish_reason: copy_string(&ch.finish_reason),
        });
        i = i + 1;
    }
    ChatCompletionResponse {
        id: copy_string(&r.id),
        object: copy_string(&r.object),
        created: r.created,
        model: copy_string(&r.model),
        choices,
        usage: Usage {
            prompt_tokens: r.usage.prompt_tokens,
            completion_tokens: r.usage.completion_tokens,
            total_tokens: r.usage.total_tokens,
        },
    }
}

/// `c` is a copy of the error `t`, except that a failed route becomes a
/// failed inference naming the route (its attempts are not copied).
pub open spec fn err_copy_is(c: EngineError, t: EngineError) -> bool {
    match t {
        EngineError::ModelNotFound(s) => c matches EngineError::ModelNotFound(x) && x@ == s@,
        EngineError::ModelLoadFailed(s) => c matches EngineError::ModelLoadFailed(x) && x@ == s@,
        EngineError::InferenceFailed(s) => c matches EngineError::InferenceFailed(x) && x@ == s@,
        EngineError::ContextLengthExceeded { requested, max } =>
            c == (EngineError::ContextLengthExceeded { requested, max }),
        EngineError::Timeout => c is Timeout,
        EngineError::Network(s) => c matches EngineError::Network(x) && x@ == s@,
        EngineError::UpstreamServerError { status, body } =>
            c matches EngineError::UpstreamServerError { status: s2, body: b2 } && s2 == status && b2@ == body@,
        EngineError::RateLimited { retry_after_secs } => c == (EngineError::RateLimited { retry_after_secs }),
        EngineError::AllBackendsFailed { route_id, .. } => c matches EngineError::InferenceFailed(x)
            && x@ == "cloned AllBackendsFailed for route '"@ + route_id@ + "' (lossy)"@,
        EngineError::BackendPoisoned => c is BackendPoisoned,
        EngineError::BackendDraining => c is BackendDraining,
        EngineError::ModelUnavailable(s) => c matches EngineError::ModelUnavailable(x) && x@ == s@,
        EngineError::BackendBusy => c is BackendBusy,
        EngineError::NotImplemented(s) => c matches EngineError::NotImplemented(x) && x@ == s@,
    }
}

/// One call's chunk: one choice, no role, the given content and finish
/// reason, created at 0.
pub fn chunk(id: &str, model: &str, content: Option<&str>, finish: Option<&str>) -> (c: ChatCompletionChunk)
    ensures
        is_chunk(
            c,
            id@,
            model@,
            0,
            None,
            match content { Some(s) => Some(s@), None => None },
            match finish { Some(s) => Some(s@), None => None },
        ),
{
    make_chunk(id, model, 0, None, content, finish)
}

/// What a non-streaming call does.
pub enum MockOutcome {
    Respond(Result<ChatCompletionResponse, EngineError>),
    /// Wait this many milliseconds, then fail with `Timeout`.
    TimeOut(u64),
}

/// What a streaming call does: send `chunks` in order, pausing
/// `delay_ms` before each, then end with `end`. If the receiver has gone
/// when one of the first `watched` chunks is sent (the content of a
/// scripted stream), the call stops sending, records the cancellation, and
/// succeeds; a chunk after those is sent whether or not it arrives.
pub struct StreamPlan {
    pub delay_ms: u64,
    pub chunks: Vec<ChatCompletionChunk>,
    pub watched: usize,
    pub end: Result<(), EngineError>,
    /// Wait this long before failing with `Timeout` instead of streaming.
    pub time_out_ms: Option<u64>,
}

impl MockBackend {
    pub open spec fn fresh(self, id: Seq<char>, behaviors: Seq<MockBehavior>) -> bool {
        &&& self.id@ == id
        &&& self.provider@ == "mock"@
        &&& self.behaviors@ == behaviors
        &&& self.call_count == 0
        &&& self.max_tokens_cap_override is None
        &&& !self.cancel_observed
    }

    pub fn new(id: &str, behavior: MockBehavior) -> (m: Self)
        ensures
            m.fresh(id@, seq![behavior]),
    {
        let mut behaviors: Vec<MockBehavior> = Vec::new();
        behaviors.push(behavior);
        assert(behaviors@ =~= seq![behavior]);
        MockBackend {
            id: to_string(id),
            provider: "mock",
            behaviors,
            call_count: 0,
            max_tokens_cap_override: None,
            cancel_observed: false,
        }
    }

    /// Queue several behaviours, one per call in order; the last repeats.
    pub fn with_behaviors(id: &str, behaviors: Vec<MockBehavior>) -> (m: Self)
        ensures
            m.fresh(id@, behaviors@),
    {
        MockBackend {
            id: to_string(id),
            provider: "mock",
            behaviors,
            call_count: 0,
            max_tokens_cap_override: None,
            cancel_observed: false,
        }
    }

    pub fn with_max_tokens_cap(self, cap: u32) -> (m: Self)
        ensures
            m == (MockBackend { max_tokens_cap_override: Some(cap), ..self }),
    {
        let mut m = self;
        m.max_tokens_cap_override = Some(cap);
        m
    }

    /// A mock that answers `text` as the assistant, with id
    /// `chatcmpl-mock-<id>`, finish reason `stop` and one token each way.
    pub fn succeeding(id: &str, text: &str) -> (m: Self)
        ensures
            m.id@ == id@,
            m.behaviors@.len() == 1,
            m.call_count == 0,
            m.behaviors@[0] matches MockBehavior::Succeed { response } && ({
                &&& response.id@ == "chatcmpl-mock-"@ + id@
                &&& response.object@ == "chat.completion"@
                &&& response.created == 0
                &&& response.model@ == id@
                &&& response.choices@.len() == 1
                &&& response.choices@[0].index == 0
                &&& response.choices@[0].message.role@ == "assistant"@
                &&& response.choices@[0].message.content@ == text@
                &&& response.choices@[0].finish_reason@ == "stop"@
                &&& response.usage == (Usage { prompt_tokens: 1, completion_tokens: 1, total_tokens: 2 })
            }),
    {
        let mut rid = to_string("chatcmpl-mock-");
        push_str(&mut rid, id);
        let mut choices: Vec<ChatCompletionChoice> = Vec::new();
        choices.push(ChatCompletionChoice {
            index: 0,
            message: ChatMessage { role: to_string("assistant"), content: to_string(text) },
            finish_reason: to_string("stop"),
        });
        let response = ChatCompletionResponse {
            id: rid,
            object: to_string("chat.completion"),
            created: 0,
            model: to_string(id),
            choices,
            usage: Usage { prompt_tokens: 1, completion_tokens: 1, total_tokens: 2 },
        };
        Self::new(id, MockBehavior::Succeed { response })
    }

    pub fn failing(id: &str, err: EngineError) -> (m: Self)
        ensures
            m.fresh(id@, seq![MockBehavior::Fail { template: err }]),
    {
        Self::new(id, MockBehavior::Fail { template: err })
    }

    pub fn timing_out(id: &str, delay_ms: u64) -> (m: Self)
        ensures
            m.fresh(id@, seq![MockBehavior::Timeout { delay_ms }]),
    {
        Self::new(id, MockBehavior::Timeout { delay_ms })
    }

    pub fn streaming_chunks(id: &str, chunks: Vec<String>) -> (m: Self)
        ensures
            m.fresh(id@, seq![MockBehavior::StreamChunks { chunks }]),
    {
        Self::new(id, MockBehavior::StreamChunks { chunks })
    }

    pub fn streaming_paced(id: &str, chunks: Vec<String>, per_chunk_delay_ms: u64) -> (m: Self)
        ensures
            m.fresh(id@, seq![MockBehavior::StreamPaced { chunks, per_chunk_delay_ms }]),
    {
        Self::new(id, MockBehavior::StreamPaced { chunks, per_chunk_delay_ms })
    }

    pub fn streaming_then_error(id: &str, chunks: Vec<String>, err: EngineError) -> (m: Self)
        ensures
            m.fresh(id@, seq![MockBehavior::StreamThenError { chunks, err }]),
    {
        Self::new(id, MockBehavior::StreamThenError { chunks, err })
    }

    /// Whether a streaming call found its receiver gone.
    pub fn cancel_observed(&self) -> (r: bool)
        ensures
            r == self.cancel_observed,
    {
        self.cancel_observed
    }

    /// Record that a streaming call found its receiver gone.
    pub fn observe_cancel(&mut self)
        ensures
            *final(self) == (MockBackend { cancel_observed: true, ..*old(self) }),
    {
        self.cancel_observed = true;
    }

    /// Chunk `index` of `plan` was sent, and `delivered` says whether it
    /// arrived. A watched chunk that did not arrive means the receiver is
    /// gone: the cancellation is recorded and the stream stops (the result
    /// is `false`); otherwise sending goes on.
    pub fn chunk_delivered(&mut self, plan: &StreamPlan, index: usize, delivered: bool) -> (go_on: bool)
        ensures
            go_on == (delivered || index >= plan.watched),
            go_on ==> *final(self) == *old(self),
            !go_on ==> *final(self) == (MockBackend { cancel_observed: true, ..*old(self) }),
    {
        if !delivered && index < plan.watched {
            self.observe_cancel();
            false
        } else {
            true
        }
    }

    /// The whole of a streaming call once its plan is made, given whether
    /// the receiver took each chunk: a plan that times out fails with
    /// `Timeout` and sends nothing; otherwise the chunks are sent in order
    /// until a watched one does not arrive, which records the cancellation
    /// and succeeds; if none fails so, every chunk is sent and the plan's
    /// end is returned. The result pairs the number of chunks sent with the
    /// outcome.
    pub fn run_stream(&mut self, plan: StreamPlan, delivered: &Vec<bool>) -> (r: (usize, Result<(), EngineError>))
        requires
            delivered@.len() == plan.chunks@.len(),
        ensures
            plan.time_out_ms is Some ==> r.0 == 0 && r.1 == Err::<(), EngineError>(EngineError::Timeout)
                && *final(self) == *old(self),
            plan.time_out_ms is None ==> match first_index(
                if plan.watched < delivered@.len() { plan.watched as int } else { delivered@.len() as int },
                undelivered(delivered@),
            ) {
                Some(i) => r.0 == i + 1 && r.1 is Ok
                    && *final(self) == (MockBackend { cancel_observed: true, ..*old(self) }),
                None => r.0 == plan.chunks@.len() && r.1 == plan.end && *final(self) == *old(self),
            },
    {
        if plan.time_out_ms.is_some() {
            return (0, Err(EngineError::Timeout));
        }
        let n = delivered.len();
        let w = if plan.watched < n { plan.watched } else { n };
        let ghost p = undelivered(delivered@);
        let ghost start = *self;
        let mut i: usize = 0;
        while i < n
            invariant
                i <= n,
                n == delivered@.len(),
                n == plan.chunks@.len(),
                w == (if plan.watched < n { plan.watched } else { n }),
                p == undelivered(delivered@),
                plan.time_out_ms is None,
                start == *old(self),
                *self == start,
                forall|k: int| 0 <= k < i && k < w ==> !#[trigger] p(k),
            decreases n - i,
        {
            if !self.chunk_delivered(&plan, i, delivered[i]) {
                proof { lemma_first_index_is(w as int, p, i as int); }
                return (i + 1, Ok(()));
            }
            i = i + 1;
        }
        proof { lemma_first_index_none(w as int, p); }
        (n, plan.end)
    }

    pub fn call_count(&self) -> (r: usize)
        ensures
            r == self.call_count,
    {
        self.call_count
    }

    /// Which behaviour the call with this count uses: the call's own, or
    /// the last one once the queue is used up.
    pub open spec fn behavior_index(self) -> int {
        if self.call_count < self.behaviors@.len() {
            self.call_count as int
        } else {
            self.behaviors@.len() - 1
        }
    }

    /// Take the behaviour for this call and count the call.
    pub fn next_behavior(&mut self) -> (b: &MockBehavior)
        requires
            old(self).behaviors@.len() > 0,
        ensures
            *b == old(self).behaviors@[old(self).behavior_index()],
            *final(self) == (MockBackend { call_count: old(self).call_count.wrapping_add(1), ..*old(self) }),
    {
        let last = self.behaviors.len() - 1;
        let idx = if self.call_count < last { self.call_count } else { last };
        self.call_count = self.call_count.wrapping_add(1);
        &self.behaviors[idx]
    }

    /// Copy an error template for one failing call.
    pub fn clone_err(template: &EngineError) -> (e: EngineError)
        ensures
            err_copy_is(e, *template),
    {
        match template {
            EngineError::Timeout => EngineError::Timeout,
            EngineError::Network(m) => EngineError::Network(copy_string(m)),
            EngineError::InferenceFailed(m) => EngineError::InferenceFailed(copy_string(m)),
            EngineError::RateLimited { retry_after_secs } => EngineError::RateLimited { retry_after_secs: *retry_after_secs },
            EngineError::UpstreamServerError { status, body } =>
                EngineError::UpstreamServerError { status: *status, body: copy_string(body) },
            EngineError::ModelLoadFailed(m) => EngineError::ModelLoadFailed(copy_string(m)),
            EngineError::ModelNotFound(m) => EngineError::ModelNotFound(copy_string(m)),
            EngineError::ContextLengthExceeded { requested, max } =>
                EngineError::ContextLengthExceeded { requested: *requested, max: *max },
            EngineError::AllBackendsFailed { route_id, .. } => {
                let mut m = to_string("cloned AllBackendsFailed for route '");
                push_str(&mut m, route_id.as_str());
                push_str(&mut m, "' (lossy)");
                EngineError::InferenceFailed(m)
            },
            EngineError::BackendPoisoned => EngineError::BackendPoisoned,
            EngineError::BackendDraining => EngineError::BackendDraining,
            EngineError::ModelUnavailable(m) => EngineError::ModelUnavailable(copy_string(m)),
            EngineError::BackendBusy => EngineError::BackendBusy,
            EngineError::NotImplemented(m) => EngineError::NotImplemented(copy_string(m)),
        }
    }

    /// A non-streaming call: the response of a `Succeed`, a copy of a
    /// `Fail`'s error, a timeout after a `Timeout`'s delay, and an error
    /// for a streaming behaviour.
    pub fn chat_completion(&mut self) -> (o: MockOutcome)
        requires
            old(self).behaviors@.len() > 0,
        ensures
            *final(self) == (MockBackend { call_count: old(self).call_count.wrapping_add(1), ..*old(self) }),
            match old(self).behaviors@[old(self).behavior_index()] {
                MockBehavior::Succeed { response } => o matches MockOutcome::Respond(Ok(r)) && same_response(r, response),
                MockBehavior::Fail { template } => o matches MockOutcome::Respond(Err(e)) && err_copy_is(e, template),
                MockBehavior::Timeout { delay_ms } => o == MockOutcome::TimeOut(delay_ms),
                _ => o matches MockOutcome::Respond(Err(EngineError::InferenceFailed(m)))
                    && m@ == "streaming behavior invoked on non-streaming path"@,
            },
    {
        match self.next_behavior() {
            MockBehavior::Succeed { response } => MockOutcome::Respond(Ok(copy_response(response))),
            MockBehavior::Fail { template } => MockOutcome::Respond(Err(Self::clone_err(template))),
            MockBehavior::Timeout { delay_ms } => MockOutcome::TimeOut(*delay_ms),
            _ => MockOutcome::Respond(
                Err(EngineError::InferenceFailed(to_string("streaming behavior invoked on non-streaming path"))),
            ),
        }
    }

    pub fn model_info(&self) -> (r: ModelInfo)
        ensures
            r.id@ == self.id@,
            r.context_size == 4096,
            r.loaded,
            r.provider@ == self.provider@,
    {
        ModelInfo { id: copy_string(&self.id), context_size: 4096, loaded: true, provider: to_string(self.provider) }
    }

    pub fn provider(&self) -> (r: &'static str)
        ensures
            r == self.provider,
    {
        self.provider
    }

    pub fn max_tokens_cap(&self) -> (r: u32)
        ensures
            r == (match self.max_tokens_cap_override { Some(c) => c, None => 8192 }),
    {
        match self.max_tokens_cap_override {
            Some(c) => c,
            None => 8192,
        }
    }
}

/// The content chunks of a scripted stream, in order, each tagged with the
/// stream id `chatcmpl-mock-<id>` and the mock's id as model.
pub open spec fn content_chunks_are(cs: Seq<ChatCompletionChunk>, id: Seq<char>, texts: Seq<Seq<char>>) -> bool {
    &&& cs.len() == texts.len()
    &&& forall|i: int| 0 <= i < cs.len() ==> is_chunk(
        #[trigger] cs[i],
        "chatcmpl-mock-"@ + id,
        id,
        0,
        None,
        Some(texts[i]),
        None,
    )
}

fn content_chunks(stream_id: &str, model: &str, texts: &Vec<String>) -> (cs: Vec<ChatCompletionChunk>)
    ensures
        cs@.len() == texts@.len(),
        forall|i: int| 0 <= i < cs@.len() ==> is_chunk(
            #[trigger] cs@[i],
            stream_id@,
            model@,
            0,
            None,
            Some(texts@[i]@),
            None,
        ),
{
    let mut cs: Vec<ChatCompletionChunk> = Vec::new();
    let mut i: usize = 0;
    while i < texts.len()
        invariant
            i <= texts@.len(),
            cs@.len() == i,
            forall|k: int| 0 <= k < i ==> is_chunk(#[trigger] cs@[k], stream_id@, model@, 0, None, Some(texts@[k]@), None),
        decreases texts@.len() - i,
    {
        cs.push(chunk(stream_id, model, Some(texts[i].as_str()), None));
        i = i + 1;
    }
    cs
}

impl MockBackend {
    /// A streaming call, as a plan the caller carries out: a `Succeed`
    /// sends its content once; the chunk behaviours send one content chunk
    /// per text (after the delay, for the paced one) and then a `stop`
    /// chunk, or the error for `StreamThenError`.
    pub fn stream_plan(&mut self) -> (p: StreamPlan)
        requires
            old(self).behaviors@.len() > 0,
        ensures
            *final(self) == (MockBackend { call_count: old(self).call_count.wrapping_add(1), ..*old(self) }),
            ({
                let id = old(self).id@;
                let sid = "chatcmpl-mock-"@ + id;
                match old(self).behaviors@[old(self).behavior_index()] {
                    MockBehavior::Succeed { response } => p.time_out_ms is None && p.delay_ms == 0
                        && p.end is Ok && p.chunks@.len() == 1 && p.watched == 0
                        && is_chunk(p.chunks@[0], response.id@, response.model@, 0, None,
                            Some(if response.choices@.len() > 0 { response.choices@[0].message.content@ } else { Seq::empty() }),
                            None),
                    MockBehavior::Fail { template } => p.time_out_ms is None && p.chunks@.len() == 0 && p.watched == 0
                        && (p.end matches Err(e) && err_copy_is(e, template)),
                    MockBehavior::Timeout { delay_ms } => p.time_out_ms == Some(delay_ms) && p.chunks@.len() == 0
                        && p.watched == 0,
                    MockBehavior::StreamChunks { chunks } => p.time_out_ms is None && p.delay_ms == 0 && p.end is Ok
                        && p.chunks@.len() == chunks@.len() + 1 && p.watched == chunks@.len()
                        && content_chunks_are(p.chunks@.drop_last(), id, strings_view(chunks@))
                        && is_chunk(p.chunks@.last(), sid, id, 0, None, None, Some("stop"@)),
                    MockBehavior::StreamPaced { chunks, per_chunk_delay_ms } => p.time_out_ms is None
                        && p.delay_ms == per_chunk_delay_ms && p.end is Ok
                        && p.chunks@.len() == chunks@.len() + 1 && p.watched == chunks@.len()
                        && content_chunks_are(p.chunks@.drop_last(), id, strings_view(chunks@))
                        && is_chunk(p.chunks@.last(), sid, id, 0, None, None, Some("stop"@)),
                    MockBehavior::StreamThenError { chunks, err } => p.time_out_ms is None && p.delay_ms == 0
                        && p.watched == chunks@.len()
                        && content_chunks_are(p.chunks@, id, strings_view(chunks@))
                        && (p.end matches Err(e) && err_copy_is(e, err)),
                }
            }),
    {
        let ghost old_id = self.id@;
        let mut sid = to_string("chatcmpl-mock-");
        push_str(&mut sid, self.id.as_str());
        let model = copy_string(&self.id);
        let b = self.next_behavior();
        match b {
            MockBehavior::Succeed { response } => {
                let mut cs: Vec<ChatCompletionChunk> = Vec::new();
                let content = if response.choices.len() > 0 {
                    copy_string(&response.choices[0].message.content)
                } else {
                    String::new()
                };
                cs.push(chunk(response.id.as_str(), response.model.as_str(), Some(content.as_str()), None));
                StreamPlan { delay_ms: 0, chunks: cs, watched: 0, end: Ok(()), time_out_ms: None }
            },
            MockBehavior::Fail { template } =>
                StreamPlan { delay_ms: 0, chunks: Vec::new(), watched: 0, end: Err(Self::clone_err(template)), time_out_ms: None },
            MockBehavior::Timeout { delay_ms } =>
                StreamPlan { delay_ms: 0, chunks: Vec::new(), watched: 0, end: Ok(()), time_out_ms: Some(*delay_ms) },
            MockBehavior::StreamChunks { chunks } => {
                let watched = chunks.len();
                let mut cs = content_chunks(sid.as_str(), model.as_str(), chunks);
                let ghost body = cs@;
                cs.push(chunk(sid.as_str(), model.as_str(), None, Some("stop")));
                assert(cs@.drop_last() =~= body);
                proof { lemma_texts(body, old_id, chunks@); }
                StreamPlan { delay_ms: 0, chunks: cs, watched, end: Ok(()), time_out_ms: None }
            },
            MockBehavior::StreamPaced { chunks, per_chunk_delay_ms } => {
                let watched = chunks.len();
                let mut cs = content_chunks(sid.as_str(), model.as_str(), chunks);
                let ghost body = cs@;
                cs.push(chunk(sid.as_str(), model.as_str(), None, Some("stop")));
                assert(cs@.drop_last() =~= body);
                proof { lemma_texts(body, old_id, chunks@); }
                StreamPlan { delay_ms: *per_chunk_delay_ms, chunks: cs, watched, end: Ok(()), time_out_ms: None }
            },
            MockBehavior::StreamThenError { chunks, err } => {
                let cs = content_chunks(sid.as_str(), model.as_str(), chunks);
                proof { lemma_texts(cs@, old_id, chunks@); }
                let watched = cs.len();
                StreamPlan { delay_ms: 0, chunks: cs, watched, end: Err(Self::clone_err(err)), time_out_ms: None }
            },
        }
    }
}

proof fn lemma_texts(cs: Seq<ChatCompletionChunk>, id: Seq<char>, texts: Seq<String>)
    requires
        cs.len() == texts.len(),
        forall|i: int| 0 <= i < cs.len() ==> is_chunk(#[trigger] cs[i], "chatcmpl-mock-"@ + id, id, 0, None, Some(texts[i]@), None),
    ensures
        content_chunks_are(cs, id, strings_view(texts)),
{
}


/// The chunk at an index did not reach the receiver.
pub open spec fn undelivered(delivered: Seq<bool>) -> spec_fn(int) -> bool {
    |i: int| !delivered[i]
}

/// Call `i` of a history of mock states: the state after it is the state
/// before it with one more call counted, as every call leaves it.
pub open spec fn counted_call(ms: Seq<MockBackend>, i: int) -> bool {
    ms[i + 1] == (MockBackend { call_count: ms[i].call_count.wrapping_add(1), ..ms[i] })
}

/// Whatever constructor made it, a mock that made `k` calls has counted
/// `k`; and with a script of behaviours, call `i` uses behaviour `i`, or
/// the last one once the script is used up.
pub proof fn law_mock_counts_calls(ms: Seq<MockBackend>)
    requires
        ms.len() >= 1,
        ms.len() - 1 <= usize::MAX,
        ms[0].call_count == 0,
        forall|i: int| 0 <= i < ms.len() - 1 ==> #[trigger] counted_call(ms, i),
    ensures
        forall|i: int| 0 <= i < ms.len() ==> (#[trigger] ms[i]).call_count == i && ms[i].behaviors == ms[0].behaviors
            && (ms[0].behaviors@.len() > 0 ==> ms[i].behavior_index() == (if i < ms[0].behaviors@.len() { i } else {
            ms[0].behaviors@.len() - 1
        })),
    decreases ms.len(),
{
    if ms.len() > 1 {
        let pre = ms.drop_last();
        assert forall|i: int| 0 <= i < pre.len() - 1 implies #[trigger] counted_call(pre, i) by {
            assert(counted_call(ms, i));
        }
        law_mock_counts_calls(pre);
        let n = ms.len() - 1;
        assert(counted_call(ms, n - 1));
        assert(pre[n - 1] == ms[n - 1]);
        assert forall|i: int| 0 <= i < ms.len() implies (#[trigger] ms[i]).call_count == i && ms[i].behaviors
            == ms[0].behaviors && (ms[0].behaviors@.len() > 0 ==> ms[i].behavior_index() == (if i
            < ms[0].behaviors@.len() { i } else { ms[0].behaviors@.len() - 1 })) by {
            if i < n {
                assert(pre[i] == ms[i]);
            }
        }
    }
}

} // verus!
