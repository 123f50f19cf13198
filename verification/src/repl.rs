//! The interactive chat of the command-line client, as a state machine:
//! each input line gives an action for the caller to carry out (print,
//! send a request and stream the answer, or quit), and the streamed answer
//! is handed back to extend the conversation.

use vstd::prelude::*;
use crate::api_types::{ChatCompletionRequest, ChatMessage, copy_message};
use crate::endpoint::ClientError;
use crate::text::{
    chars_of, copy_string, is_whitespace, is_ws, push_str, str_eq, string_from_chars, strings_view, to_string,
    trim, trim_start, trimmed,
};

verus! {

// ---------------------------------------------------------------------
// Words
// ---------------------------------------------------------------------

/// The characters before the first whitespace.
pub open spec fn leading_word(s: Seq<char>) -> Seq<char>
    decreases s.len(),
{
    if s.len() == 0 || is_ws(s[0]) {
        Seq::empty()
    } else {
        seq![s[0]] + leading_word(s.drop_first())
    }
}

/// The first whitespace-separated word, if any.
pub open spec fn first_word(s: Seq<char>) -> Option<Seq<char>> {
    let t = trim_start(s);
    if t.len() == 0 { None } else { Some(leading_word(t)) }
}

/// The second whitespace-separated word, if any.
pub open spec fn second_word(s: Seq<char>) -> Option<Seq<char>> {
    let t = trim_start(s);
    first_word(t.skip(leading_word(t).len() as int))
}

proof fn lemma_trim_start_step(s: Seq<char>, i: int)
    requires
        0 <= i < s.len(),
        is_ws(s[i]),
    ensures
        trim_start(s.skip(i)) == trim_start(s.skip(i + 1)),
{
    assert(s.skip(i).subrange(1, s.skip(i).len() as int) =~= s.skip(i + 1));
}

proof fn lemma_leading_word_step(s: Seq<char>, i: int, j: int)
    requires
        0 <= i <= j < s.len(),
        !is_ws(s[j]),
        leading_word(s.skip(i)) == s.subrange(i, j) + leading_word(s.skip(j)),
    ensures
        leading_word(s.skip(i)) == s.subrange(i, j + 1) + leading_word(s.skip(j + 1)),
{
    assert(s.skip(j).drop_first() =~= s.skip(j + 1));
    assert(s.subrange(i, j) + (seq![s[j]] + leading_word(s.skip(j + 1))) =~= s.subrange(i, j + 1) + leading_word(
        s.skip(j + 1),
    ));
}

/// The first position at or after `i` that is not whitespace.
fn skip_ws(v: &Vec<char>, i: usize) -> (r: usize)
    requires
        i <= v@.len(),
    ensures
        i <= r <= v@.len(),
        v@.skip(r as int) == trim_start(v@.skip(i as int)),
{
    let mut k = i;
    while k < v.len() && is_whitespace(v[k])
        invariant
            i <= k <= v@.len(),
            trim_start(v@.skip(i as int)) == trim_start(v@.skip(k as int)),
        decreases v@.len() - k,
    {
        proof { lemma_trim_start_step(v@, k as int); }
        k = k + 1;
    }
    assert(k < v@.len() ==> v@.skip(k as int)[0] == v@[k as int]);
    k
}

/// The end of the word that starts at `i`.
fn word_end(v: &Vec<char>, i: usize) -> (r: usize)
    requires
        i <= v@.len(),
    ensures
        i <= r <= v@.len(),
        v@.subrange(i as int, r as int) == leading_word(v@.skip(i as int)),
{
    let mut k = i;
    assert(v@.subrange(i as int, i as int) + leading_word(v@.skip(i as int)) =~= leading_word(v@.skip(i as int)));
    while k < v.len() && !is_whitespace(v[k])
        invariant
            i <= k <= v@.len(),
            leading_word(v@.skip(i as int)) == v@.subrange(i as int, k as int) + leading_word(v@.skip(k as int)),
        decreases v@.len() - k,
    {
        proof { lemma_leading_word_step(v@, i as int, k as int); }
        k = k + 1;
    }
    assert(k < v@.len() ==> v@.skip(k as int)[0] == v@[k as int]);
    assert(leading_word(v@.skip(k as int)) =~= Seq::<char>::empty());
    assert(v@.subrange(i as int, k as int) + Seq::<char>::empty() =~= v@.subrange(i as int, k as int));
    k
}

/// The first two words of `s`.
pub fn two_words(s: &str) -> (r: (Option<String>, Option<String>))
    ensures
        match r.0 { Some(w) => first_word(s@) == Some(w@), None => first_word(s@) is None },
        match r.1 { Some(w) => second_word(s@) == Some(w@), None => second_word(s@) is None },
{
    let v = chars_of(s);
    assert(v@.skip(0) =~= s@);
    let a = skip_ws(&v, 0);
    let b = word_end(&v, a);
    let c = skip_ws(&v, b);
    let d = word_end(&v, c);
    let ghost t = trim_start(s@);
    assert(t =~= v@.skip(a as int));
    assert(t.skip(leading_word(t).len() as int) =~= v@.skip(b as int));
    let w1 = if a < v.len() { Some(string_from_chars(&v, a, b)) } else { None };
    let w2 = if c < v.len() { Some(string_from_chars(&v, c, d)) } else { None };
    (w1, w2)
}

// ---------------------------------------------------------------------
// The conversation
// ---------------------------------------------------------------------

/// The sampling settings the client asks for: temperature 0.7 and top-p
/// 0.9, as the bits of `f32`.
pub const CLIENT_TEMPERATURE_BITS: u32 = 0x3f33_3333;
pub const CLIENT_TOP_P_BITS: u32 = 0x3f66_6666;

pub struct Repl {
    pub model: String,
    pub system: Option<String>,
    pub messages: Vec<ChatMessage>,
    pub max_tokens: u32,
}

/// What the caller does with an input line.
pub enum ReplAction {
    /// Nothing (a blank line, or a lone `/`).
    Ignore,
    /// Quit the chat.
    Exit,
    /// Print these lines.
    Say(Vec<String>),
    /// Send this request and stream the answer.
    Send(ChatCompletionRequest),
}

/// The conversation a chat starts with: the system message, if any.
pub open spec fn opening(system: Option<String>) -> Seq<(Seq<char>, Seq<char>)> {
    match system {
        Some(s) => seq![("system"@, s@)],
        None => Seq::empty(),
    }
}

/// The messages as (role, content) pairs.
pub open spec fn turns(ms: Seq<ChatMessage>) -> Seq<(Seq<char>, Seq<char>)> {
    ms.map_values(|m: ChatMessage| (m.role@, m.content@))
}

pub open spec fn help_text() -> Seq<Seq<char>> {
    seq![
        "  /exit            quit"@,
        "  /clear           reset conversation history"@,
        "  /model <id>      switch model"@,
    ]
}

/// A request for the conversation so far, streamed, with the client's
/// sampling settings.
pub open spec fn request_is(r: ChatCompletionRequest, model: Seq<char>, ms: Seq<(Seq<char>, Seq<char>)>, max_tokens: u32, stream: bool) -> bool {
    &&& r.model@ == model
    &&& turns(r.messages@) == ms
    &&& r.stream == stream
    &&& r.temperature_bits == CLIENT_TEMPERATURE_BITS
    &&& r.top_p_bits == CLIENT_TOP_P_BITS
    &&& r.max_tokens == max_tokens
    &&& r.stop@.len() == 0
    &&& r.seed is None
}

fn message(role: &str, content: &str) -> (m: ChatMessage)
    ensures
        m.role@ == role@,
        m.content@ == content@,
{
    ChatMessage { role: to_string(role), content: to_string(content) }
}

fn copy_messages(ms: &Vec<ChatMessage>) -> (r: Vec<ChatMessage>)
    ensures
        turns(r@) == turns(ms@),
{
    let mut r: Vec<ChatMessage> = Vec::new();
    let mut i: usize = 0;
    while i < ms.len()
        invariant
            i <= ms@.len(),
            r@.len() == i,
            forall|k: int| 0 <= k < i ==> (#[trigger] r@[k]).role@ == ms@[k].role@ && r@[k].content@ == ms@[k].content@,
        decreases ms@.len() - i,
    {
        r.push(copy_message(&ms[i]));
        i = i + 1;
    }
    assert(turns(r@) =~= turns(ms@));
    r
}

fn opening_messages(system: &Option<String>) -> (r: Vec<ChatMessage>)
    ensures
        turns(r@) == opening(*system),
{
    let mut r: Vec<ChatMessage> = Vec::new();
    if let Some(s) = system {
        r.push(message("system", s.as_str()));
    }
    assert(turns(r@) =~= opening(*system));
    r
}

fn one_line(s: String) -> (r: Vec<String>)
    ensures
        strings_view(r@) == seq![s@],
{
    let mut r: Vec<String> = Vec::new();
    r.push(s);
    assert(strings_view(r@) =~= seq![s@]);
    r
}

/// A one-shot request (not the interactive chat): the system message, if
/// any, and the prompt as the user's message.
pub fn oneshot_request(model: String, system: &Option<String>, prompt: &str, max_tokens: u32) -> (r: ChatCompletionRequest)
    ensures
        request_is(r, model@, opening(*system).push(("user"@, prompt@)), max_tokens, false),
{
    let mut messages = opening_messages(system);
    let ghost before = messages@;
    messages.push(message("user", prompt));
    assert(turns(messages@) =~= turns(before).push(("user"@, prompt@)));
    ChatCompletionRequest {
        model,
        messages,
        stream: false,
        temperature_bits: CLIENT_TEMPERATURE_BITS,
        top_p_bits: CLIENT_TOP_P_BITS,
        max_tokens,
        stop: Vec::new(),
        seed: None,
    }
}

impl Repl {
    pub fn start(model: String, system: Option<String>, max_tokens: u32) -> (r: Self)
        ensures
            r.model@ == model@,
            r.system == system,
            turns(r.messages@) == opening(system),
            r.max_tokens == max_tokens,
    {
        let messages = opening_messages(&system);
        Repl { model, system, messages, max_tokens }
    }

    /// The line printed when the chat starts.
    pub fn banner(&self) -> (r: String)
        ensures
            r@ == "\u{25b2} flarion chat \u{b7} model="@ + self.model@ + "  (/exit /clear /model <id> /help)"@,
    {
        let mut r = to_string("\u{25b2} flarion chat \u{b7} model=");
        push_str(&mut r, self.model.as_str());
        push_str(&mut r, "  (/exit /clear /model <id> /help)");
        r
    }

    /// The input prompt: the model and `> `.
    pub fn prompt(&self) -> (r: String)
        ensures
            r@ == self.model@ + "> "@,
    {
        let mut r = copy_string(&self.model);
        push_str(&mut r, "> ");
        r
    }

    /// Handle one input line. A line starting with `/` is a command:
    /// `exit`, `quit` or `q` quit; `help`, `h` or `?` list the commands;
    /// `clear` restarts the conversation; `model <id>` switches model.
    /// Any other line is the user's next message, sent with the whole
    /// conversation.
    pub fn input(&mut self, line: &str) -> (a: ReplAction)
        ensures
            final(self).system == old(self).system,
            final(self).max_tokens == old(self).max_tokens,
            ({
                let t = trim(line@);
                let rest = t.skip(1);
                let cmd = first_word(rest);
                let arg = second_word(rest);
                if t.len() == 0 {
                    a is Ignore && *final(self) == *old(self)
                } else if t[0] != '/' {
                    let ms = turns(old(self).messages@).push(("user"@, t));
                    &&& final(self).model == old(self).model
                    &&& turns(final(self).messages@) == ms
                    &&& a matches ReplAction::Send(r) && request_is(r, old(self).model@, ms, old(self).max_tokens, true)
                } else if cmd is None {
                    a is Ignore && *final(self) == *old(self)
                } else if cmd == Some("exit"@) || cmd == Some("quit"@) || cmd == Some("q"@) {
                    a is Exit && *final(self) == *old(self)
                } else if cmd == Some("help"@) || cmd == Some("h"@) || cmd == Some("?"@) {
                    (a matches ReplAction::Say(ls) && strings_view(ls@) == help_text()) && *final(self) == *old(self)
                } else if cmd == Some("clear"@) {
                    &&& final(self).model == old(self).model
                    &&& turns(final(self).messages@) == opening(old(self).system)
                    &&& a matches ReplAction::Say(ls) && strings_view(ls@) == seq!["(history cleared)"@]
                } else if cmd == Some("model"@) {
                    match arg {
                        Some(id) => {
                            &&& final(self).model@ == id
                            &&& final(self).messages == old(self).messages
                            &&& a matches ReplAction::Say(ls) && strings_view(ls@) == seq!["(model \u{2192} "@ + id + ")"@]
                        },
                        None => (a matches ReplAction::Say(ls) && strings_view(ls@) == seq!["usage: /model <id>"@])
                            && *final(self) == *old(self),
                    }
                } else {
                    (a matches ReplAction::Say(ls)
                        && strings_view(ls@) == seq!["unknown command: /"@ + cmd->0 + " (try /help)"@])
                        && *final(self) == *old(self)
                }
            }),
    {
        let t = trimmed(line);
        let v = chars_of(t.as_str());
        if v.len() == 0 {
            return ReplAction::Ignore;
        }
        if v[0] != '/' {
            let ghost before = self.messages@;
            self.messages.push(message("user", t.as_str()));
            assert(turns(self.messages@) =~= turns(before).push(("user"@, t@)));
            let req = ChatCompletionRequest {
                model: copy_string(&self.model),
                messages: copy_messages(&self.messages),
                stream: true,
                temperature_bits: CLIENT_TEMPERATURE_BITS,
                top_p_bits: CLIENT_TOP_P_BITS,
                max_tokens: self.max_tokens,
                stop: Vec::new(),
                seed: None,
            };
            return ReplAction::Send(req);
        }
        let rest = string_from_chars(&v, 1, v.len());
        assert(rest@ =~= t@.skip(1));
        let (cmd, arg) = two_words(rest.as_str());
        let c = match cmd {
            None => return ReplAction::Ignore,
            Some(c) => c,
        };
        let cs = c.as_str();
        if str_eq(cs, "exit") || str_eq(cs, "quit") || str_eq(cs, "q") {
            ReplAction::Exit
        } else if str_eq(cs, "help") || str_eq(cs, "h") || str_eq(cs, "?") {
            let mut ls: Vec<String> = Vec::new();
            ls.push(to_string("  /exit            quit"));
            ls.push(to_string("  /clear           reset conversation history"));
            ls.push(to_string("  /model <id>      switch model"));
            assert(strings_view(ls@) =~= help_text());
            ReplAction::Say(ls)
        } else if str_eq(cs, "clear") {
            self.messages = opening_messages(&self.system);
            ReplAction::Say(one_line(to_string("(history cleared)")))
        } else if str_eq(cs, "model") {
            match arg {
                Some(id) => {
                    let mut m = to_string("(model \u{2192} ");
                    push_str(&mut m, id.as_str());
                    push_str(&mut m, ")");
                    self.model = id;
                    ReplAction::Say(one_line(m))
                },
                None => ReplAction::Say(one_line(to_string("usage: /model <id>"))),
            }
        } else {
            let mut m = to_string("unknown command: /");
            push_str(&mut m, cs);
            push_str(&mut m, " (try /help)");
            ReplAction::Say(one_line(m))
        }
    }

    /// Hand back the streamed answer: a non-empty one becomes the
    /// assistant's turn.
    pub fn reply(&mut self, collected: String)
        ensures
            final(self).model == old(self).model,
            final(self).system == old(self).system,
            final(self).max_tokens == old(self).max_tokens,
            turns(final(self).messages@) == (if collected@.len() == 0 {
                turns(old(self).messages@)
            } else {
                turns(old(self).messages@).push(("assistant"@, collected@))
            }),
    {
        if collected.unicode_len() > 0 {
            let ghost before = self.messages@;
            self.messages.push(ChatMessage { role: to_string("assistant"), content: collected });
            assert(turns(self.messages@) =~= turns(before).push(("assistant"@, collected@)));
        }
    }
}

/// What `flarion chat` prints, and its exit status, when the request
/// cannot be made: as a read command, but an unknown model exits with 4.
pub open spec fn chat_failure(e: ClientError) -> (Seq<char>, u8) {
    match e {
        ClientError::NotFound { .. } => ("flarion: model not found"@, 4),
        _ => crate::cli::read_failure(e),
    }
}

pub fn chat_failure_of(e: &ClientError) -> (r: (String, u8))
    ensures
        (r.0@, r.1) == chat_failure(*e),
{
    match e {
        ClientError::NotFound { .. } => (to_string("flarion: model not found"), 4),
        _ => crate::cli::read_failure_of(e),
    }
}

} // verus!
