use crate::agents::{AgentView, PersonaAgent};
use crate::errors::{res_view, Error, ErrorView};
use vstd::prelude::*;
use vstd::string::StringExecFns;

verus! {

/// A prompting backend: a capability that turns a user prompt, the
/// accumulated context and an agent's identity into the agent's textual
/// reply. The engine treats it purely as an injected dependency and never
/// retries on its behalf.
pub trait PromptModel: Sized {
    /// What one invocation returns, as a function of the backend's state and
    /// of the arguments.
    spec fn spec_prompt(&self, prompt: Seq<char>, context: Seq<char>, agent: AgentView) -> Result<
        Seq<char>,
        ErrorView,
    >;

    /// The backend's state after one invocation; a backend that counts its
    /// calls records each one here.
    spec fn spec_step(&self, prompt: Seq<char>, context: Seq<char>, agent: AgentView) -> Self;

    /// Produces the agent's reply to `prompt` under the accumulated context
    /// `data`, or the backend's failure.
    fn prompt(&mut self, prompt: &str, data: String, agent: &PersonaAgent) -> (r: Result<
        String,
        Error,
    >)
        ensures
            res_view(r) == old(self).spec_prompt(prompt@, data@, agent@),
            *final(self) == old(self).spec_step(prompt@, data@, agent@),
    ;
}

/// One more than `c`, stopping at the largest count rather than wrapping.
pub open spec fn inc_saturating(c: u64) -> u64 {
    if c == u64::MAX {
        u64::MAX
    } else {
        (c + 1) as u64
    }
}

/// What an echoing backend replies: the agent's name, a colon, and the
/// context it was shown.
pub open spec fn echo_reply(agent: AgentView, context: Seq<char>) -> Seq<char> {
    agent.name + ":"@ + context
}

/// A stubbed backend for tests: it always succeeds, replies with the agent's
/// name followed by a colon and the context it was shown, and counts its
/// invocations.
pub struct EchoModel {
    /// How many times `prompt` has been invoked.
    pub calls: u64,
}

impl EchoModel {
    /// An echoing backend that has not been invoked yet.
    pub fn new() -> (r: EchoModel)
        ensures
            r.calls == 0,
    {
        EchoModel { calls: 0 }
    }
}

impl PromptModel for EchoModel {
    open spec fn spec_prompt(&self, prompt: Seq<char>, context: Seq<char>, agent: AgentView) -> Result<
        Seq<char>,
        ErrorView,
    > {
        Ok(echo_reply(agent, context))
    }

    open spec fn spec_step(&self, prompt: Seq<char>, context: Seq<char>, agent: AgentView) -> Self {
        EchoModel { calls: inc_saturating(self.calls) }
    }

    fn prompt(&mut self, prompt: &str, data: String, agent: &PersonaAgent) -> (r: Result<
        String,
        Error,
    >) {
        if self.calls < u64::MAX {
            self.calls = self.calls + 1;
        }
        Ok(agent.name.clone().concat(":").concat(data.as_str()))
    }
}

/// The message a `FailingEchoModel` fails with.
pub open spec fn backend_unavailable_message() -> Seq<char> {
    "backend unavailable"@
}

/// A stubbed backend for tests: it echoes like `EchoModel` for its first
/// `fail_from` invocations, then fails every later one with `BackendError`.
/// It counts every invocation, failing ones included.
pub struct FailingEchoModel {
    /// How many times `prompt` has been invoked.
    pub calls: u64,
    /// The number of the first invocation that fails, counted from zero.
    pub fail_from: u64,
}

impl FailingEchoModel {
    /// A backend whose first `fail_from` invocations succeed and whose later
    /// ones fail.
    pub fn new(fail_from: u64) -> (r: FailingEchoModel)
        ensures
            r.calls == 0,
            r.fail_from == fail_from,
    {
        FailingEchoModel { calls: 0, fail_from }
    }
}

impl PromptModel for FailingEchoModel {
    open spec fn spec_prompt(&self, prompt: Seq<char>, context: Seq<char>, agent: AgentView) -> Result<
        Seq<char>,
        ErrorView,
    > {
        if self.calls >= self.fail_from {
            Err(ErrorView::BackendError(backend_unavailable_message()))
        } else {
            Ok(echo_reply(agent, context))
        }
    }

    open spec fn spec_step(&self, prompt: Seq<char>, context: Seq<char>, agent: AgentView) -> Self {
        FailingEchoModel { calls: inc_saturating(self.calls), fail_from: self.fail_from }
    }

    fn prompt(&mut self, prompt: &str, data: String, agent: &PersonaAgent) -> (r: Result<
        String,
        Error,
    >) {
        let failing = self.calls >= self.fail_from;
        if self.calls < u64::MAX {
            self.calls = self.calls + 1;
        }
        if failing {
            Err(Error::BackendError("backend unavailable".to_owned()))
        } else {
            Ok(agent.name.clone().concat(":").concat(data.as_str()))
        }
    }
}

/// What `serde_json::to_string_pretty` returns on a string: its
/// pretty-printed JSON encoding, a function of the characters alone.
pub uninterp spec fn json_pretty_of(s: Seq<char>) -> Seq<char>;

/// Relies on serde_json::to_string_pretty: encodes a value as pretty-printed
/// JSON; on a string the result depends on its characters alone. Its error
/// paths are a failing `Serialize` impl and a map with non-string keys; a
/// string has neither, and the in-memory writer cannot fail, so on this
/// signature the call returns `Ok`.
#[verifier::external_body]
fn json_string_pretty(data: &String) -> (r: Result<String, String>)
    ensures
        r is Ok,
        r matches Ok(s) ==> s@ == json_pretty_of(data@),
{
    match serde_json::to_string_pretty(data) {
        Ok(s) => Ok(s),
        Err(e) => Err(e.to_string()),
    }
}

/// The instruction payload handed to the external model: the user prompt,
/// then the context, already encoded, under a fixed heading.
pub open spec fn composed_prompt(prompt: Seq<char>, context_json: Seq<char>) -> Seq<char> {
    prompt + "\n\n            Provided context:\n            "@ + context_json + "\n            "@
}

/// Joins the user prompt and an already-encoded context into the instruction
/// payload.
pub fn compose_prompt_from(prompt: &str, context_json: &str) -> (r: String)
    ensures
        r@ == composed_prompt(prompt@, context_json@),
{
    let mut s = prompt.to_owned();
    s.append("\n\n            Provided context:\n            ");
    s.append(context_json);
    s.append("\n            ");
    s
}

/// Encodes the context as JSON and joins it with the user prompt into the
/// instruction payload. Encoding a string cannot fail, so this always
/// succeeds; the `Result` is the shape its callers hand on.
pub fn compose_prompt(prompt: &str, data: &String) -> (r: Result<String, Error>)
    ensures
        r matches Ok(s) && s@ == composed_prompt(prompt@, json_pretty_of(data@)),
{
    match json_string_pretty(data) {
        Ok(context_json) => Ok(compose_prompt_from(prompt, context_json.as_str())),
        Err(m) => Err(Error::SerializationError(m)),
    }
}

/// Picks the one textual reply out of a backend response's choices: the
/// first choice's text. A response with no choices, or whose first choice
/// carries no text, is an `OptionIsNone` failure, never an empty success.
pub fn extract_reply(choices: Vec<Option<String>>) -> (r: Result<String, Error>)
    ensures
        res_view(r) == (if choices@.len() == 0 {
            Err::<Seq<char>, ErrorView>(ErrorView::OptionIsNone)
        } else {
            match choices@[0] {
                Some(s) => Ok::<Seq<char>, ErrorView>(s@),
                None => Err::<Seq<char>, ErrorView>(ErrorView::OptionIsNone),
            }
        }),
{
    let mut choices = choices;
    if choices.len() == 0 {
        return Err(Error::OptionIsNone);
    }
    match choices.remove(0) {
        Some(s) => Ok(s),
        None => Err(Error::OptionIsNone),
    }
}

} // verus!
