use crate::agents::AgentView;
use crate::errors::ErrorView;
use crate::models::{backend_unavailable_message, echo_reply, EchoModel, FailingEchoModel, PromptModel};
use crate::pipeline::drive;
use vstd::prelude::*;

verus! {

/// What a whole run against an echoing backend produces: for every agent,
/// its name, a colon, and everything produced so far. The empty sequence
/// produces the initial context itself.
pub open spec fn echo_out(agents: Seq<AgentView>, context: Seq<char>) -> Seq<char>
    decreases agents.len(),
{
    if agents.len() == 0 {
        context
    } else {
        echo_reply(agents.last(), echo_out(agents.drop_last(), context))
    }
}

/// Peeling the echo from the front: running the agents on `context` is
/// running all but the first on the first agent's own echo.
proof fn lemma_echo_out_unfold_front(agents: Seq<AgentView>, context: Seq<char>)
    requires
        agents.len() > 0,
    ensures
        echo_out(agents, context) == echo_out(agents.drop_first(), echo_reply(agents[0], context)),
    decreases agents.len(),
{
    let x = echo_reply(agents[0], context);
    if agents.len() == 1 {
        assert(agents.drop_last() =~= Seq::<AgentView>::empty());
        assert(agents.drop_first() =~= Seq::<AgentView>::empty());
        assert(echo_out(Seq::<AgentView>::empty(), context) == context);
        assert(echo_out(Seq::<AgentView>::empty(), x) == x);
        assert(agents.last() == agents[0]);
        assert(echo_out(agents, context) == echo_reply(agents[0], context));
    } else {
        lemma_echo_out_unfold_front(agents.drop_last(), context);
        assert(agents.drop_last()[0] == agents[0]);
        assert(agents.drop_last().drop_first() =~= agents.drop_first().drop_last());
        assert(agents.drop_first().last() == agents.last());
        assert(agents.drop_first().len() > 0);
        assert(echo_out(agents.drop_last(), context) == echo_out(
            agents.drop_first().drop_last(),
            x,
        ));
        assert(echo_out(agents.drop_first(), x) == echo_reply(
            agents.drop_first().last(),
            echo_out(agents.drop_first().drop_last(), x),
        ));
        assert(echo_out(agents, context) == echo_reply(
            agents.last(),
            echo_out(agents.drop_last(), context),
        ));
    }
}

/// Context threading against an echoing backend: the run always succeeds,
/// its result is the last agent's echo of the output of the agent
/// immediately before it (never of anything earlier), and the backend is
/// invoked exactly once per agent.
pub proof fn lemma_echo_threading(
    m: EchoModel,
    prompt: Seq<char>,
    context: Seq<char>,
    agents: Seq<AgentView>,
)
    ensures
        drive(m, prompt, context, agents).1 == Ok::<Seq<char>, ErrorView>(
            echo_out(agents, context),
        ),
        agents.len() > 0 ==> echo_out(agents, context) == agents.last().name + ":"@ + echo_out(
            agents.drop_last(),
            context,
        ),
        m.calls + agents.len() <= u64::MAX ==> drive(m, prompt, context, agents).0.calls == m.calls
            + agents.len(),
    decreases agents.len(),
{
    if agents.len() > 0 {
        let stepped = m.spec_step(prompt, context, agents[0]);
        lemma_echo_threading(stepped, prompt, echo_reply(agents[0], context), agents.drop_first());
        lemma_echo_out_unfold_front(agents, context);
    }
}

/// The context an echoing run shows to the agent at position `k`: everything
/// the first `k` agents produced. Position zero reads the initial context;
/// every later position reads exactly the previous agent's output, never a
/// context from two steps back.
pub proof fn lemma_echo_context_at_step(
    agents: Seq<AgentView>,
    context: Seq<char>,
    k: int,
)
    requires
        0 < k < agents.len(),
    ensures
        echo_out(agents.take(k), context) == echo_reply(
            agents[k - 1],
            echo_out(agents.take(k - 1), context),
        ),
{
    assert(agents.take(k).drop_last() =~= agents.take(k - 1));
    assert(agents.take(k).last() == agents[k - 1]);
}

/// First failure wins: when a backend starts failing at invocation
/// `fail_from` and that happens before the agents run out, the run surfaces
/// exactly that backend failure, and the backend is invoked only up to and
/// including the failing call, so the remaining agents are never invoked.
pub proof fn lemma_failing_echo_stops(
    m: FailingEchoModel,
    prompt: Seq<char>,
    context: Seq<char>,
    agents: Seq<AgentView>,
)
    requires
        m.calls <= m.fail_from,
        m.fail_from - m.calls < agents.len(),
        m.calls + agents.len() <= u64::MAX,
    ensures
        drive(m, prompt, context, agents).1 == Err::<Seq<char>, ErrorView>(
            ErrorView::BackendError(backend_unavailable_message()),
        ),
        drive(m, prompt, context, agents).0.calls == m.fail_from + 1,
        drive(m, prompt, context, agents).0.fail_from == m.fail_from,
    decreases agents.len(),
{
    if m.calls < m.fail_from {
        let stepped = m.spec_step(prompt, context, agents[0]);
        lemma_failing_echo_stops(
            stepped,
            prompt,
            echo_reply(agents[0], context),
            agents.drop_first(),
        );
    }
}

} // verus!
