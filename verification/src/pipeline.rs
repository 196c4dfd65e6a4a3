use crate::agents::{agent_view, Agent, AgentView, PersonaAgent};
use crate::data_sources::{DataSource, NoDataSource};
use crate::errors::{res_view, Error, ErrorView};
use crate::models::PromptModel;
use vstd::prelude::*;

verus! {

/// What driving `agents` in order does, starting the backend at `model` with
/// the rolling context at `context`: each agent is invoked with the previous
/// agent's output as its context, the first failure is terminal, and the
/// result is the last agent's output. Yields the backend's final state and
/// the run's outcome; on an empty sequence the outcome is the context itself.
pub open spec fn drive<P: PromptModel>(
    model: P,
    prompt: Seq<char>,
    context: Seq<char>,
    agents: Seq<AgentView>,
) -> (P, Result<Seq<char>, ErrorView>)
    decreases agents.len(),
{
    if agents.len() == 0 {
        (model, Ok(context))
    } else {
        let reply = model.spec_prompt(prompt, context, agents[0]);
        let stepped = model.spec_step(prompt, context, agents[0]);
        match reply {
            Ok(out) => drive(stepped, prompt, out, agents.drop_first()),
            Err(e) => (stepped, Err(e)),
        }
    }
}

/// A run's whole effect: the backend went from `m0` to `m1` and the run
/// returned `r`, exactly as `drive` says for the given start context.
pub open spec fn drive_post<P: PromptModel>(
    m0: P,
    m1: P,
    prompt: Seq<char>,
    context: Seq<char>,
    agents: Seq<AgentView>,
    r: Result<String, Error>,
) -> bool {
    &&& m1 == drive(m0, prompt, context, agents).0
    &&& res_view(r) == drive(m0, prompt, context, agents).1
}

/// The position of the first agent whose name is `name`, or -1 when no agent
/// carries it.
pub open spec fn find_agent(agents: Seq<AgentView>, name: Seq<char>) -> int
    decreases agents.len(),
{
    if agents.len() == 0 {
        -1
    } else if agents[0].name == name {
        0
    } else {
        let rest = find_agent(agents.drop_first(), name);
        if rest < 0 {
            -1
        } else {
            rest + 1
        }
    }
}

/// An ordered collection of agents and at most one data source, and the
/// engine that sequences them: a run threads one rolling context string
/// through the agents in registration order and surfaces the first failure
/// unchanged.
pub struct Pipeline<D: DataSource> {
    agents: Vec<PersonaAgent>,
    data_source: Option<D>,
}

impl<D: DataSource> Pipeline<D> {
    /// The identities of the registered agents, in execution order.
    pub closed spec fn spec_agents(&self) -> Seq<AgentView> {
        self.agents@.map_values(|a: PersonaAgent| a@)
    }

    /// The registered data source, if one was added.
    pub closed spec fn spec_source(&self) -> Option<D> {
        self.data_source
    }

    /// Appends an agent at the end of the execution order; duplicates are
    /// allowed.
    pub fn add_agent<A: Agent>(self, agent: &A) -> (r: Pipeline<D>)
        ensures
            r.spec_agents() == self.spec_agents().push(agent_view(agent)),
            r.spec_source() == self.spec_source(),
    {
        let mut agents = self.agents;
        agents.push(PersonaAgent::new(agent.name(), agent.system_message()));
        Pipeline { agents, data_source: self.data_source }
    }

    /// Registers `source` as the pipeline's data source, replacing any
    /// earlier one for every later run.
    pub fn add_data_source<D2: DataSource>(self, source: D2) -> (r: Pipeline<D2>)
        ensures
            r.spec_agents() == self.spec_agents(),
            r.spec_source() == Some(source),
    {
        Pipeline { agents: self.agents, data_source: Some(source) }
    }

    /// How many agents are registered.
    pub fn num_agents(&self) -> (r: usize)
        ensures
            r == self.spec_agents().len(),
    {
        self.agents.len()
    }

    /// Removes the agent at `index`, keeping the order of the others.
    pub fn remove_agent_at_index(self, index: usize) -> (r: Pipeline<D>)
        requires
            index < self.spec_agents().len(),
        ensures
            r.spec_agents() == self.spec_agents().remove(index as int),
            r.spec_source() == self.spec_source(),
    {
        let mut agents = self.agents;
        agents.remove(index);
        proof {
            assert(agents@.map_values(|a: PersonaAgent| a@) =~= self.spec_agents().remove(
                index as int,
            ));
        }
        Pipeline { agents, data_source: self.data_source }
    }

    /// Removes every agent whose name is `name`, keeping the order of the
    /// others.
    #[verifier::loop_isolation(false)]
    pub fn remove_agent_by_name(self, name: String) -> (r: Pipeline<D>)
        ensures
            r.spec_agents() == self.spec_agents().filter(|a: AgentView| a.name != name@),
            r.spec_source() == self.spec_source(),
    {
        let ghost pred = |a: AgentView| a.name != name@;
        let ghost all = self.spec_agents();
        let mut rest = self.agents;
        let mut kept: Vec<PersonaAgent> = Vec::new();
        let ghost mut j: int = 0;
        proof {
            assert(all.take(0).filter(pred) =~= Seq::<AgentView>::empty());
            assert(Seq::<AgentView>::empty().filter(pred) =~= Seq::<AgentView>::empty()) by {
                reveal_with_fuel(Seq::filter, 1);
            }
        }
        while rest.len() > 0
            invariant
                0 <= j <= all.len(),
                all == self.spec_agents(),
                rest@.map_values(|a: PersonaAgent| a@) =~= all.skip(j),
                kept@.map_values(|a: PersonaAgent| a@) =~= all.take(j).filter(pred),
            decreases rest.len(),
        {
            let ghost rest0 = rest@;
            let a = rest.remove(0);
            proof {
                assert(rest0.map_values(|x: PersonaAgent| x@).len() == rest0.len());
                assert(all.skip(j).len() == all.len() - j);
                assert(a == rest0[0]);
                assert(rest0.map_values(|x: PersonaAgent| x@)[0] == rest0[0]@);
                assert(all.skip(j)[0] == all[j]);
                assert(a@ == all[j]);
                assert(rest@ == rest0.remove(0));
                assert forall|i: int| 0 <= i < rest@.len() implies rest@.map_values(
                    |x: PersonaAgent| x@,
                )[i] == #[trigger] all.skip(j + 1)[i] by {
                    assert(rest@[i] == rest0[i + 1]);
                    assert(rest0.map_values(|x: PersonaAgent| x@)[i + 1] == rest0[i + 1]@);
                    assert(all.skip(j)[i + 1] == all[j + 1 + i]);
                    assert(all.skip(j + 1)[i] == all[j + 1 + i]);
                }
                assert(rest@.map_values(|x: PersonaAgent| x@) =~= all.skip(j + 1));
                assert(all.take(j + 1) =~= all.take(j).push(all[j]));
                lemma_filter_push(all.take(j), pred, all[j]);
            }
            if !(a.name == name) {
                proof {
                    assert(pred(a@));
                }
                kept.push(a);
            } else {
                proof {
                    assert(!pred(a@));
                }
            }
            proof {
                j = j + 1;
            }
        }
        proof {
            assert(all.take(all.len() as int) =~= all);
        }
        Pipeline { agents: kept, data_source: self.data_source }
    }
    /// Runs every agent in registration order: the first agent reads the
    /// initial context (retrieved from the registered source, or empty), each
    /// later agent reads the previous agent's output, and the last agent's
    /// output is the run's result. An empty pipeline fails with
    /// `NoAgentsExist` before anything else; a failed retrieval or a failed
    /// backend call is terminal and surfaced unchanged.
    pub fn run_pipeline<P: PromptModel>(&self, prompt: String, model: &mut P) -> (r: Result<
        String,
        Error,
    >)
        ensures
            self.spec_agents().len() == 0 ==> res_view(r) == Err::<Seq<char>, ErrorView>(
                ErrorView::NoAgentsExist,
            ) && *final(model) == *old(model),
            self.spec_agents().len() > 0 ==> (match self.spec_source() {
                Some(source) => match source.spec_retrieve() {
                    Ok(ctx) => drive_post(
                        *old(model),
                        *final(model),
                        prompt@,
                        ctx,
                        self.spec_agents(),
                        r,
                    ),
                    Err(e) => res_view(r) == Err::<Seq<char>, ErrorView>(e) && *final(model)
                        == *old(model),
                },
                None => drive_post(
                    *old(model),
                    *final(model),
                    prompt@,
                    Seq::<char>::empty(),
                    self.spec_agents(),
                    r,
                ),
            }),
    {
        if self.agents.len() == 0 {
            return Err(Error::NoAgentsExist);
        }
        let context = match &self.data_source {
            Some(source) => match source.retrieve_data() {
                Ok(c) => c,
                Err(e) => {
                    return Err(e);
                },
            },
            None => String::new(),
        };
        self.drive_agents(prompt.as_str(), context, model)
    }

    /// Runs every agent as `run_pipeline` does, but seeds the initial
    /// context from `data_source` instead of the registered source.
    pub fn run_pipeline_with_initial_data<P: PromptModel, S: DataSource>(
        &self,
        prompt: String,
        model: &mut P,
        data_source: S,
    ) -> (r: Result<String, Error>)
        ensures
            self.spec_agents().len() == 0 ==> res_view(r) == Err::<Seq<char>, ErrorView>(
                ErrorView::NoAgentsExist,
            ) && *final(model) == *old(model),
            self.spec_agents().len() > 0 ==> (match data_source.spec_retrieve() {
                Ok(ctx) => drive_post(
                    *old(model),
                    *final(model),
                    prompt@,
                    ctx,
                    self.spec_agents(),
                    r,
                ),
                Err(e) => res_view(r) == Err::<Seq<char>, ErrorView>(e) && *final(model) == *old(
                    model,
                ),
            }),
    {
        if self.agents.len() == 0 {
            return Err(Error::NoAgentsExist);
        }
        let context = match data_source.retrieve_data() {
            Ok(c) => c,
            Err(e) => {
                return Err(e);
            },
        };
        self.drive_agents(prompt.as_str(), context, model)
    }

    /// The sequential drive itself: every agent in order, first failure
    /// terminal, exactly as `drive` says.
    #[verifier::loop_isolation(false)]
    fn drive_agents<P: PromptModel>(&self, prompt: &str, context: String, model: &mut P) -> (r:
        Result<String, Error>)
        ensures
            drive_post(*old(model), *final(model), prompt@, context@, self.spec_agents(), r),
    {
        let ghost m0 = *model;
        let ghost ctx0 = context@;
        let ghost agents_view = self.spec_agents();
        let n = self.agents.len();
        let mut context = context;
        let mut i: usize = 0;
        proof {
            assert(agents_view.skip(0) =~= agents_view);
        }
        while i < n
            invariant
                i <= n,
                n == self.agents.len(),
                drive(m0, prompt@, ctx0, agents_view) == drive(
                    *model,
                    prompt@,
                    context@,
                    agents_view.skip(i as int),
                ),
            decreases n - i,
        {
            let ghost m_before = *model;
            let ghost c_before = context@;
            let agent = &self.agents[i];
            proof {
                assert(agents_view.len() == self.agents@.len());
                assert(agents_view[i as int] == self.agents@[i as int]@);
                assert(agents_view.skip(i as int)[0] == agents_view[i as int]);
                assert(agents_view.skip(i as int).drop_first() =~= agents_view.skip(i as int + 1));
            }
            match model.prompt(prompt, context, agent) {
                Ok(out) => {
                    proof {
                        assert(m_before.spec_prompt(prompt@, c_before, agent@) == Ok::<
                            Seq<char>,
                            ErrorView,
                        >(out@));
                    }
                    context = out;
                    i = i + 1;
                },
                Err(e) => {
                    proof {
                        assert(m_before.spec_prompt(prompt@, c_before, agent@) == Err::<
                            Seq<char>,
                            ErrorView,
                        >(e@));
                    }
                    return Err(e);
                },
            }
        }
        proof {
            assert(agents_view.skip(n as int).len() == 0);
        }
        Ok(context)
    }

    /// Invokes exactly the agent at `index` on the given context; nothing is
    /// threaded into other agents.
    fn run_single<P: PromptModel>(
        &self,
        prompt: &str,
        index: usize,
        context: String,
        model: &mut P,
    ) -> (r: Result<String, Error>)
        requires
            index < self.spec_agents().len(),
        ensures
            res_view(r) == old(model).spec_prompt(
                prompt@,
                context@,
                self.spec_agents()[index as int],
            ),
            *final(model) == old(model).spec_step(
                prompt@,
                context@,
                self.spec_agents()[index as int],
            ),
    {
        let agent = &self.agents[index];
        proof {
            assert(self.spec_agents()[index as int] == self.agents@[index as int]@);
        }
        model.prompt(prompt, context, agent)
    }

    /// Invokes exactly one agent, the one at `index`, on the context
    /// retrieved from `data_source`. An out-of-range index fails with
    /// `NoAgentsExist` before the backend is invoked; a failed retrieval is
    /// surfaced unchanged.
    pub fn run_agent_at_index_with_initial_data<P: PromptModel, S: DataSource>(
        &self,
        prompt: String,
        index: usize,
        model: &mut P,
        data_source: S,
    ) -> (r: Result<String, Error>)
        ensures
            index >= self.spec_agents().len() ==> res_view(r) == Err::<Seq<char>, ErrorView>(
                ErrorView::NoAgentsExist,
            ) && *final(model) == *old(model),
            index < self.spec_agents().len() ==> (match data_source.spec_retrieve() {
                Ok(ctx) => res_view(r) == old(model).spec_prompt(
                    prompt@,
                    ctx,
                    self.spec_agents()[index as int],
                ) && *final(model) == old(model).spec_step(
                    prompt@,
                    ctx,
                    self.spec_agents()[index as int],
                ),
                Err(e) => res_view(r) == Err::<Seq<char>, ErrorView>(e) && *final(model) == *old(
                    model,
                ),
            }),
    {
        if index >= self.agents.len() {
            return Err(Error::NoAgentsExist);
        }
        let context = match data_source.retrieve_data() {
            Ok(c) => c,
            Err(e) => {
                return Err(e);
            },
        };
        self.run_single(prompt.as_str(), index, context, model)
    }

    /// Invokes exactly one agent, the one at `index`, on the context
    /// retrieved from the registered source, or on the empty context when
    /// none is registered. An out-of-range index fails with `NoAgentsExist`
    /// before the backend is invoked.
    pub fn run_agent_at_index<P: PromptModel>(
        &self,
        prompt: String,
        index: usize,
        model: &mut P,
    ) -> (r: Result<String, Error>)
        ensures
            index >= self.spec_agents().len() ==> res_view(r) == Err::<Seq<char>, ErrorView>(
                ErrorView::NoAgentsExist,
            ) && *final(model) == *old(model),
            index < self.spec_agents().len() ==> (match self.spec_source() {
                Some(source) => match source.spec_retrieve() {
                    Ok(ctx) => res_view(r) == old(model).spec_prompt(
                        prompt@,
                        ctx,
                        self.spec_agents()[index as int],
                    ) && *final(model) == old(model).spec_step(
                        prompt@,
                        ctx,
                        self.spec_agents()[index as int],
                    ),
                    Err(e) => res_view(r) == Err::<Seq<char>, ErrorView>(e) && *final(model)
                        == *old(model),
                },
                None => res_view(r) == old(model).spec_prompt(
                    prompt@,
                    Seq::<char>::empty(),
                    self.spec_agents()[index as int],
                ) && *final(model) == old(model).spec_step(
                    prompt@,
                    Seq::<char>::empty(),
                    self.spec_agents()[index as int],
                ),
            }),
    {
        if index >= self.agents.len() {
            return Err(Error::NoAgentsExist);
        }
        let context = match &self.data_source {
            Some(source) => match source.retrieve_data() {
                Ok(c) => c,
                Err(e) => {
                    return Err(e);
                },
            },
            None => String::new(),
        };
        self.run_single(prompt.as_str(), index, context, model)
    }

    /// The position of the first agent named `name`, if any.
    #[verifier::loop_isolation(false)]
    fn find_agent_index(&self, name: &str) -> (r: Option<usize>)
        ensures
            r matches Some(i) ==> i == find_agent(self.spec_agents(), name@),
            r is None ==> find_agent(self.spec_agents(), name@) == -1,
    {
        let name_string = name.to_owned();
        let n = self.agents.len();
        let ghost agents_view = self.spec_agents();
        let mut i: usize = 0;
        while i < n
            invariant
                i <= n,
                forall|j: int| 0 <= j < i ==> #[trigger] agents_view[j].name != name@,
            decreases n - i,
        {
            proof {
                assert(agents_view[i as int] == self.agents@[i as int]@);
            }
            if self.agents[i].name == name_string {
                proof {
                    lemma_find_agent_first_match(agents_view, name@, i as int);
                }
                return Some(i);
            }
            i = i + 1;
        }
        proof {
            lemma_find_agent_no_match(agents_view, name@);
        }
        None
    }

    /// Invokes exactly one agent, the first whose name matches `name` in
    /// registration order, on the context retrieved from `data_source`. A
    /// name matching no agent fails with `NoAgentsExist` before the backend
    /// is invoked; a failed retrieval is surfaced unchanged.
    pub fn run_agent_by_name_with_initial_data<P: PromptModel, S: DataSource>(
        &self,
        prompt: String,
        name: &str,
        model: &mut P,
        data_source: S,
    ) -> (r: Result<String, Error>)
        ensures
            find_agent(self.spec_agents(), name@) < 0 ==> res_view(r) == Err::<
                Seq<char>,
                ErrorView,
            >(ErrorView::NoAgentsExist) && *final(model) == *old(model),
            find_agent(self.spec_agents(), name@) >= 0 ==> (match data_source.spec_retrieve() {
                Ok(ctx) => res_view(r) == old(model).spec_prompt(
                    prompt@,
                    ctx,
                    self.spec_agents()[find_agent(self.spec_agents(), name@)],
                ) && *final(model) == old(model).spec_step(
                    prompt@,
                    ctx,
                    self.spec_agents()[find_agent(self.spec_agents(), name@)],
                ),
                Err(e) => res_view(r) == Err::<Seq<char>, ErrorView>(e) && *final(model) == *old(
                    model,
                ),
            }),
    {
        let index = match self.find_agent_index(name) {
            Some(i) => i,
            None => {
                return Err(Error::NoAgentsExist);
            },
        };
        proof {
            lemma_find_agent_in_range(self.spec_agents(), name@);
        }
        let context = match data_source.retrieve_data() {
            Ok(c) => c,
            Err(e) => {
                return Err(e);
            },
        };
        self.run_single(prompt.as_str(), index, context, model)
    }

    /// Invokes exactly one agent, the first whose name matches `name` in
    /// registration order, on the context retrieved from the registered
    /// source, or on the empty context when none is registered. A name
    /// matching no agent fails with `NoAgentsExist` before the backend is
    /// invoked.
    pub fn run_agent_by_name<P: PromptModel>(
        &self,
        prompt: String,
        name: &str,
        model: &mut P,
    ) -> (r: Result<String, Error>)
        ensures
            find_agent(self.spec_agents(), name@) < 0 ==> res_view(r) == Err::<
                Seq<char>,
                ErrorView,
            >(ErrorView::NoAgentsExist) && *final(model) == *old(model),
            find_agent(self.spec_agents(), name@) >= 0 ==> (match self.spec_source() {
                Some(source) => match source.spec_retrieve() {
                    Ok(ctx) => res_view(r) == old(model).spec_prompt(
                        prompt@,
                        ctx,
                        self.spec_agents()[find_agent(self.spec_agents(), name@)],
                    ) && *final(model) == old(model).spec_step(
                        prompt@,
                        ctx,
                        self.spec_agents()[find_agent(self.spec_agents(), name@)],
                    ),
                    Err(e) => res_view(r) == Err::<Seq<char>, ErrorView>(e) && *final(model)
                        == *old(model),
                },
                None => res_view(r) == old(model).spec_prompt(
                    prompt@,
                    Seq::<char>::empty(),
                    self.spec_agents()[find_agent(self.spec_agents(), name@)],
                ) && *final(model) == old(model).spec_step(
                    prompt@,
                    Seq::<char>::empty(),
                    self.spec_agents()[find_agent(self.spec_agents(), name@)],
                ),
            }),
    {
        let index = match self.find_agent_index(name) {
            Some(i) => i,
            None => {
                return Err(Error::NoAgentsExist);
            },
        };
        proof {
            lemma_find_agent_in_range(self.spec_agents(), name@);
        }
        let context = match &self.data_source {
            Some(source) => match source.retrieve_data() {
                Ok(c) => c,
                Err(e) => {
                    return Err(e);
                },
            },
            None => String::new(),
        };
        self.run_single(prompt.as_str(), index, context, model)
    }
}

/// Where a stepwise run stands: before one more backend invocation, or over.
/// It serves callers whose backend the engine cannot invoke itself, such as
/// an asynchronous one: the caller performs each invocation and hands the
/// reply back to `advance_run`.
pub enum RunStep {
    /// The backend is to be invoked for the agent at `index`, which reads
    /// `context`.
    Pending {
        /// The position of the agent to invoke next.
        index: usize,
        /// The context that agent reads.
        context: String,
    },
    /// The run is over; `result` is the last agent's output.
    Finished {
        /// The run's result.
        result: String,
    },
}

impl<D: DataSource> Pipeline<D> {
    /// Opens a stepwise run on the given initial context: the first agent is
    /// to be invoked next. An empty pipeline fails with `NoAgentsExist`
    /// before anything else.
    pub fn start_run(&self, initial_context: String) -> (r: Result<RunStep, Error>)
        ensures
            self.spec_agents().len() == 0 ==> r == Err::<RunStep, Error>(Error::NoAgentsExist),
            self.spec_agents().len() > 0 ==> (r matches Ok(
                RunStep::Pending { index, context },
            ) && index == 0 && context@ == initial_context@),
    {
        if self.agents.len() == 0 {
            return Err(Error::NoAgentsExist);
        }
        Ok(RunStep::Pending { index: 0, context: initial_context })
    }

    /// Takes the backend's reply for the agent at `index`: a failure is
    /// terminal and surfaced unchanged; an output finishes the run after the
    /// last agent and is otherwise the next agent's context.
    pub fn advance_run(&self, index: usize, reply: Result<String, Error>) -> (r: Result<
        RunStep,
        Error,
    >)
        requires
            index < self.spec_agents().len(),
        ensures
            (match reply {
                Err(e) => r matches Err(e2) && e2@ == e@,
                Ok(out) => {
                    if index + 1 == self.spec_agents().len() {
                        r matches Ok(RunStep::Finished { result }) && result@ == out@
                    } else {
                        r matches Ok(RunStep::Pending { index: next, context }) && next == index
                            + 1 && context@ == out@
                    }
                },
            }),
    {
        let n = self.agents.len();
        match reply {
            Err(e) => Err(e),
            Ok(out) => {
                if index + 1 == n {
                    Ok(RunStep::Finished { result: out })
                } else {
                    Ok(RunStep::Pending { index: index + 1, context: out })
                }
            },
        }
    }

    /// The agent at `index`, in registration order.
    pub fn agent_at(&self, index: usize) -> (r: &PersonaAgent)
        requires
            index < self.spec_agents().len(),
        ensures
            r@ == self.spec_agents()[index as int],
    {
        proof {
            assert(self.spec_agents()[index as int] == self.agents@[index as int]@);
        }
        &self.agents[index]
    }
}

/// A successful name search returns the position of the first agent that
/// carries the name.
proof fn lemma_find_agent_first_match(agents: Seq<AgentView>, name: Seq<char>, i: int)
    requires
        0 <= i < agents.len(),
        agents[i].name == name,
        forall|j: int| 0 <= j < i ==> #[trigger] agents[j].name != name,
    ensures
        find_agent(agents, name) == i,
    decreases agents.len(),
{
    if i == 0 {
    } else {
        assert(agents[0].name != name);
        assert forall|j: int| 0 <= j < i - 1 implies #[trigger] agents.drop_first()[j].name
            != name by {
            assert(agents.drop_first()[j] == agents[j + 1]);
        }
        assert(agents.drop_first()[i - 1] == agents[i]);
        lemma_find_agent_first_match(agents.drop_first(), name, i - 1);
    }
}

/// A name carried by no agent is never found.
proof fn lemma_find_agent_no_match(agents: Seq<AgentView>, name: Seq<char>)
    requires
        forall|j: int| 0 <= j < agents.len() ==> #[trigger] agents[j].name != name,
    ensures
        find_agent(agents, name) == -1,
    decreases agents.len(),
{
    if agents.len() > 0 {
        assert forall|j: int| 0 <= j < agents.drop_first().len() implies #[trigger] agents
            .drop_first()[j].name != name by {
            assert(agents.drop_first()[j] == agents[j + 1]);
        }
        lemma_find_agent_no_match(agents.drop_first(), name);
    }
}

/// A found position is in range and carries the name; every earlier
/// position does not. So the first match in registration order wins.
pub proof fn lemma_find_agent_in_range(agents: Seq<AgentView>, name: Seq<char>)
    ensures
        find_agent(agents, name) == -1 || (0 <= find_agent(agents, name) < agents.len()),
        find_agent(agents, name) >= 0 ==> agents[find_agent(agents, name)].name == name,
        find_agent(agents, name) >= 0 ==> forall|j: int|
            0 <= j < find_agent(agents, name) ==> #[trigger] agents[j].name != name,
    decreases agents.len(),
{
    if agents.len() > 0 {
        lemma_find_agent_in_range(agents.drop_first(), name);
        let rest = find_agent(agents.drop_first(), name);
        if agents[0].name != name && rest >= 0 {
            assert(agents.drop_first()[rest] == agents[rest + 1]);
            assert forall|j: int| 0 <= j < rest + 1 implies #[trigger] agents[j].name != name by {
                if j > 0 {
                    assert(agents.drop_first()[j - 1] == agents[j]);
                }
            }
        }
    }
}

/// Filtering a sequence extended by one element keeps the filtered prefix
/// and appends the element exactly when it satisfies the predicate.
proof fn lemma_filter_push<A>(s: Seq<A>, pred: spec_fn(A) -> bool, x: A)
    ensures
        s.push(x).filter(pred) == if pred(x) {
            s.filter(pred).push(x)
        } else {
            s.filter(pred)
        },
{
    reveal_with_fuel(Seq::filter, 2);
    assert(s.push(x).drop_last() =~= s);
    assert(s.push(x).last() == x);
}

impl Pipeline<NoDataSource> {
    /// An empty pipeline: no agents and no data source.
    pub fn new() -> (r: Pipeline<NoDataSource>)
        ensures
            r.spec_agents() == Seq::<AgentView>::empty(),
            r.spec_source() is None,
    {
        proof {
            assert(Seq::<PersonaAgent>::empty().map_values(|a: PersonaAgent| a@)
                =~= Seq::<AgentView>::empty());
        }
        Pipeline { agents: Vec::new(), data_source: None }
    }
}

impl Default for Pipeline<NoDataSource> {
    fn default() -> (r: Pipeline<NoDataSource>)
        ensures
            r.spec_agents() == Seq::<AgentView>::empty(),
            r.spec_source() is None,
    {
        Pipeline::new()
    }
}

} // verus!
