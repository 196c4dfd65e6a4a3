use vstd::prelude::*;

verus! {

/// The mathematical value of an agent: its display name and its fixed
/// instruction text, as character sequences.
pub ghost struct AgentView {
    pub name: Seq<char>,
    pub system_message: Seq<char>,
}

/// A named persona: an identity with a fixed instruction string. Agents are
/// pure accessors with no side effects; prompting is delegated to a
/// `PromptModel` so that backend selection stays decoupled from persona
/// definition.
pub trait Agent {
    /// The name this agent reports.
    spec fn spec_name(&self) -> Seq<char>;

    /// The instruction text this agent reports.
    spec fn spec_system_message(&self) -> Seq<char>;

    /// The display and lookup key of the agent.
    fn name(&self) -> (r: String)
        ensures
            r@ == self.spec_name(),
    ;

    /// The instruction text supplied to the backend on every invocation.
    fn system_message(&self) -> (r: String)
        ensures
            r@ == self.spec_system_message(),
    ;
}

/// The identity of any agent, as a value.
pub open spec fn agent_view<A: Agent>(agent: &A) -> AgentView {
    AgentView { name: agent.spec_name(), system_message: agent.spec_system_message() }
}

/// An agent given directly by its name and instruction text. A pipeline
/// stores every registered agent in this form, whatever type it was added as.
pub struct PersonaAgent {
    /// The display and lookup key of the agent.
    pub name: String,
    /// The instruction text supplied to the backend on every invocation.
    pub system_message: String,
}

impl View for PersonaAgent {
    type V = AgentView;

    open spec fn view(&self) -> AgentView {
        AgentView { name: self.name@, system_message: self.system_message@ }
    }
}

impl PersonaAgent {
    /// Builds an agent from its name and instruction text.
    pub fn new(name: String, system_message: String) -> (r: PersonaAgent)
        ensures
            r@ == (AgentView { name: name@, system_message: system_message@ }),
    {
        PersonaAgent { name, system_message }
    }
}

impl Agent for PersonaAgent {
    open spec fn spec_name(&self) -> Seq<char> {
        self.name@
    }

    open spec fn spec_system_message(&self) -> Seq<char> {
        self.system_message@
    }

    fn name(&self) -> (r: String) {
        self.name.clone()
    }

    fn system_message(&self) -> (r: String) {
        self.system_message.clone()
    }
}

} // verus!
