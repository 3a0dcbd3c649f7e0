use vstd::prelude::*;

verus! {

pub struct AgentArgs {
    pub action: AgentAction,
}

pub enum AgentAction {
    /// Print the guide for AI agents.
    Guide,
}

} // verus!
