//! The built-in agents that every program gets, and the names under which
//! their channels are bound in every agent's scope.
use vstd::prelude::*;
use crate::assert_agent::AssertAgent;
use crate::channel::Channel;
use crate::fs_agent::FsAgent;
use crate::io_agent::IoAgent;
use crate::list_agent::StdLibAgent;
use crate::registry::{AgentAgent, RegistryAgent, SpawnAgent, SpecFactory};
use crate::text::text_of;

verus! {

/// The built-in agents.
#[derive(Debug)]
pub struct DefaultAgents {
    pub io_agent: IoAgent,
    pub fs_agent: FsAgent,
    pub new_agent: StdLibAgent,
    pub registry_agent: RegistryAgent,
    pub agent_agent: AgentAgent,
    pub spawn_agent: SpawnAgent,
    pub assert_agent: AssertAgent,
}

impl DefaultAgents {
    /// The built-in agents, with a registry that knows only the built-in
    /// `List` agent.
    pub fn new() -> (r: DefaultAgents)
        ensures
            r.registry_agent@ == Map::<Seq<char>, SpecFactory>::empty().insert("List"@, SpecFactory::List),
    {
        DefaultAgents {
            io_agent: IoAgent,
            fs_agent: FsAgent,
            new_agent: StdLibAgent,
            registry_agent: RegistryAgent::new(),
            agent_agent: AgentAgent,
            spawn_agent: SpawnAgent,
            assert_agent: AssertAgent,
        }
    }
}

/// The channels of the running built-in agents.
#[derive(Debug, Clone, Copy, PartialEq, Eq, Structural)]
pub struct DefaultAgentChannels {
    pub io_agent: Channel,
    pub fs_agent: Channel,
    pub new_agent: Channel,
    pub registry_agent: Channel,
    pub agent_agent: Channel,
    pub spawn_agent: Channel,
}

/// The names under which the built-in channels are bound, with the
/// channels: `Io`, `Fs` and `Registry` for the agents of those names,
/// and the keywords `agent`, `spawn` and `new`.
pub open spec fn spec_default_bindings(d: DefaultAgentChannels) -> Seq<(Seq<char>, Channel)> {
    seq![
        ("Io"@, d.io_agent),
        ("Fs"@, d.fs_agent),
        ("Registry"@, d.registry_agent),
        ("agent"@, d.agent_agent),
        ("spawn"@, d.spawn_agent),
        ("new"@, d.new_agent),
    ]
}

impl DefaultAgentChannels {
    /// The names and channels to bind (see [`spec_default_bindings`]).
    pub fn get_channels(&self) -> (r: Vec<(String, Channel)>)
        ensures
            r@.len() == 6,
            forall|i: int| 0 <= i < 6 ==> (#[trigger] r@[i]).0@ == spec_default_bindings(*self)[i].0
                && r@[i].1 == spec_default_bindings(*self)[i].1,
    {
        let mut out: Vec<(String, Channel)> = Vec::new();
        out.push((text_of("Io"), self.io_agent));
        out.push((text_of("Fs"), self.fs_agent));
        out.push((text_of("Registry"), self.registry_agent));
        out.push((text_of("agent"), self.agent_agent));
        out.push((text_of("spawn"), self.spawn_agent));
        out.push((text_of("new"), self.new_agent));
        out
    }
}

} // verus!
