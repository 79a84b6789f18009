//! What an agent does by default.
//!
//! [`PlainAgent`] leaves to the defaults of [`Agent`] all that can be left to them, and
//! [`TaggedAgent`] all but its tags, so what holds of them is what the defaults give.
use vstd::prelude::*;

use crate::agent::{Agent, AgentContext};
use crate::function;
use crate::function::FunctionDefinition;
use crate::json::Json;
use crate::laws;
use crate::resource;
use crate::resource::Resource;

verus! {

/// A context for agents that have nothing to wait for: a run returns the prompt.
pub struct PlainContext {}

impl AgentContext for PlainContext {
    type Init = ();

    type Run = String;

    fn ready() -> (done: ()) {
    }
}

/// An agent with a name and a description that leaves the rest to the defaults.
pub struct PlainAgent {
    /// What it is called.
    pub name: String,
    /// What it does.
    pub description: String,
}

impl Agent<PlainContext> for PlainAgent {
    fn name(&self) -> (name: String)
        ensures
            name@ == self.name@,
    {
        self.name.clone()
    }

    fn description(&self) -> (description: String)
        ensures
            description@ == self.description@,
    {
        self.description.clone()
    }

    fn run(&self, _ctx: PlainContext, prompt: String, _resources: Vec<Resource>) -> (output: String)
        ensures
            output == prompt,
    {
        prompt
    }
}

/// By default the definition of an agent bears the whole of its description, and its name with
/// the capitals, codes 65 to 90, in lower case; it asks for strict calls, and its schema is that
/// of an agent's arguments.
pub proof fn law_definition_by_default(agent: PlainAgent, definition: FunctionDefinition)
    requires
        call_ensures(<PlainAgent as Agent<PlainContext>>::definition, (&agent,), definition),
    ensures
        definition.description@ == agent.description@,
        definition.name@.len() == agent.name@.len(),
        forall|i: int|
            0 <= i < agent.name@.len() ==> (#[trigger] definition.name@[i]) as int == if 65
                <= agent.name@[i] as int <= 90 {
                agent.name@[i] as int + 32
            } else {
                agent.name@[i] as int
            },
        definition.strict == Some(true),
        forall|schema: Json| #[trigger]
            call_ensures(function::build_agent_parameters, (), schema) ==> definition.parameters@
                == schema@,
{
}

/// By default an agent supports no tags and requires no tools, so that no resource is selected
/// for it and all of them stay.
pub proof fn law_nothing_is_asked_for_by_default(
    agent: PlainAgent,
    tags: Vec<String>,
    tools: Vec<String>,
    resources: &mut Vec<Resource>,
    selected: Vec<Resource>,
)
    requires
        call_ensures(<PlainAgent as Agent<PlainContext>>::supported_resource_tags, (&agent,), tags),
        call_ensures(<PlainAgent as Agent<PlainContext>>::tool_dependencies, (&agent,), tools),
        call_ensures(
            <PlainAgent as Agent<PlainContext>>::select_resources,
            (&agent, resources),
            selected,
        ),
    ensures
        tags@.len() == 0,
        tools@.len() == 0,
        selected@ == Seq::<Resource>::empty(),
        final(resources)@ == old(resources)@,
{
    resource::law_no_tags_select_nothing(old(resources)@);
    assert(resource::texts(Seq::<String>::empty()) =~= Seq::<Seq<char>>::empty());
}

/// An agent that supports given tags and leaves the rest to the defaults.
pub struct TaggedAgent {
    /// What it is called.
    pub name: String,
    /// The tags that it supports.
    pub tags: Vec<String>,
}

impl Agent<PlainContext> for TaggedAgent {
    fn name(&self) -> (name: String)
        ensures
            name@ == self.name@,
    {
        self.name.clone()
    }

    fn description(&self) -> (description: String)
        ensures
            description@ == self.name@,
    {
        self.name.clone()
    }

    fn supported_resource_tags(&self) -> (tags: Vec<String>)
        ensures
            resource::texts(tags@) == resource::texts(self.tags@),
    {
        let mut tags: Vec<String> = Vec::new();
        for i in 0..self.tags.len()
            invariant
                tags@.len() == i,
                forall|j: int| 0 <= j < i ==> (#[trigger] tags@[j])@ == self.tags@[j]@,
        {
            tags.push(self.tags[i].clone());
        }
        assert(resource::texts(tags@) =~= resource::texts(self.tags@));
        tags
    }

    fn run(&self, _ctx: PlainContext, prompt: String, _resources: Vec<Resource>) -> (output: String)
        ensures
            output == prompt,
    {
        prompt
    }
}

/// By default the resources that bear one of an agent's tags are selected for it, or all where
/// `*` is one of them, and the others stay; both keep their order.
pub proof fn law_selection_by_default(
    agent: TaggedAgent,
    resources: &mut Vec<Resource>,
    selected: Vec<Resource>,
)
    requires
        call_ensures(
            <TaggedAgent as Agent<PlainContext>>::select_resources,
            (&agent, resources),
            selected,
        ),
    ensures
        selected@ == old(resources)@.filter(
            |r: Resource|
                exists|t: int|
                    0 <= t < agent.tags@.len() && ((#[trigger] agent.tags@[t])@ == "*"@ || exists|
                        i: int,
                    |
                        0 <= i < r.tags@.len() && (#[trigger] r.tags@[i])@ == agent.tags@[t]@),
        ),
        final(resources)@ == old(resources)@.filter(
            |r: Resource|
                !exists|t: int|
                    0 <= t < agent.tags@.len() && ((#[trigger] agent.tags@[t])@ == "*"@ || exists|
                        i: int,
                    |
                        0 <= i < r.tags@.len() && (#[trigger] r.tags@[i])@ == agent.tags@[t]@),
        ),
{
    laws::law_selection_by_equal_tags(old(resources)@, agent.tags@);
}

} // verus!
