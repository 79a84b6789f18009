//! Agent traits.
//!
//! [`Agent`] is what an agent implements. [`DynAgent`] is what a registry keeps: the same
//! agent behind a trait object, so that callers can run agents without knowing their types.
use std::any::TypeId;
use std::marker::PhantomData;
use std::sync::Arc;
use vstd::prelude::*;

use crate::erased;
use crate::erased::AnyAgent;
use crate::function;
use crate::function::FunctionDefinition;
use crate::resource;
use crate::resource::Resource;

verus! {

/// The runtime context that agents are handed, with the types that its runtime returns.
pub trait AgentContext: Sized + Send + Sync + 'static {
    /// What an initialization returns, such as a future of its outcome.
    type Init;

    /// What a run returns, such as a future of its output.
    type Run;

    /// What an initialization with nothing to do returns.
    fn ready() -> Self::Init;
}

/// Strongly typed interface for an AI agent.
pub trait Agent<C: AgentContext>: Send + Sync {
    /// Returns the unique agent name.
    ///
    /// Names are registered case-insensitively and stored in lowercase. In lowercase a name
    ///
    /// - must not be empty;
    /// - must not exceed 64 characters;
    /// - must start with a lowercase letter;
    /// - can only contain lowercase letters (a-z), digits (0-9) and underscores (_);
    /// - must be unique within the registry.
    fn name(&self) -> (name: String);

    /// Returns a concise description of the agent's capability.
    fn description(&self) -> (description: String);

    /// Returns the function definition used for tool-call integration.
    fn definition(&self) -> (definition: FunctionDefinition)
        default_ensures
            exists|name: String, description: String|
                call_ensures(Self::name, (self,), name) && call_ensures(
                    Self::description,
                    (self,),
                    description,
                ) && definition@ == #[trigger] function::agent_definition(name@, description@),
    {
        let name = self.name();
        let description = self.description();
        function::define_agent(name, description)
    }

    /// Returns the resource tags that this agent can consume: by default none, so that no
    /// resources are selected for it. The tag `*` accepts all attached resources.
    fn supported_resource_tags(&self) -> (tags: Vec<String>)
        default_ensures
            tags@ == Seq::<String>::empty(),
    {
        Vec::new()
    }

    /// Removes and returns the resources that match this agent's supported tags.
    fn select_resources(&self, resources: &mut Vec<Resource>) -> (selected: Vec<Resource>)
        default_ensures
            exists|tags: Vec<String>|
                #[trigger] call_ensures(Self::supported_resource_tags, (self,), tags)
                    && selected@ == resource::supported(
                    old(resources)@,
                    resource::texts(tags@),
                ) && final(resources)@ == resource::unsupported(
                    old(resources)@,
                    resource::texts(tags@),
                ),
    {
        let tags = self.supported_resource_tags();
        resource::select_resources(resources, tags.as_slice())
    }

    /// Initializes the agent with the given context: by default there is nothing to do.
    fn init(&self, _ctx: C) -> (done: C::Init)
        default_ensures
            call_ensures(C::ready, (), done),
    {
        C::ready()
    }

    /// Returns the names of the tools that this agent requires: by default none.
    fn tool_dependencies(&self) -> (tools: Vec<String>)
        default_ensures
            tools@ == Seq::<String>::empty(),
    {
        Vec::new()
    }

    /// Executes the agent on a prompt, with the resources that were selected for it.
    fn run(&self, ctx: C, prompt: String, resources: Vec<Resource>) -> (output: C::Run);
}

/// Object-safe counterpart of [`Agent`] for runtime dispatch.
///
/// Each `may_` function tells which answers the agent behind the method of that kind can give.
pub trait DynAgent<C: AgentContext>: Send + Sync {
    /// The agent, with its type hidden.
    spec fn any(&self) -> AnyAgent;

    /// The label that the agent was registered under.
    spec fn label_text(&self) -> Seq<char>;

    /// Whether the agent can report this name.
    spec fn may_name(&self, name: String) -> bool;

    /// Whether the agent can report this definition.
    spec fn may_define(&self, definition: FunctionDefinition) -> bool;

    /// Whether the agent can report that it requires these tools.
    spec fn may_depend(&self, tools: Vec<String>) -> bool;

    /// Whether the agent can report that it supports these tags.
    spec fn may_support(&self, tags: Vec<String>) -> bool;

    /// Whether an initialization with this context can return `done`.
    spec fn may_init(&self, ctx: C, done: C::Init) -> bool;

    /// Whether a run on these inputs can return `output`.
    spec fn may_run(
        &self,
        ctx: C,
        prompt: String,
        resources: Vec<Resource>,
        output: C::Run,
    ) -> bool;

    /// Returns a reference to the agent with its type hidden.
    fn as_any(&self) -> (any: &AnyAgent)
        ensures
            *any == self.any(),
    ;

    /// Returns the agent with its type hidden.
    fn into_any(&self) -> (any: AnyAgent)
        ensures
            any == self.any(),
    ;

    /// Returns the label.
    fn label(&self) -> (label: &str)
        ensures
            label@ == self.label_text(),
    ;

    /// Returns the agent's name.
    fn name(&self) -> (name: String)
        ensures
            self.may_name(name),
    ;

    /// Returns the agent's function definition.
    fn definition(&self) -> (definition: FunctionDefinition)
        ensures
            self.may_define(definition),
    ;

    /// Returns the names of the tools that the agent requires.
    fn tool_dependencies(&self) -> (tools: Vec<String>)
        ensures
            self.may_depend(tools),
    ;

    /// Returns the resource tags that the agent can consume.
    fn supported_resource_tags(&self) -> (tags: Vec<String>)
        ensures
            self.may_support(tags),
    ;

    /// Initializes the agent.
    fn init(&self, ctx: C) -> (done: C::Init)
        ensures
            self.may_init(ctx, done),
    ;

    /// Executes the agent.
    fn run(&self, ctx: C, prompt: String, resources: Vec<Resource>) -> (output: C::Run)
        ensures
            self.may_run(ctx, prompt, resources, output),
    ;
}

/// A shared agent behind a trait object.
pub type AgentRef<C> = Arc<Box<dyn DynAgent<C>>>;

/// Whether `found` comes of asking for a hidden agent as a `T`, by reference: the agent, if it
/// is a hidden `Arc<T>`, and nothing if its type has another identifier than `T`.
pub open spec fn is_found_ref<T: Send + Sync + 'static>(any: AnyAgent, found: Option<&T>) -> bool {
    &&& forall|agent: Arc<T>| #[trigger] erased::hides(any, agent) ==> found == Some(&*agent)
    &&& found matches Some(inner) ==> exists|agent: Arc<T>|
        #[trigger] erased::hides(any, agent) && *agent == *inner
    &&& forall|own: TypeId, asked: TypeId| #[trigger]
        erased::has_id(any, own) && #[trigger] erased::is_id_of::<T>(asked) ==> (found is Some
            <==> own == asked)
}

/// Whether `found` comes of asking for the agent behind `handle` as a `T`: the agent, if it is
/// a hidden `Arc<T>`, and `handle` itself if its type has another identifier than `T`.
pub open spec fn is_found<T: Agent<C> + 'static, C: AgentContext>(
    handle: AgentRef<C>,
    found: Result<Arc<T>, AgentRef<C>>,
) -> bool {
    &&& forall|agent: Arc<T>| #[trigger]
        erased::hides(handle.any(), agent) ==> found == Ok::<Arc<T>, AgentRef<C>>(agent)
    &&& match found {
        Ok(agent) => erased::hides(handle.any(), agent),
        Err(same) => same == handle,
    }
    &&& forall|own: TypeId, asked: TypeId| #[trigger]
        erased::has_id(handle.any(), own) && #[trigger] erased::is_id_of::<T>(asked) ==> (found
            is Ok <==> own == asked)
}

impl<C: AgentContext> dyn DynAgent<C> {
    /// Returns the inner concrete agent when it matches `T`.
    pub fn downcast_ref<T: Agent<C> + 'static>(&self) -> (found: Option<&T>)
        ensures
            is_found_ref(self.any(), found),
    {
        erased::recover_ref::<T>(self.as_any())
    }

    /// Returns the inner concrete agent when it matches `T`, and the agent itself when it
    /// does not.
    pub fn downcast<T: Agent<C> + 'static>(self: Arc<Box<Self>>) -> (found: Result<
        Arc<T>,
        Arc<Box<Self>>,
    >)
        ensures
            is_found(self, found),
    {
        match erased::recover::<T>(self.into_any()) {
            Some(agent) => Ok(agent),
            None => Err(self),
        }
    }
}

/// Adapter that exposes a concrete [`Agent`] through [`DynAgent`].
struct AgentWrapper<T, C: AgentContext> {
    inner: Arc<T>,
    any: AnyAgent,
    label: String,
    _phantom: PhantomData<C>,
}

impl<T: Agent<C> + 'static, C: AgentContext> DynAgent<C> for AgentWrapper<T, C> {
    closed spec fn any(&self) -> AnyAgent {
        self.any
    }

    closed spec fn label_text(&self) -> Seq<char> {
        self.label@
    }

    closed spec fn may_name(&self, name: String) -> bool {
        call_ensures(<T as Agent<C>>::name, (&*self.inner,), name)
    }

    closed spec fn may_define(&self, definition: FunctionDefinition) -> bool {
        call_ensures(<T as Agent<C>>::definition, (&*self.inner,), definition)
    }

    closed spec fn may_depend(&self, tools: Vec<String>) -> bool {
        call_ensures(<T as Agent<C>>::tool_dependencies, (&*self.inner,), tools)
    }

    closed spec fn may_support(&self, tags: Vec<String>) -> bool {
        call_ensures(<T as Agent<C>>::supported_resource_tags, (&*self.inner,), tags)
    }

    closed spec fn may_init(&self, ctx: C, done: C::Init) -> bool {
        call_ensures(<T as Agent<C>>::init, (&*self.inner, ctx), done)
    }

    closed spec fn may_run(
        &self,
        ctx: C,
        prompt: String,
        resources: Vec<Resource>,
        output: C::Run,
    ) -> bool {
        call_ensures(<T as Agent<C>>::run, (&*self.inner, ctx, prompt, resources), output)
    }

    fn as_any(&self) -> (any: &AnyAgent) {
        &self.any
    }

    fn into_any(&self) -> (any: AnyAgent) {
        erased::share(&self.any)
    }

    fn label(&self) -> (label: &str) {
        self.label.as_str()
    }

    fn name(&self) -> (name: String) {
        self.inner.name()
    }

    fn definition(&self) -> (definition: FunctionDefinition) {
        self.inner.definition()
    }

    fn tool_dependencies(&self) -> (tools: Vec<String>) {
        self.inner.tool_dependencies()
    }

    fn supported_resource_tags(&self) -> (tags: Vec<String>) {
        self.inner.supported_resource_tags()
    }

    fn init(&self, ctx: C) -> (done: C::Init) {
        self.inner.init(ctx)
    }

    fn run(&self, ctx: C, prompt: String, resources: Vec<Resource>) -> (output: C::Run) {
        self.inner.run(ctx, prompt, resources)
    }
}

/// Whether `handle` passes every request on to `agent` and gives back its answers.
pub open spec fn dispatches_to<T: Agent<C> + 'static, C: AgentContext>(
    handle: AgentRef<C>,
    agent: Arc<T>,
) -> bool {
    &&& erased::hides(handle.any(), agent)
    &&& forall|id: TypeId| #[trigger]
        erased::is_id_of::<T>(id) ==> erased::has_id(handle.any(), id)
    &&& forall|name: String| #[trigger]
        handle.may_name(name) == call_ensures(<T as Agent<C>>::name, (&*agent,), name)
    &&& forall|definition: FunctionDefinition| #[trigger]
        handle.may_define(definition) == call_ensures(
            <T as Agent<C>>::definition,
            (&*agent,),
            definition,
        )
    &&& forall|tools: Vec<String>| #[trigger]
        handle.may_depend(tools) == call_ensures(
            <T as Agent<C>>::tool_dependencies,
            (&*agent,),
            tools,
        )
    &&& forall|tags: Vec<String>| #[trigger]
        handle.may_support(tags) == call_ensures(
            <T as Agent<C>>::supported_resource_tags,
            (&*agent,),
            tags,
        )
    &&& forall|ctx: C, done: C::Init| #[trigger]
        handle.may_init(ctx, done) == call_ensures(<T as Agent<C>>::init, (&*agent, ctx), done)
    &&& forall|ctx: C, prompt: String, resources: Vec<Resource>, output: C::Run| #[trigger]
        handle.may_run(ctx, prompt, resources, output) == call_ensures(
            <T as Agent<C>>::run,
            (&*agent, ctx, prompt, resources),
            output,
        )
}

/// Puts an agent behind a trait object, under a label.
pub(crate) fn share_agent<T: Agent<C> + 'static, C: AgentContext>(
    agent: Arc<T>,
    label: String,
) -> (handle: AgentRef<C>)
    ensures
        dispatches_to(handle, agent),
        handle.label_text() == label@,
{
    let any = erased::conceal(agent.clone());
    let wrapper = AgentWrapper::<T, C> { inner: agent, any, label, _phantom: PhantomData };
    let boxed: Box<dyn DynAgent<C>> = Box::new(wrapper);
    let handle = Arc::new(boxed);
    handle
}

} // verus!
