//! Name-based registry for agents.
use std::sync::Arc;
use vstd::prelude::*;

use crate::agent;
use crate::agent::{Agent, AgentContext, AgentRef, DynAgent};
use crate::error::AgentError;
use crate::function::{Function, FunctionDefinition};
use crate::names;
use crate::order;
use crate::order::Side;
use crate::resource;
use crate::resource::Resource;

verus! {

/// What is registered under a name, in whatever case the name is written.
pub open spec fn lookup_any_case<C: AgentContext>(
    agents: Map<Seq<char>, AgentRef<C>>,
    name: Seq<char>,
) -> Option<AgentRef<C>> {
    lookup_exact(agents, names::ascii_lower(name))
}

/// What is registered under a name as it is written.
pub open spec fn lookup_exact<C: AgentContext>(
    agents: Map<Seq<char>, AgentRef<C>>,
    name: Seq<char>,
) -> Option<AgentRef<C>> {
    if agents.contains_key(name) {
        Some(agents[name])
    } else {
        None
    }
}

/// Whether `after` and `outcome` are what comes of registering `agent` by `name`, under
/// `label`, among the agents `before`.
///
/// The name is registered in lower case. Where it is taken, or breaks a rule, nothing changes.
/// Where no label is given, the registered name is the label.
pub open spec fn registers<T: Agent<C> + 'static, C: AgentContext>(
    before: Map<Seq<char>, AgentRef<C>>,
    name: Seq<char>,
    agent: Arc<T>,
    label: Option<String>,
    after: Map<Seq<char>, AgentRef<C>>,
    outcome: Result<(), AgentError>,
) -> bool {
    let key = names::ascii_lower(name);
    if before.contains_key(key) {
        &&& outcome matches Err(AgentError::AlreadyExists(taken)) && taken@ == key
        &&& after == before
    } else if !names::is_valid_name(key) {
        &&& outcome matches Err(AgentError::InvalidName(error)) && names::breaks_rule(key, error)
        &&& after == before
    } else {
        &&& outcome is Ok
        &&& after == before.insert(key, after[key])
        &&& agent::dispatches_to(after[key], agent)
        &&& after[key].label_text() == match label {
            Some(text) => text@,
            None => key,
        }
    }
}

/// Whether `definition` is what the agent that was looked up reports, if one was found.
pub open spec fn defines<C: AgentContext>(
    found: Option<AgentRef<C>>,
    definition: Option<FunctionDefinition>,
) -> bool {
    match found {
        Some(agent) => definition is Some && agent.may_define(definition->0),
        None => definition is None,
    }
}

/// Whether `definitions` are what `agents` report, one by one.
pub open spec fn defines_all<C: AgentContext>(
    agents: Seq<AgentRef<C>>,
    definitions: Seq<FunctionDefinition>,
) -> bool {
    &&& definitions.len() == agents.len()
    &&& forall|i: int|
        0 <= i < definitions.len() ==> agents[i].may_define(#[trigger] definitions[i])
}

/// Whether `functions` are the definitions and the tags that `agents` report, one by one.
pub open spec fn describes_all<C: AgentContext>(
    agents: Seq<AgentRef<C>>,
    functions: Seq<Function>,
) -> bool {
    &&& functions.len() == agents.len()
    &&& forall|i: int|
        0 <= i < functions.len() ==> {
            &&& agents[i].may_define((#[trigger] functions[i]).definition)
            &&& agents[i].may_support(functions[i].supported_resource_tags)
        }
}

/// Whether `selected` and `rest` come of routing `offered` resources to the agent that was
/// looked up: by the tags that it reports, and where none was found, or nothing was offered,
/// nothing is selected.
pub open spec fn selects<C: AgentContext>(
    found: Option<AgentRef<C>>,
    offered: Seq<Resource>,
    selected: Seq<Resource>,
    rest: Seq<Resource>,
) -> bool {
    match found {
        Some(agent) if offered.len() > 0 => exists|tags: Vec<String>|
            #[trigger] agent.may_support(tags) && selected == resource::supported(
                offered,
                resource::texts(tags@),
            ) && rest == resource::unsupported(offered, resource::texts(tags@)),
        _ => selected.len() == 0 && rest == offered,
    }
}

/// An agent under the name that it is registered by.
#[verifier::reject_recursive_types(C)]
struct Entry<C: AgentContext> {
    name: String,
    agent: AgentRef<C>,
}

/// Name-based registry for agents.
///
/// Its view maps each registered name to the agent behind it.
#[verifier::reject_recursive_types(C)]
pub struct AgentSet<C: AgentContext> {
    entries: Vec<Entry<C>>,
}

impl<C: AgentContext> AgentSet<C> {
    /// The registered names, in the order in which they are listed.
    pub closed spec fn keys(&self) -> Seq<Seq<char>> {
        self.entries@.map_values(|entry: Entry<C>| entry.name@)
    }

    /// The agents by their names.
    pub closed spec fn view(&self) -> Map<Seq<char>, AgentRef<C>> {
        Map::new(
            |key: Seq<char>| self.keys().contains(key),
            |key: Seq<char>| self.entries@[self.keys().index_of(key)].agent,
        )
    }

    /// The names are listed once each, in ascending order, and each keeps the rules of a name.
    pub open spec fn well_formed(&self) -> bool {
        &&& order::ascending(self.keys())
        &&& self.keys().to_set() == self@.dom()
        &&& forall|i: int|
            0 <= i < self.keys().len() ==> names::is_valid_name(#[trigger] self.keys()[i])
    }

    /// The agents that a request for `names` is about: those that are registered, in the order
    /// in which they are requested, or where no names are given all of them, in the order of
    /// their names.
    pub open spec fn requested(&self, requested: Option<&[String]>) -> Seq<AgentRef<C>> {
        match requested {
            None => self.keys().map_values(|key: Seq<char>| self@[key]),
            Some(strings) => resource::texts(strings@).filter_map(
                |name: Seq<char>| lookup_any_case(self@, name),
            ),
        }
    }

    #[verifier::type_invariant]
    spec fn inv(&self) -> bool {
        &&& order::ascending(self.keys())
        &&& forall|i: int|
            0 <= i < self.keys().len() ==> names::is_valid_name(#[trigger] self.keys()[i])
    }

    /// Finds the place of `key`, or else the place where it would have to stand.
    fn find(&self, key: &str) -> (place: Result<usize, usize>)
        ensures
            match place {
                Ok(at) => at < self.keys().len() && self.keys()[at as int] == key@,
                Err(at) => {
                    &&& at <= self.keys().len()
                    &&& forall|i: int| 0 <= i < at ==> order::precedes(self.keys()[i], key@)
                    &&& forall|i: int|
                        at <= i < self.keys().len() ==> order::precedes(key@, self.keys()[i])
                },
            },
    {
        proof {
            use_type_invariant(self);
        }
        let ghost keys = self.keys();
        let mut low: usize = 0;
        let mut high: usize = self.entries.len();
        while low < high
            invariant
                keys == self.keys(),
                keys.len() == self.entries@.len(),
                order::ascending(keys),
                low <= high <= keys.len(),
                forall|i: int| 0 <= i < low ==> order::precedes(#[trigger] keys[i], key@),
                forall|i: int|
                    high <= i < keys.len() ==> order::precedes(key@, #[trigger] keys[i]),
            decreases high - low,
        {
            let middle: usize = low + (high - low) / 2;
            assert(keys[middle as int] == self.entries@[middle as int].name@);
            match order::side_of(self.entries[middle].name.as_str(), key) {
                Side::Same => {
                    return Ok(middle);
                },
                Side::Before => {
                    proof {
                        assert forall|i: int| 0 <= i < middle + 1 implies order::precedes(
                            #[trigger] keys[i],
                            key@,
                        ) by {
                            if i < middle {
                                order::law_order_transitive(keys[i], keys[middle as int], key@);
                            }
                        }
                    }
                    low = middle + 1;
                },
                Side::After => {
                    proof {
                        assert forall|i: int| middle <= i < keys.len() implies order::precedes(
                            key@,
                            #[trigger] keys[i],
                        ) by {
                            if i > middle {
                                order::law_order_transitive(key@, keys[middle as int], keys[i]);
                            }
                        }
                    }
                    high = middle;
                },
            }
        }
        Err(low)
    }

    /// Each entry is what the view shows under its name.
    proof fn lemma_entry_in_view(&self, at: int)
        requires
            order::ascending(self.keys()),
            0 <= at < self.keys().len(),
        ensures
            self@.contains_key(self.keys()[at]),
            self@[self.keys()[at]] == self.entries@[at].agent,
    {
        order::law_ascending_distinct(self.keys());
        let key = self.keys()[at];
        assert(self.keys().contains(key));
    }

    /// A key with a place between two entries is not registered.
    proof fn lemma_gap_not_in_view(&self, key: Seq<char>, at: int)
        requires
            forall|i: int| 0 <= i < at ==> order::precedes(self.keys()[i], key),
            forall|i: int| at <= i < self.keys().len() ==> order::precedes(key, self.keys()[i]),
        ensures
            !self@.contains_key(key),
    {
        if self.keys().contains(key) {
            let i: int = choose|i: int| 0 <= i < self.keys().len() && self.keys()[i] == key;
            order::law_order_irreflexive(key);
        }
    }

    /// Returns the agent that is registered by exactly this name.
    fn lookup(&self, key: &str) -> (found: Option<&AgentRef<C>>)
        ensures
            match found {
                Some(agent) => self@.contains_key(key@) && *agent == self@[key@],
                None => !self@.contains_key(key@),
            },
    {
        proof {
            use_type_invariant(self);
        }
        match self.find(key) {
            Ok(at) => {
                proof {
                    self.lemma_entry_in_view(at as int);
                }
                Some(&self.entries[at].agent)
            },
            Err(at) => {
                proof {
                    self.lemma_gap_not_in_view(key@, at as int);
                }
                None
            },
        }
    }

    proof fn lemma_well_formed(&self)
        requires
            self.inv(),
        ensures
            self.well_formed(),
    {
        assert(self.keys().to_set() =~= self@.dom());
    }

    /// Creates a new empty set.
    pub fn new() -> (set: Self)
        ensures
            set.well_formed(),
            set@ == Map::<Seq<char>, AgentRef<C>>::empty(),
    {
        let set = AgentSet { entries: Vec::new() };
        assert(set.keys() =~= Seq::empty());
        assert(set@ =~= Map::empty());
        proof {
            set.lemma_well_formed();
        }
        set
    }

    /// Registers an agent by the given name.
    pub fn register<T: Agent<C> + 'static>(
        &mut self,
        name: String,
        agent: Arc<T>,
        label: Option<String>,
    ) -> (outcome: Result<(), AgentError>)
        ensures
            final(self).well_formed(),
            registers(old(self)@, name@, agent, label, final(self)@, outcome),
    {
        let key = name.as_str().to_ascii_lowercase();
        proof {
            use_type_invariant(&*self);
            self.lemma_well_formed();
        }
        let at: usize = match self.find(key.as_str()) {
            Ok(at) => {
                proof {
                    self.lemma_entry_in_view(at as int);
                }
                return Err(AgentError::AlreadyExists(key));
            },
            Err(at) => {
                proof {
                    self.lemma_gap_not_in_view(key@, at as int);
                }
                at
            },
        };
        match names::validate_function_name(key.as_str()) {
            Ok(()) => {},
            Err(error) => {
                return Err(AgentError::InvalidName(error));
            },
        }
        let label: String = match label {
            Some(text) => text,
            None => key.clone(),
        };
        let handle = agent::share_agent(agent, label);
        let ghost before = *self;
        let mut entries: Vec<Entry<C>> = Vec::new();
        std::mem::swap(&mut entries, &mut self.entries);
        entries.insert(at, Entry { name: key, agent: handle });
        proof {
            let after = AgentSet { entries };
            lemma_insert(before, after, at as int, key@, handle);
            after.lemma_well_formed();
        }
        self.entries = entries;
        Ok(())
    }

    /// Registers a new agent by its own name.
    pub fn add<T: Agent<C> + 'static>(&mut self, agent: Arc<T>, label: Option<String>) -> (outcome:
        Result<(), AgentError>)
        ensures
            final(self).well_formed(),
            exists|name: String|
                #[trigger] call_ensures(<T as Agent<C>>::name, (&*agent,), name) && registers(
                    old(self)@,
                    name@,
                    agent,
                    label,
                    final(self)@,
                    outcome,
                ),
    {
        let name = agent.name();
        self.register(name, agent, label)
    }

    /// Returns whether an agent with the given name exists.
    pub fn contains(&self, name: &str) -> (found: bool)
        ensures
            found == lookup_any_case(self@, name@) is Some,
    {
        self.lookup(name.to_ascii_lowercase().as_str()).is_some()
    }

    /// Returns whether an agent with the given lowercase name exists.
    pub fn contains_lowercase(&self, lowercase_name: &str) -> (found: bool)
        ensures
            found == lookup_exact(self@, lowercase_name@) is Some,
    {
        self.lookup(lowercase_name).is_some()
    }

    /// Returns the names of all agents in the set.
    pub fn names(&self) -> (listed: Vec<String>)
        ensures
            self.well_formed(),
            resource::texts(listed@) == self.keys(),
    {
        proof {
            use_type_invariant(self);
            self.lemma_well_formed();
        }
        let mut listed: Vec<String> = Vec::new();
        for i in 0..self.entries.len()
            invariant
                listed@.len() == i,
                forall|j: int| 0 <= j < i ==> (#[trigger] listed@[j])@ == self.keys()[j],
        {
            listed.push(self.entries[i].name.clone());
        }
        assert(resource::texts(listed@) =~= self.keys());
        listed
    }

    /// Returns the agents that a request for `names` is about.
    fn resolve(&self, names: Option<&[String]>) -> (agents: Vec<AgentRef<C>>)
        ensures
            self.well_formed(),
            agents@ == self.requested(names),
    {
        proof {
            use_type_invariant(self);
            self.lemma_well_formed();
        }
        let mut agents: Vec<AgentRef<C>> = Vec::new();
        match names {
            None => {
                for i in 0..self.entries.len()
                    invariant
                        order::ascending(self.keys()),
                        agents@.len() == i,
                        forall|j: int|
                            0 <= j < i ==> #[trigger] agents@[j] == self@[self.keys()[j]],
                {
                    proof {
                        self.lemma_entry_in_view(i as int);
                    }
                    agents.push(self.entries[i].agent.clone());
                }
                assert(agents@ =~= self.requested(names));
            },
            Some(strings) => {
                let ghost texts = resource::texts(strings@);
                let ghost pick = |name: Seq<char>| lookup_any_case(self@, name);
                for i in 0..strings.len()
                    invariant
                        texts == resource::texts(strings@),
                        pick == (|name: Seq<char>| lookup_any_case(self@, name)),
                        agents@ == texts.take(i as int).filter_map(pick),
                {
                    proof {
                        texts.lemma_filter_map_take_succ(pick, i as int);
                    }
                    match self.lookup(strings[i].as_str().to_ascii_lowercase().as_str()) {
                        Some(agent) => {
                            agents.push(agent.clone());
                        },
                        None => {},
                    }
                }
                assert(texts.take(strings@.len() as int) =~= texts);
            },
        }
        agents
    }

    /// Returns the function definition for a specific agent.
    pub fn definition(&self, name: &str) -> (definition: Option<FunctionDefinition>)
        ensures
            defines(lookup_any_case(self@, name@), definition),
    {
        match self.lookup(name.to_ascii_lowercase().as_str()) {
            Some(agent) => Some(agent.definition()),
            None => None,
        }
    }

    /// Returns function definitions for all agents or the selected names.
    pub fn definitions(&self, names: Option<&[String]>) -> (definitions: Vec<FunctionDefinition>)
        ensures
            self.well_formed(),
            defines_all(self.requested(names), definitions@),
    {
        let agents = self.resolve(names);
        let mut definitions: Vec<FunctionDefinition> = Vec::new();
        for i in 0..agents.len()
            invariant
                definitions@.len() == i,
                forall|j: int| 0 <= j < i ==> agents@[j].may_define(#[trigger] definitions@[j]),
        {
            definitions.push(agents[i].definition());
        }
        definitions
    }

    /// Returns function metadata for all agents or the selected names.
    pub fn functions(&self, names: Option<&[String]>) -> (functions: Vec<Function>)
        ensures
            self.well_formed(),
            describes_all(self.requested(names), functions@),
    {
        let agents = self.resolve(names);
        let mut functions: Vec<Function> = Vec::new();
        for i in 0..agents.len()
            invariant
                functions@.len() == i,
                forall|j: int|
                    0 <= j < i ==> {
                        &&& agents@[j].may_define((#[trigger] functions@[j]).definition)
                        &&& agents@[j].may_support(functions@[j].supported_resource_tags)
                    },
        {
            let definition = agents[i].definition();
            let supported_resource_tags = agents[i].supported_resource_tags();
            functions.push(Function { definition, supported_resource_tags });
        }
        functions
    }

    /// Removes and returns resources supported by the named agent.
    pub fn select_resources(&self, name: &str, resources: &mut Vec<Resource>) -> (selected: Vec<
        Resource,
    >)
        ensures
            selects(
                lookup_any_case(self@, name@),
                old(resources)@,
                selected@,
                final(resources)@,
            ),
    {
        if resources.is_empty() {
            return Vec::new();
        }
        match self.lookup(name.to_ascii_lowercase().as_str()) {
            Some(agent) => {
                let tags = agent.supported_resource_tags();
                assert(lookup_any_case(self@, name@)->0.may_support(tags));
                resource::select_resources(resources, tags.as_slice())
            },
            None => Vec::new(),
        }
    }

    /// Returns an agent by name.
    pub fn get(&self, name: &str) -> (found: Option<AgentRef<C>>)
        ensures
            found == lookup_any_case(self@, name@),
    {
        match self.lookup(name.to_ascii_lowercase().as_str()) {
            Some(agent) => Some(agent.clone()),
            None => None,
        }
    }

    /// Returns an agent by lowercase name.
    pub fn get_lowercase(&self, lowercase_name: &str) -> (found: Option<AgentRef<C>>)
        ensures
            found == lookup_exact(self@, lowercase_name@),
    {
        match self.lookup(lowercase_name) {
            Some(agent) => Some(agent.clone()),
            None => None,
        }
    }
}

impl<C: AgentContext> Default for AgentSet<C> {
    fn default() -> (set: Self)
        ensures
            set.well_formed(),
            set@ == Map::<Seq<char>, AgentRef<C>>::empty(),
    {
        AgentSet::new()
    }
}

/// To put an entry at its place is to insert it into the view.
proof fn lemma_insert<C: AgentContext>(
    before: AgentSet<C>,
    after: AgentSet<C>,
    at: int,
    key: Seq<char>,
    agent: AgentRef<C>,
)
    requires
        before.inv(),
        names::is_valid_name(key),
        0 <= at <= before.keys().len(),
        forall|i: int| 0 <= i < at ==> order::precedes(before.keys()[i], key),
        forall|i: int| at <= i < before.keys().len() ==> order::precedes(key, before.keys()[i]),
        exists|entry: Entry<C>|
            entry.name@ == key && entry.agent == agent && after.entries@
                == #[trigger] before.entries@.insert(at, entry),
    ensures
        after.inv(),
        after@ == before@.insert(key, agent),
{
    let keys = before.keys();
    assert(after.keys() =~= keys.insert(at, key));
    assert forall|i: int, j: int|
        #![trigger after.keys()[i], after.keys()[j]]
        0 <= i < j < after.keys().len() implies order::precedes(
        after.keys()[i],
        after.keys()[j],
    ) by {
        let a: int = if i < at { i } else { i - 1 };
        let b: int = if j < at { j } else { j - 1 };
        if i != at && j != at {
            assert(order::precedes(keys[a], keys[b]));
        }
    }
    assert forall|i: int| 0 <= i < after.keys().len() implies names::is_valid_name(
        #[trigger] after.keys()[i],
    ) by {
        if i != at {
            let a: int = if i < at { i } else { i - 1 };
            assert(names::is_valid_name(keys[a]));
        }
    }
    assert forall|k: Seq<char>| after@.contains_key(k) <==> before@.insert(key, agent).contains_key(
        k,
    ) by {
        if before@.contains_key(k) {
            let i: int = choose|i: int| 0 <= i < keys.len() && keys[i] == k;
            assert(after.keys()[if i < at { i } else { i + 1 }] == k);
        }
        assert(after.keys()[at] == key);
        if after@.contains_key(k) && k != key {
            let i: int = choose|i: int| 0 <= i < after.keys().len() && after.keys()[i] == k;
            assert(keys[if i < at { i } else { i - 1 }] == k);
        }
    }
    assert forall|k: Seq<char>| after@.contains_key(k) implies after@[k] == before@.insert(
        key,
        agent,
    )[k] by {
        let i: int = choose|i: int| 0 <= i < after.keys().len() && after.keys()[i] == k;
        after.lemma_entry_in_view(i);
        if i != at {
            let a: int = if i < at { i } else { i - 1 };
            before.lemma_entry_in_view(a);
            assert(keys[a] == k);
            if k == key {
                order::law_order_irreflexive(k);
            }
        }
    }
    assert(after@ =~= before@.insert(key, agent));
}

} // verus!
