//! What holds of the registry as a whole.
use std::any::TypeId;
use std::sync::Arc;
use vstd::prelude::*;

use crate::agent;
use crate::agent::{Agent, AgentContext, AgentRef, DynAgent};
use crate::erased;
use crate::error::AgentError;
use crate::function;
use crate::function::{Function, FunctionDefinition};
use crate::json;
use crate::json::{Json, JsonView, Member};
use crate::names;
use crate::names::NameError;
use crate::order;
use crate::registry;
use crate::registry::AgentSet;
use crate::resource;
use crate::resource::Resource;

verus! {

/// To fold a name's case twice is to fold it once.
pub proof fn law_lower_idempotent(name: Seq<char>)
    ensures
        names::ascii_lower(names::ascii_lower(name)) == names::ascii_lower(name),
{
    assert(names::ascii_lower(names::ascii_lower(name)) =~= names::ascii_lower(name));
}

/// A name that keeps the rules is in lower case already.
pub proof fn law_valid_name_is_lowercase(name: Seq<char>)
    requires
        names::is_valid_name(name),
    ensures
        names::ascii_lower(name) == name,
{
    assert(names::ascii_lower(name) =~= name);
}

/// A name that keeps the rules is ASCII text.
pub proof fn law_valid_name_is_ascii(name: Seq<char>)
    requires
        names::is_valid_name(name),
    ensures
        vstd::utf8::is_ascii_chars(name),
{
}

/// A name either keeps the rules or has a reason to be rejected, and then only one.
pub proof fn law_one_reason_to_reject(name: Seq<char>)
    ensures
        names::is_valid_name(name) <==> !(exists|error: NameError|
            names::breaks_rule(name, error)),
        forall|a: NameError, b: NameError|
            names::breaks_rule(name, a) && names::breaks_rule(name, b) ==> a == b,
{
    if !names::is_valid_name(name) {
        if name.len() == 0 {
            assert(names::breaks_rule(name, NameError::Empty));
        } else if name.len() > names::MAX_NAME_LEN {
            assert(names::breaks_rule(name, NameError::TooLong));
        } else if !names::is_lower_letter(name[0]) {
            assert(names::breaks_rule(name, NameError::BadStart));
        } else {
            let bad: int = choose|i: int| 0 <= i < name.len() && !names::is_name_char(name[i]);
            let first: char = lemma_first_bad(name, bad);
            assert(names::breaks_rule(name, NameError::BadCharacter(first)));
        }
    }
    assert forall|a: NameError, b: NameError|
        names::breaks_rule(name, a) && names::breaks_rule(name, b) implies a == b by {
        if let (NameError::BadCharacter(c), NameError::BadCharacter(d)) = (a, b) {
            let i: int = choose|i: int|
                #![trigger name[i]]
                0 <= i < name.len() && name[i] == c && !names::is_name_char(c) && forall|j: int|
                    0 <= j < i ==> names::is_name_char(#[trigger] name[j]);
            let k: int = choose|k: int|
                #![trigger name[k]]
                0 <= k < name.len() && name[k] == d && !names::is_name_char(d) && forall|j: int|
                    0 <= j < k ==> names::is_name_char(#[trigger] name[j]);
            if i < k {
                assert(names::is_name_char(name[i]));
            } else if k < i {
                assert(names::is_name_char(name[k]));
            }
        }
    }
}

proof fn lemma_first_bad(name: Seq<char>, bad: int) -> (first: char)
    requires
        0 <= bad < name.len(),
        !names::is_name_char(name[bad]),
    ensures
        names::is_first_bad_char(name, first),
    decreases bad,
{
    if exists|j: int| 0 <= j < bad && !names::is_name_char(#[trigger] name[j]) {
        let j: int = choose|j: int| 0 <= j < bad && !names::is_name_char(#[trigger] name[j]);
        lemma_first_bad(name, j)
    } else {
        name[bad]
    }
}

/// Names that differ only in the case of ASCII letters find the same agent.
pub proof fn law_lookup_ignores_case<C: AgentContext>(
    agents: Map<Seq<char>, AgentRef<C>>,
    a: Seq<char>,
    b: Seq<char>,
)
    requires
        names::ascii_lower(a) == names::ascii_lower(b),
    ensures
        registry::lookup_any_case(agents, a) == registry::lookup_any_case(agents, b),
{
}

/// To look a name up in any case is to look up its lowercase form as it is written.
pub proof fn law_lookup_by_lowercase<C: AgentContext>(
    agents: Map<Seq<char>, AgentRef<C>>,
    name: Seq<char>,
)
    ensures
        registry::lookup_any_case(agents, name) == registry::lookup_exact(
            agents,
            names::ascii_lower(name),
        ),
        registry::lookup_any_case(agents, names::ascii_lower(name)) == registry::lookup_any_case(
            agents,
            name,
        ),
{
    law_lower_idempotent(name);
}

/// What is found under a name as it is written has a name that keeps the rules and is in lower
/// case, and is found under it in any case.
pub proof fn law_registered_name_is_valid<C: AgentContext>(set: AgentSet<C>, name: Seq<char>)
    requires
        set.well_formed(),
        registry::lookup_exact(set@, name) is Some,
    ensures
        names::is_valid_name(name),
        names::ascii_lower(name) == name,
        registry::lookup_any_case(set@, name) == registry::lookup_exact(set@, name),
{
    assert(set.keys().to_set().contains(name));
    let i: int = choose|i: int| 0 <= i < set.keys().len() && set.keys()[i] == name;
    assert(names::is_valid_name(set.keys()[i]));
    law_valid_name_is_lowercase(name);
}

/// The listed names are exactly those under which an agent is found.
pub proof fn law_listed_names_are_registered<C: AgentContext>(set: AgentSet<C>, name: Seq<char>)
    requires
        set.well_formed(),
    ensures
        set.keys().contains(name) <==> registry::lookup_exact(set@, name) is Some,
{
    assert(set.keys().to_set().contains(name) <==> set.keys().contains(name));
}

/// Two sets with the same names list them in the same order, and where the agents are the same
/// too, so they list the agents.
pub proof fn law_listing_depends_on_agents_only<C: AgentContext>(a: AgentSet<C>, b: AgentSet<C>)
    requires
        a.well_formed(),
        b.well_formed(),
        a@.dom() == b@.dom(),
    ensures
        a.keys() == b.keys(),
        a@ == b@ ==> a.requested(None) == b.requested(None),
{
    order::law_ascending_unique(a.keys(), b.keys());
    if a@ == b@ {
        assert(a.requested(None) =~= b.requested(None));
    }
}

/// Whether two handles give the same answers and bear the same label.
pub open spec fn answer_alike<C: AgentContext>(a: AgentRef<C>, b: AgentRef<C>) -> bool {
    &&& a.label_text() == b.label_text()
    &&& forall|name: String| #[trigger] a.may_name(name) == b.may_name(name)
    &&& forall|definition: FunctionDefinition| #[trigger]
        a.may_define(definition) == b.may_define(definition)
    &&& forall|tools: Vec<String>| #[trigger] a.may_depend(tools) == b.may_depend(tools)
    &&& forall|tags: Vec<String>| #[trigger] a.may_support(tags) == b.may_support(tags)
}

/// The order in which two agents are added does not show: where one order is accepted the other
/// is too, and both sets list the same names, with agents that give the same definitions and
/// support the same tags.
pub proof fn law_order_of_addition_does_not_show<
    T: Agent<C> + 'static,
    U: Agent<C> + 'static,
    C: AgentContext,
>(
    before: Map<Seq<char>, AgentRef<C>>,
    a_name: Seq<char>,
    a: Arc<T>,
    a_label: Option<String>,
    b_name: Seq<char>,
    b: Arc<U>,
    b_label: Option<String>,
    after_a: Map<Seq<char>, AgentRef<C>>,
    a_then_b: AgentSet<C>,
    after_b: Map<Seq<char>, AgentRef<C>>,
    b_then_a: AgentSet<C>,
    outcomes: (Result<(), AgentError>, Result<(), AgentError>),
    other_outcomes: (Result<(), AgentError>, Result<(), AgentError>),
)
    requires
        a_then_b.well_formed(),
        b_then_a.well_formed(),
        registry::registers(before, a_name, a, a_label, after_a, outcomes.0),
        registry::registers(after_a, b_name, b, b_label, a_then_b@, outcomes.1),
        registry::registers(before, b_name, b, b_label, after_b, other_outcomes.0),
        registry::registers(after_b, a_name, a, a_label, b_then_a@, other_outcomes.1),
        outcomes.0 is Ok,
        outcomes.1 is Ok,
    ensures
        other_outcomes.0 is Ok,
        other_outcomes.1 is Ok,
        a_then_b.keys() == b_then_a.keys(),
        a_then_b.requested(None).len() == b_then_a.requested(None).len(),
        forall|i: int|
            0 <= i < a_then_b.requested(None).len() ==> answer_alike(
                #[trigger] a_then_b.requested(None)[i],
                b_then_a.requested(None)[i],
            ),
{
    let a_key = names::ascii_lower(a_name);
    let b_key = names::ascii_lower(b_name);
    assert(a_key != b_key);
    assert(a_then_b@.dom() =~= b_then_a@.dom());
    law_listing_depends_on_agents_only(a_then_b, b_then_a);
    let keys = a_then_b.keys();
    assert forall|i: int| 0 <= i < keys.len() implies answer_alike(
        #[trigger] a_then_b.requested(None)[i],
        b_then_a.requested(None)[i],
    ) by {
        let key = keys[i];
        law_listed_names_are_registered(a_then_b, key);
        assert(a_then_b.requested(None)[i] == a_then_b@[key]);
        assert(b_then_a.requested(None)[i] == b_then_a@[key]);
        if key == a_key {
            assert(agent::dispatches_to(a_then_b@[key], a));
            assert(agent::dispatches_to(b_then_a@[key], a));
        } else if key == b_key {
            assert(agent::dispatches_to(a_then_b@[key], b));
            assert(agent::dispatches_to(b_then_a@[key], b));
        }
    }
}

/// An agent is accepted exactly where its name, in lower case, is free and keeps the rules;
/// where it is refused, nothing changes.
pub proof fn law_registration_succeeds_iff_name_is_free_and_valid<
    T: Agent<C> + 'static,
    C: AgentContext,
>(
    before: Map<Seq<char>, AgentRef<C>>,
    name: Seq<char>,
    agent: Arc<T>,
    label: Option<String>,
    after: Map<Seq<char>, AgentRef<C>>,
    outcome: Result<(), AgentError>,
)
    requires
        registry::registers(before, name, agent, label, after, outcome),
    ensures
        outcome is Ok <==> registry::lookup_any_case(before, name) is None && names::is_valid_name(
            names::ascii_lower(name),
        ),
        outcome is Err ==> after == before,
{
}

/// An accepted agent is found under its name in any case, answers for itself and bears its
/// label; what is found under every other name stays the same.
pub proof fn law_registered_agent_is_found<T: Agent<C> + 'static, C: AgentContext>(
    before: Map<Seq<char>, AgentRef<C>>,
    name: Seq<char>,
    agent: Arc<T>,
    label: Option<String>,
    after: Map<Seq<char>, AgentRef<C>>,
    outcome: Result<(), AgentError>,
    asked: Seq<char>,
)
    requires
        registry::registers(before, name, agent, label, after, outcome),
        outcome is Ok,
    ensures
        names::ascii_lower(asked) == names::ascii_lower(name) ==> {
            &&& registry::lookup_any_case(after, asked) matches Some(found)
            &&& agent::dispatches_to(found, agent)
            &&& found.label_text() == match label {
                Some(text) => text@,
                None => names::ascii_lower(name),
            }
        },
        names::ascii_lower(asked) != names::ascii_lower(name) ==> registry::lookup_any_case(
            after,
            asked,
        ) == registry::lookup_any_case(before, asked),
{
}

/// A name is given once: a second agent whose name differs at most in case is refused, and the
/// first stays.
pub proof fn law_name_is_given_once<T: Agent<C> + 'static, U: Agent<C> + 'static, C: AgentContext>(
    before: Map<Seq<char>, AgentRef<C>>,
    name: Seq<char>,
    agent: Arc<T>,
    label: Option<String>,
    after: Map<Seq<char>, AgentRef<C>>,
    outcome: Result<(), AgentError>,
    second_name: Seq<char>,
    second: Arc<U>,
    second_label: Option<String>,
    finally: Map<Seq<char>, AgentRef<C>>,
    second_outcome: Result<(), AgentError>,
)
    requires
        registry::registers(before, name, agent, label, after, outcome),
        outcome is Ok,
        names::ascii_lower(second_name) == names::ascii_lower(name),
        registry::registers(
            after,
            second_name,
            second,
            second_label,
            finally,
            second_outcome,
        ),
    ensures
        second_outcome matches Err(AgentError::AlreadyExists(taken)) && taken@
            == names::ascii_lower(name),
        finally == after,
{
}

/// What the registry reports of an accepted agent is what the agent itself reports: its
/// definition and its tags.
pub proof fn law_registry_reports_what_agent_reports<T: Agent<C> + 'static, C: AgentContext>(
    before: Map<Seq<char>, AgentRef<C>>,
    name: Seq<char>,
    agent: Arc<T>,
    label: Option<String>,
    after: Map<Seq<char>, AgentRef<C>>,
    outcome: Result<(), AgentError>,
    asked: Seq<char>,
    definition: FunctionDefinition,
    tags: Vec<String>,
)
    requires
        registry::registers(before, name, agent, label, after, outcome),
        outcome is Ok,
        names::ascii_lower(asked) == names::ascii_lower(name),
    ensures
        registry::lookup_any_case(after, asked) is Some,
        registry::lookup_any_case(after, asked)->0.may_define(definition) <==> call_ensures(
            <T as Agent<C>>::definition,
            (&*agent,),
            definition,
        ),
        registry::lookup_any_case(after, asked)->0.may_support(tags) <==> call_ensures(
            <T as Agent<C>>::supported_resource_tags,
            (&*agent,),
            tags,
        ),
{
}

/// The definition that an agent has by default bears the name that the agent is registered by.
pub proof fn law_default_definition_bears_registered_name<T: Agent<C> + 'static, C: AgentContext>(
    before: Map<Seq<char>, AgentRef<C>>,
    name: Seq<char>,
    agent: Arc<T>,
    label: Option<String>,
    after: Map<Seq<char>, AgentRef<C>>,
    outcome: Result<(), AgentError>,
    description: Seq<char>,
)
    requires
        registry::registers(before, name, agent, label, after, outcome),
        outcome is Ok,
    ensures
        after.dom() == before.dom().insert(function::agent_definition(name, description).name),
        names::is_valid_name(function::agent_definition(name, description).name),
{
    assert(after.dom() =~= before.dom().insert(names::ascii_lower(name)));
}

/// To request all the listed names is to request all agents.
pub proof fn law_all_names_request_all_agents<C: AgentContext>(
    set: AgentSet<C>,
    listed: &[String],
)
    requires
        set.well_formed(),
        resource::texts(listed@) == set.keys(),
    ensures
        set.requested(Some(listed)) == set.requested(None),
{
    let pick = |name: Seq<char>| registry::lookup_any_case(set@, name);
    assert forall|i: int| 0 <= i < set.keys().len() implies pick(#[trigger] set.keys()[i]) == Some(
        set@[set.keys()[i]],
    ) by {
        law_listed_names_are_registered(set, set.keys()[i]);
        law_registered_name_is_valid(set, set.keys()[i]);
    }
    lemma_filter_map_all(set.keys(), pick, |key: Seq<char>| set@[key]);
}

proof fn lemma_filter_map_all<A, B>(s: Seq<A>, pick: spec_fn(A) -> Option<B>, to: spec_fn(A) -> B)
    requires
        forall|i: int| 0 <= i < s.len() ==> pick(#[trigger] s[i]) == Some(to(s[i])),
    ensures
        s.filter_map(pick) == s.map_values(to),
    decreases s.len(),
{
    if s.len() > 0 {
        let last: int = s.len() - 1;
        lemma_filter_map_all(s.take(last), pick, to);
        s.lemma_filter_map_take_succ(pick, last);
        assert(s.take(last + 1) =~= s);
        assert(s.map_values(to) =~= s.take(last).map_values(to).push(to(s[last])));
    } else {
        assert(s.filter_map(pick) =~= s.map_values(to));
    }
}

/// Names that are not registered are passed over: to request without them is the same.
pub proof fn law_unknown_names_are_passed_over<C: AgentContext>(
    set: AgentSet<C>,
    names: &[String],
    known: &[String],
)
    requires
        resource::texts(known@) == resource::texts(names@).filter(
            |name: Seq<char>| registry::lookup_any_case(set@, name) is Some,
        ),
    ensures
        set.requested(Some(names)) == set.requested(Some(known)),
{
    lemma_filter_before_filter_map(
        resource::texts(names@),
        |name: Seq<char>| registry::lookup_any_case(set@, name),
        |name: Seq<char>| registry::lookup_any_case(set@, name) is Some,
    );
}

proof fn lemma_filter_before_filter_map<A, B>(
    s: Seq<A>,
    pick: spec_fn(A) -> Option<B>,
    picked: spec_fn(A) -> bool,
)
    requires
        forall|a: A| #[trigger] picked(a) == pick(a) is Some,
    ensures
        s.filter(picked).filter_map(pick) == s.filter_map(pick),
    decreases s.len(),
{
    if s.len() > 0 {
        let last: int = s.len() - 1;
        let front = s.take(last);
        lemma_filter_before_filter_map(front, pick, picked);
        s.lemma_filter_map_take_succ(pick, last);
        assert(s.take(last + 1) =~= s);
        assert(s =~= front.push(s[last]));
        front.lemma_filter_push(s[last], picked);
        if picked(s[last]) {
            let kept = s.filter(picked);
            let n: int = front.filter(picked).len() as int;
            kept.lemma_filter_map_take_succ(pick, n);
            assert(kept.take(n + 1) =~= kept);
            assert(kept.take(n) =~= front.filter(picked));
        }
    } else {
        assert(s.filter(picked) =~= s);
    }
}

/// An agent that was put behind a trait object is found again by its type, by reference and by
/// itself.
pub proof fn law_downcast_finds_agent<T: Agent<C> + 'static, C: AgentContext>(
    handle: AgentRef<C>,
    agent: Arc<T>,
    by_reference: Option<&T>,
    by_itself: Result<Arc<T>, AgentRef<C>>,
)
    requires
        agent::dispatches_to(handle, agent),
        agent::is_found_ref(handle.any(), by_reference),
        agent::is_found(handle, by_itself),
    ensures
        by_reference == Some(&*agent),
        by_itself == Ok::<Arc<T>, AgentRef<C>>(agent),
{
}

/// An agent is found by itself exactly where it is found by reference, and then both find the
/// same agent; where it is not found it is handed back as it was.
pub proof fn law_downcasts_agree<T: Agent<C> + 'static, C: AgentContext>(
    handle: AgentRef<C>,
    by_reference: Option<&T>,
    by_itself: Result<Arc<T>, AgentRef<C>>,
)
    requires
        agent::is_found_ref(handle.any(), by_reference),
        agent::is_found(handle, by_itself),
    ensures
        by_itself is Ok <==> by_reference is Some,
        by_itself matches Ok(agent) ==> by_reference == Some(&*agent),
        by_itself matches Err(same) ==> same == handle,
{
}

/// An accepted agent that is looked up by its name, in any case, and asked for by its type is
/// the agent that was registered.
pub proof fn law_registered_agent_is_recovered<T: Agent<C> + 'static, C: AgentContext>(
    before: Map<Seq<char>, AgentRef<C>>,
    name: Seq<char>,
    agent: Arc<T>,
    label: Option<String>,
    after: Map<Seq<char>, AgentRef<C>>,
    outcome: Result<(), AgentError>,
    asked: Seq<char>,
    by_reference: Option<&T>,
    by_itself: Result<Arc<T>, AgentRef<C>>,
)
    requires
        registry::registers(before, name, agent, label, after, outcome),
        outcome is Ok,
        names::ascii_lower(asked) == names::ascii_lower(name),
        registry::lookup_any_case(after, asked) matches Some(handle) && agent::is_found_ref(
            handle.any(),
            by_reference,
        ) && agent::is_found(handle, by_itself),
    ensures
        by_reference == Some(&*agent),
        by_itself == Ok::<Arc<T>, AgentRef<C>>(agent),
{
}

/// An agent of type `T` that is asked for as a `U` is found exactly where the two types are the
/// same, which their identifiers tell. As every other type it is not found, by reference or by
/// itself, and it is handed back as it was.
pub proof fn law_downcast_succeeds_iff_types_are_same<
    T: Agent<C> + 'static,
    U: Agent<C> + 'static,
    C: AgentContext,
>(
    handle: AgentRef<C>,
    agent: Arc<T>,
    own: TypeId,
    asked: TypeId,
    by_reference: Option<&U>,
    by_itself: Result<Arc<U>, AgentRef<C>>,
)
    requires
        agent::dispatches_to(handle, agent),
        erased::is_id_of::<T>(own),
        erased::is_id_of::<U>(asked),
        agent::is_found_ref(handle.any(), by_reference),
        agent::is_found(handle, by_itself),
    ensures
        by_reference is Some <==> own == asked,
        by_itself is Ok <==> own == asked,
        own != asked ==> by_itself == Err::<Arc<U>, AgentRef<C>>(handle),
{
    assert(erased::has_id(handle.any(), own));
}

/// An accepted agent that is looked up by its name, in any case, and asked for as another type
/// is not found, and what is handed back still bears its label and reports its name.
pub proof fn law_registered_agent_is_refused_as_other_type<
    T: Agent<C> + 'static,
    U: Agent<C> + 'static,
    C: AgentContext,
>(
    before: Map<Seq<char>, AgentRef<C>>,
    name: Seq<char>,
    agent: Arc<T>,
    label: Option<String>,
    after: Map<Seq<char>, AgentRef<C>>,
    outcome: Result<(), AgentError>,
    asked: Seq<char>,
    own_type: TypeId,
    other_type: TypeId,
    by_reference: Option<&U>,
    by_itself: Result<Arc<U>, AgentRef<C>>,
)
    requires
        registry::registers(before, name, agent, label, after, outcome),
        outcome is Ok,
        names::ascii_lower(asked) == names::ascii_lower(name),
        registry::lookup_any_case(after, asked) matches Some(handle) && agent::is_found_ref(
            handle.any(),
            by_reference,
        ) && agent::is_found(handle, by_itself),
        erased::is_id_of::<T>(own_type),
        erased::is_id_of::<U>(other_type),
        own_type != other_type,
    ensures
        by_reference is None,
        by_itself matches Err(same) && Some(same) == registry::lookup_any_case(after, asked)
            && same.label_text() == match label {
            Some(text) => text@,
            None => names::ascii_lower(name),
        } && agent::dispatches_to(same, agent),
{
    let handle = registry::lookup_any_case(after, asked)->0;
    law_downcast_succeeds_iff_types_are_same::<T, U, C>(
        handle,
        agent,
        own_type,
        other_type,
        by_reference,
        by_itself,
    );
}

/// To ask whether a hidden type is `T` tells what both downcasts will do.
pub proof fn law_type_test_predicts_downcasts<T: Agent<C> + 'static, C: AgentContext>(
    handle: AgentRef<C>,
    answer: bool,
    by_reference: Option<&T>,
    by_itself: Result<Arc<T>, AgentRef<C>>,
)
    requires
        erased::tells_type::<T>(handle.any(), answer),
        agent::is_found_ref(handle.any(), by_reference),
        agent::is_found(handle, by_itself),
    ensures
        by_reference is Some <==> answer,
        by_itself is Ok <==> answer,
{
}

/// Whether each agent is registered by a name of its own, in lower case.
pub open spec fn keyed_by_own_names<C: AgentContext>(agents: Map<Seq<char>, AgentRef<C>>) -> bool {
    forall|key: Seq<char>| #[trigger]
        agents.contains_key(key) ==> exists|name: String| #[trigger]
            agents[key].may_name(name) && names::ascii_lower(name@) == key
}

/// In a set that was made empty and filled by adding agents, each agent is registered by a name
/// of its own, in lower case: it holds of no agents, and of every set that an addition makes of
/// one where it holds.
pub proof fn law_added_agents_are_keyed_by_own_names<T: Agent<C> + 'static, C: AgentContext>(
    before: Map<Seq<char>, AgentRef<C>>,
    agent: Arc<T>,
    label: Option<String>,
    after: Map<Seq<char>, AgentRef<C>>,
    outcome: Result<(), AgentError>,
)
    requires
        keyed_by_own_names(before),
        exists|name: String|
            #[trigger] call_ensures(<T as Agent<C>>::name, (&*agent,), name)
                && registry::registers(before, name@, agent, label, after, outcome),
    ensures
        keyed_by_own_names(Map::<Seq<char>, AgentRef<C>>::empty()),
        keyed_by_own_names(after),
{
    let name: String = choose|name: String|
        #[trigger] call_ensures(<T as Agent<C>>::name, (&*agent,), name) && registry::registers(
            before,
            name@,
            agent,
            label,
            after,
            outcome,
        );
    let own = names::ascii_lower(name@);
    assert forall|key: Seq<char>| #[trigger] after.contains_key(key) implies exists|n: String|
        #[trigger] after[key].may_name(n) && names::ascii_lower(n@) == key by {
        if outcome is Ok && key == own {
            assert(after[key].may_name(name));
        } else {
            assert(before.contains_key(key));
            let n: String = choose|n: String|
                #[trigger] before[key].may_name(n) && names::ascii_lower(n@) == key;
            assert(after[key].may_name(n));
        }
    }
}

/// Case folding touches each character for itself: the capitals `A` to `Z`, codes 65 to 90, move
/// up by 32, and every other character stays.
pub proof fn law_lower_moves_capitals_only(name: Seq<char>)
    ensures
        names::ascii_lower(name).len() == name.len(),
        forall|i: int|
            0 <= i < name.len() ==> (#[trigger] names::ascii_lower(name)[i]) as int == if 65
                <= name[i] as int <= 90 {
                name[i] as int + 32
            } else {
                name[i] as int
            },
{
}

/// A text is a name exactly if it has 1 to 64 characters, of which the first is one of `a` to
/// `z` (codes 97 to 122) and each is one of those, of `0` to `9` (codes 48 to 57), or `_`
/// (code 95).
pub proof fn law_valid_names_by_code(name: Seq<char>)
    ensures
        names::is_valid_name(name) <==> {
            &&& 1 <= name.len() <= 64
            &&& 97 <= name[0] as int <= 122
            &&& forall|i: int|
                0 <= i < name.len() ==> {
                    ||| 97 <= (#[trigger] name[i]) as int <= 122
                    ||| 48 <= name[i] as int <= 57
                    ||| name[i] as int == 95
                }
        },
{
    if names::is_valid_name(name) {
        assert forall|i: int| 0 <= i < name.len() implies {
            ||| 97 <= (#[trigger] name[i]) as int <= 122
            ||| 48 <= name[i] as int <= 57
            ||| name[i] as int == 95
        } by {
            assert(names::is_name_char(name[i]));
        }
    }
}

/// Each reason to reject a name, by length and by character code: no characters; more than 64;
/// else a first character outside `a` to `z`; else the first character outside `a` to `z`, `0`
/// to `9` and `_`.
pub proof fn law_rejections_by_code(name: Seq<char>, c: char)
    ensures
        names::breaks_rule(name, NameError::Empty) <==> name.len() == 0,
        names::breaks_rule(name, NameError::TooLong) <==> name.len() > 64,
        names::breaks_rule(name, NameError::BadStart) <==> 1 <= name.len() <= 64 && !(97
            <= name[0] as int <= 122),
        names::breaks_rule(name, NameError::BadCharacter(c)) <==> {
            &&& 1 <= name.len() <= 64
            &&& 97 <= name[0] as int <= 122
            &&& !(97 <= c as int <= 122 || 48 <= c as int <= 57 || c as int == 95)
            &&& exists|i: int|
                0 <= i < name.len() && #[trigger] name[i] == c && forall|j: int|
                    0 <= j < i ==> {
                        ||| 97 <= (#[trigger] name[j]) as int <= 122
                        ||| 48 <= name[j] as int <= 57
                        ||| name[j] as int == 95
                    }
        },
{
    let ours = names::breaks_rule(name, NameError::BadCharacter(c));
    if ours {
        let i: int = choose|i: int|
            #![trigger name[i]]
            0 <= i < name.len() && name[i] == c && !names::is_name_char(c) && forall|j: int|
                0 <= j < i ==> names::is_name_char(#[trigger] name[j]);
        assert forall|j: int| 0 <= j < i implies {
            ||| 97 <= (#[trigger] name[j]) as int <= 122
            ||| 48 <= name[j] as int <= 57
            ||| name[j] as int == 95
        } by {
            assert(names::is_name_char(name[j]));
        }
    }
    if exists|i: int|
        0 <= i < name.len() && #[trigger] name[i] == c && forall|j: int|
            0 <= j < i ==> {
                ||| 97 <= (#[trigger] name[j]) as int <= 122
                ||| 48 <= name[j] as int <= 57
                ||| name[j] as int == 95
            } {
        let i: int = choose|i: int|
            0 <= i < name.len() && #[trigger] name[i] == c && forall|j: int|
                0 <= j < i ==> {
                    ||| 97 <= (#[trigger] name[j]) as int <= 122
                    ||| 48 <= name[j] as int <= 57
                    ||| name[j] as int == 95
                };
        assert forall|j: int| 0 <= j < i implies names::is_name_char(#[trigger] name[j]) by {
            assert(97 <= name[j] as int <= 122 || 48 <= name[j] as int <= 57 || name[j] as int
                == 95);
        }
        if !names::is_name_char(c) {
            assert(names::is_first_bad_char(name, c));
        }
    }
}

/// A lookup by a name as it is written finds what the map holds under it, and nothing else; a
/// lookup in any case does so for the lowercase form.
pub proof fn law_lookup_finds_what_is_held<C: AgentContext>(
    agents: Map<Seq<char>, AgentRef<C>>,
    name: Seq<char>,
)
    ensures
        agents.contains_key(name) ==> registry::lookup_exact(agents, name) == Some(agents[name]),
        !agents.contains_key(name) ==> registry::lookup_exact(agents, name) is None,
        agents.contains_key(names::ascii_lower(name)) ==> registry::lookup_any_case(agents, name)
            == Some(agents[names::ascii_lower(name)]),
        !agents.contains_key(names::ascii_lower(name)) ==> registry::lookup_any_case(
            agents,
            name,
        ) is None,
{
}

/// A refusal says why: where the lowercase name is taken, that name; where it breaks a rule of
/// names, the rule. An acceptance adds one entry and leaves every other as it was.
pub proof fn law_registration_by_cases<T: Agent<C> + 'static, C: AgentContext>(
    before: Map<Seq<char>, AgentRef<C>>,
    name: Seq<char>,
    agent: Arc<T>,
    label: Option<String>,
    after: Map<Seq<char>, AgentRef<C>>,
    outcome: Result<(), AgentError>,
)
    requires
        registry::registers(before, name, agent, label, after, outcome),
    ensures
        before.contains_key(names::ascii_lower(name)) ==> after == before && (outcome matches Err(
            AgentError::AlreadyExists(taken),
        ) && taken@ == names::ascii_lower(name)),
        !before.contains_key(names::ascii_lower(name)) && !names::is_valid_name(
            names::ascii_lower(name),
        ) ==> after == before && (outcome matches Err(AgentError::InvalidName(error))
            && names::breaks_rule(names::ascii_lower(name), error)),
        !before.contains_key(names::ascii_lower(name)) && names::is_valid_name(
            names::ascii_lower(name),
        ) ==> {
            &&& outcome is Ok
            &&& after.dom() == before.dom().insert(names::ascii_lower(name))
            &&& forall|key: Seq<char>| #[trigger]
                before.contains_key(key) ==> after[key] == before[key]
            &&& after[names::ascii_lower(name)].label_text() == match label {
                Some(text) => text@,
                None => names::ascii_lower(name),
            }
        },
{
    if outcome is Ok {
        assert(after.dom() =~= before.dom().insert(names::ascii_lower(name)));
    }
}

/// A handle that was made for an agent gives, to every request, exactly the answers that the
/// agent itself can give to the same request: nothing of it is dropped or changed on the way.
pub proof fn law_handle_passes_requests_on_unchanged<T: Agent<C> + 'static, C: AgentContext>(
    handle: AgentRef<C>,
    agent: Arc<T>,
    own_name: String,
    definition: FunctionDefinition,
    tools: Vec<String>,
    tags: Vec<String>,
    ctx: C,
    done: C::Init,
    prompt: String,
    resources: Vec<Resource>,
    output: C::Run,
)
    requires
        agent::dispatches_to(handle, agent),
    ensures
        handle.may_name(own_name) <==> call_ensures(
            <T as Agent<C>>::name,
            (&*agent,),
            own_name,
        ),
        handle.may_define(definition) <==> call_ensures(
            <T as Agent<C>>::definition,
            (&*agent,),
            definition,
        ),
        handle.may_depend(tools) <==> call_ensures(
            <T as Agent<C>>::tool_dependencies,
            (&*agent,),
            tools,
        ),
        handle.may_support(tags) <==> call_ensures(
            <T as Agent<C>>::supported_resource_tags,
            (&*agent,),
            tags,
        ),
        handle.may_init(ctx, done) <==> call_ensures(
            <T as Agent<C>>::init,
            (&*agent, ctx),
            done,
        ),
        handle.may_run(ctx, prompt, resources, output) <==> call_ensures(
            <T as Agent<C>>::run,
            (&*agent, ctx, prompt, resources),
            output,
        ),
{
}

/// An accepted agent that is looked up by its name, in any case, is run on the context, the
/// prompt and the resources that the caller hands in, and initialized with the caller's context;
/// its name, its definition, its tools and its tags are its own.
pub proof fn law_registered_agent_is_run_on_callers_inputs<T: Agent<C> + 'static, C: AgentContext>(
    before: Map<Seq<char>, AgentRef<C>>,
    name: Seq<char>,
    agent: Arc<T>,
    label: Option<String>,
    after: Map<Seq<char>, AgentRef<C>>,
    outcome: Result<(), AgentError>,
    asked: Seq<char>,
    own_name: String,
    definition: FunctionDefinition,
    tools: Vec<String>,
    tags: Vec<String>,
    ctx: C,
    done: C::Init,
    prompt: String,
    resources: Vec<Resource>,
    output: C::Run,
)
    requires
        registry::registers(before, name, agent, label, after, outcome),
        outcome is Ok,
        names::ascii_lower(asked) == names::ascii_lower(name),
    ensures
        registry::lookup_any_case(after, asked) matches Some(handle) && {
            &&& handle.may_run(ctx, prompt, resources, output) <==> call_ensures(
                <T as Agent<C>>::run,
                (&*agent, ctx, prompt, resources),
                output,
            )
            &&& handle.may_init(ctx, done) <==> call_ensures(
                <T as Agent<C>>::init,
                (&*agent, ctx),
                done,
            )
            &&& handle.may_name(own_name) <==> call_ensures(
                <T as Agent<C>>::name,
                (&*agent,),
                own_name,
            )
            &&& handle.may_define(definition) <==> call_ensures(
                <T as Agent<C>>::definition,
                (&*agent,),
                definition,
            )
            &&& handle.may_depend(tools) <==> call_ensures(
                <T as Agent<C>>::tool_dependencies,
                (&*agent,),
                tools,
            )
            &&& handle.may_support(tags) <==> call_ensures(
                <T as Agent<C>>::supported_resource_tags,
                (&*agent,),
                tags,
            )
        },
{
    law_handle_passes_requests_on_unchanged::<T, C>(
        after[names::ascii_lower(name)],
        agent,
        own_name,
        definition,
        tools,
        tags,
        ctx,
        done,
        prompt,
        resources,
        output,
    );
}

/// The listed names are as many as the registered ones, each is registered, each registered one
/// is listed, and each stands before every later one.
pub proof fn law_names_are_listed_once_in_ascending_order<C: AgentContext>(set: AgentSet<C>)
    requires
        set.well_formed(),
    ensures
        set.keys().len() == set@.dom().len(),
        forall|i: int|
            0 <= i < set.keys().len() ==> set@.contains_key(#[trigger] set.keys()[i]),
        forall|name: Seq<char>| #[trigger]
            set@.contains_key(name) ==> exists|i: int|
                0 <= i < set.keys().len() && #[trigger] set.keys()[i] == name,
        forall|i: int, j: int|
            #![trigger set.keys()[i], set.keys()[j]]
            0 <= i < j < set.keys().len() ==> order::precedes(set.keys()[i], set.keys()[j]),
{
    order::law_ascending_distinct(set.keys());
    set.keys().unique_seq_to_set();
    assert forall|i: int| 0 <= i < set.keys().len() implies set@.contains_key(
        #[trigger] set.keys()[i],
    ) by {
        assert(set.keys().to_set().contains(set.keys()[i]));
    }
    assert forall|name: Seq<char>| #[trigger] set@.contains_key(name) implies exists|i: int|
        0 <= i < set.keys().len() && #[trigger] set.keys()[i] == name by {
        assert(set.keys().to_set().contains(name));
    }
}

/// A request without names is about every registered agent: there are as many as registered
/// names, and each stands in the place of its name.
pub proof fn law_listing_of_agents_is_complete<C: AgentContext>(set: AgentSet<C>)
    requires
        set.well_formed(),
    ensures
        set.requested(None).len() == set@.dom().len(),
        set.requested(None).len() == set.keys().len(),
        forall|i: int|
            0 <= i < set.keys().len() ==> #[trigger] set.requested(None)[i]
                == set@[set.keys()[i]],
        forall|key: Seq<char>| #[trigger]
            set@.contains_key(key) ==> set.requested(None).contains(set@[key]),
{
    law_names_are_listed_once_in_ascending_order(set);
    assert forall|key: Seq<char>| #[trigger] set@.contains_key(key) implies set.requested(
        None,
    ).contains(set@[key]) by {
        let i: int = choose|i: int| 0 <= i < set.keys().len() && #[trigger] set.keys()[i] == key;
        assert(set.requested(None)[i] == set@[key]);
    }
}

/// A request by names is about one agent for each requested name that is registered in
/// lower case, in the order of the request: as many agents as such names, each in the place of
/// its name.
pub proof fn law_request_by_names_is_complete<C: AgentContext>(
    set: AgentSet<C>,
    requested: &[String],
    known: Seq<String>,
)
    requires
        known == requested@.filter(
            |name: String| set@.contains_key(names::ascii_lower(name@)),
        ),
    ensures
        set.requested(Some(requested)).len() == known.len(),
        forall|i: int|
            0 <= i < known.len() ==> #[trigger] set.requested(Some(requested))[i]
                == set@[names::ascii_lower(known[i]@)],
        forall|i: int|
            0 <= i < requested@.len() && set@.contains_key(
                names::ascii_lower((#[trigger] requested@[i])@),
            ) ==> set.requested(Some(requested)).contains(
                set@[names::ascii_lower(requested@[i]@)],
            ),
{
    let is_known = |name: String| set@.contains_key(names::ascii_lower(name@));
    let pick = |name: Seq<char>| registry::lookup_any_case(set@, name);
    lemma_requested_by_filter(requested@, is_known, pick, set@);
    assert forall|i: int|
        0 <= i < requested@.len() && set@.contains_key(
            names::ascii_lower((#[trigger] requested@[i])@),
        ) implies set.requested(Some(requested)).contains(
        set@[names::ascii_lower(requested@[i]@)],
    ) by {
        requested@.lemma_filter_contains(is_known, i);
        assert(known.contains(requested@[i]));
        let j: int = choose|j: int| 0 <= j < known.len() && known[j] == requested@[i];
        assert(set.requested(Some(requested))[j] == set@[names::ascii_lower(known[j]@)]);
    }
}

proof fn lemma_requested_by_filter<C: AgentContext>(
    strings: Seq<String>,
    is_known: spec_fn(String) -> bool,
    pick: spec_fn(Seq<char>) -> Option<AgentRef<C>>,
    agents: Map<Seq<char>, AgentRef<C>>,
)
    requires
        is_known == (|name: String| agents.contains_key(names::ascii_lower(name@))),
        pick == (|name: Seq<char>| registry::lookup_any_case(agents, name)),
    ensures
        resource::texts(strings).filter_map(pick) == strings.filter(is_known).map_values(
            |name: String| agents[names::ascii_lower(name@)],
        ),
    decreases strings.len(),
{
    let to = |name: String| agents[names::ascii_lower(name@)];
    let texts = resource::texts(strings);
    if strings.len() > 0 {
        let last: int = strings.len() - 1;
        let front = strings.take(last);
        lemma_requested_by_filter(front, is_known, pick, agents);
        texts.lemma_filter_map_take_succ(pick, last);
        assert(texts.take(last + 1) =~= texts);
        assert(texts.take(last) =~= resource::texts(front));
        assert(strings =~= front.push(strings[last]));
        front.lemma_filter_push(strings[last], is_known);
        assert(strings.filter(is_known).map_values(to) =~= if is_known(strings[last]) {
            front.filter(is_known).map_values(to).push(to(strings[last]))
        } else {
            front.filter(is_known).map_values(to)
        });
    } else {
        assert(texts.filter_map(pick) =~= strings.filter(is_known).map_values(to));
    }
}

/// The definition that an agent has by default bears the agent's description as it is and its
/// name in lower case, and asks for strict calls; its schema is the same for all agents.
pub proof fn law_default_definition_bears_what_agent_reports(
    name: Seq<char>,
    description: Seq<char>,
    other_name: Seq<char>,
    other_description: Seq<char>,
)
    ensures
        function::agent_definition(name, description).description == description,
        function::agent_definition(name, description).name == names::ascii_lower(name),
        function::agent_definition(name, description).strict == Some(true),
        function::agent_definition(name, description).parameters == function::agent_definition(
            other_name,
            other_description,
        ).parameters,
{
}

/// What a definition says is what its fields hold.
pub proof fn law_definition_says_what_it_holds(definition: FunctionDefinition)
    ensures
        definition@.name == definition.name@,
        definition@.description == definition.description@,
        definition@.parameters == definition.parameters@,
        definition@.strict == definition.strict,
{
}

/// What a document says is what it holds, part by part.
pub proof fn law_document_says_what_it_holds(document: Json)
    ensures
        document is Null ==> document@ == JsonView::Null,
        document matches Json::Bool(b) ==> document@ == JsonView::Bool(b),
        document matches Json::Number(text) ==> document@ == JsonView::Number(text@),
        document matches Json::Text(text) ==> document@ == JsonView::Text(text@),
        document matches Json::Array(items) ==> document@ is Array && document@->Array_0.len()
            == items@.len() && forall|i: int|
            0 <= i < items@.len() ==> #[trigger] document@->Array_0[i] == items@[i]@,
        document matches Json::Object(members) ==> document@ is Object
            && document@->Object_0.len() == members@.len() && forall|i: int|
            0 <= i < members@.len() ==> {
                &&& (#[trigger] document@->Object_0[i]).name == members@[i].name@
                &&& document@->Object_0[i].value == members@[i].value@
            },
{
    reveal_with_fuel(Json::view, 2);
    if let Json::Array(items) = document {
        assert(document@->Array_0 =~= items@.map_values(|item: Json| item@));
    }
    if let Json::Object(members) = document {
        assert(document@->Object_0 =~= members@.map_values(|member: Member| member@));
    }
}

/// The message of a refused name is the whole name between fixed words; a name that breaks a
/// rule has the rule's message, which does not depend on the character at fault.
pub proof fn law_messages(name: String, error: NameError, c: char, d: char)
    ensures
        AgentError::AlreadyExists(name).reason().len() == name@.len() + 21,
        AgentError::AlreadyExists(name).reason().take(6) == "agent "@,
        AgentError::AlreadyExists(name).reason().subrange(6, 6 + name@.len() as int) == name@,
        AgentError::AlreadyExists(name).reason().skip(6 + name@.len() as int)
            == " already exists"@,
        AgentError::InvalidName(error).reason() == error.reason(),
        NameError::BadCharacter(c).reason() == NameError::BadCharacter(d).reason(),
{
    reveal_strlit("agent ");
    reveal_strlit(" already exists");
    let reason = AgentError::AlreadyExists(name).reason();
    assert(reason.take(6) =~= "agent "@);
    assert(reason.subrange(6, 6 + name@.len() as int) =~= name@);
    assert(reason.skip(6 + name@.len() as int) =~= " already exists"@);
}

/// The member of a given name and value has that name and that value.
pub proof fn law_member_says_what_it_is_given(name: Seq<char>, value: JsonView)
    ensures
        json::member(name, value).name == name,
        json::member(name, value).value == value,
{
}

/// The definition that is given for an accepted agent's name, in any case, is one that the agent
/// itself can give; for a name that is not registered none is given.
pub proof fn law_definition_is_given_by_agent<T: Agent<C> + 'static, C: AgentContext>(
    before: Map<Seq<char>, AgentRef<C>>,
    name: Seq<char>,
    agent: Arc<T>,
    label: Option<String>,
    after: Map<Seq<char>, AgentRef<C>>,
    outcome: Result<(), AgentError>,
    asked: Seq<char>,
    given: Option<FunctionDefinition>,
)
    requires
        registry::registers(before, name, agent, label, after, outcome),
        outcome is Ok,
        registry::defines(registry::lookup_any_case(after, asked), given),
    ensures
        names::ascii_lower(asked) == names::ascii_lower(name) ==> (given matches Some(definition)
            && call_ensures(<T as Agent<C>>::definition, (&*agent,), definition)),
        given is Some <==> after.contains_key(names::ascii_lower(asked)),
{
}

/// The definitions and the functions of all agents are as many as the registered names, and each
/// is what the agent in the place of its name can report.
pub proof fn law_all_agents_are_described<C: AgentContext>(
    set: AgentSet<C>,
    definitions: Seq<FunctionDefinition>,
    functions: Seq<Function>,
)
    requires
        set.well_formed(),
        registry::defines_all(set.requested(None), definitions),
        registry::describes_all(set.requested(None), functions),
    ensures
        definitions.len() == set@.dom().len(),
        functions.len() == set@.dom().len(),
        forall|i: int|
            0 <= i < definitions.len() ==> set@[set.keys()[i]].may_define(
                #[trigger] definitions[i],
            ),
        forall|i: int|
            0 <= i < functions.len() ==> {
                &&& set@[set.keys()[i]].may_define((#[trigger] functions[i]).definition)
                &&& set@[set.keys()[i]].may_support(functions[i].supported_resource_tags)
            },
{
    law_listing_of_agents_is_complete(set);
    assert forall|i: int| 0 <= i < definitions.len() implies set@[set.keys()[i]].may_define(
        #[trigger] definitions[i],
    ) by {
        assert(set.requested(None)[i] == set@[set.keys()[i]]);
    }
    assert forall|i: int| 0 <= i < functions.len() implies {
        &&& set@[set.keys()[i]].may_define((#[trigger] functions[i]).definition)
        &&& set@[set.keys()[i]].may_support(functions[i].supported_resource_tags)
    } by {
        assert(set.requested(None)[i] == set@[set.keys()[i]]);
    }
}

/// The definitions and the functions of requested agents are as many as the requested names that
/// are registered in lower case, and each is what the agent of its name can report, in the order
/// of the request.
pub proof fn law_requested_agents_are_described<C: AgentContext>(
    set: AgentSet<C>,
    requested: &[String],
    known: Seq<String>,
    definitions: Seq<FunctionDefinition>,
    functions: Seq<Function>,
)
    requires
        known == requested@.filter(
            |name: String| set@.contains_key(names::ascii_lower(name@)),
        ),
        registry::defines_all(set.requested(Some(requested)), definitions),
        registry::describes_all(set.requested(Some(requested)), functions),
    ensures
        definitions.len() == known.len(),
        functions.len() == known.len(),
        forall|i: int|
            0 <= i < known.len() ==> set@[names::ascii_lower(known[i]@)].may_define(
                #[trigger] definitions[i],
            ),
        forall|i: int|
            0 <= i < known.len() ==> {
                &&& set@[names::ascii_lower(known[i]@)].may_define(
                    (#[trigger] functions[i]).definition,
                )
                &&& set@[names::ascii_lower(known[i]@)].may_support(
                    functions[i].supported_resource_tags,
                )
            },
{
    law_request_by_names_is_complete(set, requested, known);
    assert forall|i: int| 0 <= i < known.len() implies set@[names::ascii_lower(
        known[i]@,
    )].may_define(#[trigger] definitions[i]) by {
        assert(set.requested(Some(requested))[i] == set@[names::ascii_lower(known[i]@)]);
    }
    assert forall|i: int| 0 <= i < known.len() implies {
        &&& set@[names::ascii_lower(known[i]@)].may_define((#[trigger] functions[i]).definition)
        &&& set@[names::ascii_lower(known[i]@)].may_support(functions[i].supported_resource_tags)
    } by {
        assert(set.requested(Some(requested))[i] == set@[names::ascii_lower(known[i]@)]);
    }
}

/// The resources that are selected by tags are those that bear one of them, or all where one
/// of them is `*`; those that stay are the others.
pub proof fn law_selection_by_equal_tags(offered: Seq<Resource>, tags: Seq<String>)
    ensures
        resource::supported(offered, resource::texts(tags)) == offered.filter(
            |r: Resource|
                exists|t: int|
                    0 <= t < tags.len() && ((#[trigger] tags[t])@ == "*"@ || exists|i: int|
                        0 <= i < r.tags@.len() && (#[trigger] r.tags@[i])@ == tags[t]@),
        ),
        resource::unsupported(offered, resource::texts(tags)) == offered.filter(
            |r: Resource|
                !exists|t: int|
                    0 <= t < tags.len() && ((#[trigger] tags[t])@ == "*"@ || exists|i: int|
                        0 <= i < r.tags@.len() && (#[trigger] r.tags@[i])@ == tags[t]@),
        ),
{
    let texts = resource::texts(tags);
    let wanted = |r: Resource|
        exists|t: int|
            0 <= t < tags.len() && ((#[trigger] tags[t])@ == "*"@ || exists|i: int|
                0 <= i < r.tags@.len() && (#[trigger] r.tags@[i])@ == tags[t]@);
    let unwanted = |r: Resource|
        !exists|t: int|
            0 <= t < tags.len() && ((#[trigger] tags[t])@ == "*"@ || exists|i: int|
                0 <= i < r.tags@.len() && (#[trigger] r.tags@[i])@ == tags[t]@);
    assert forall|r: Resource| wanted(r) == resource::supports(texts, r) by {
        if wanted(r) {
            let t: int = choose|t: int|
                0 <= t < tags.len() && ((#[trigger] tags[t])@ == "*"@ || exists|i: int|
                    0 <= i < r.tags@.len() && (#[trigger] r.tags@[i])@ == tags[t]@);
            assert(texts[t] == tags[t]@);
            assert(texts.contains(tags[t]@));
            if tags[t]@ != "*"@ {
                let i: int = choose|i: int|
                    0 <= i < r.tags@.len() && (#[trigger] r.tags@[i])@ == tags[t]@;
                assert(texts.contains(r.tags@[i]@));
            }
        }
        if resource::supports(texts, r) {
            if texts.contains("*"@) {
                let t: int = choose|t: int| 0 <= t < texts.len() && texts[t] == "*"@;
                assert(tags[t]@ == "*"@);
            } else {
                let i: int = choose|i: int|
                    0 <= i < r.tags@.len() && texts.contains(#[trigger] r.tags@[i]@);
                let t: int = choose|t: int| 0 <= t < texts.len() && texts[t] == r.tags@[i]@;
                assert(tags[t]@ == r.tags@[i]@);
            }
        }
    }
    lemma_filter_congruence(offered, wanted, |r: Resource| resource::supports(texts, r));
    lemma_filter_congruence(offered, unwanted, |r: Resource| !resource::supports(texts, r));
}

/// The resources that are selected for an accepted agent, by its name in any case, are those
/// offered that bear a tag which the agent itself reports, or all where it reports `*`; the
/// others stay, and both keep their order.
pub proof fn law_resources_are_selected_by_agents_own_tags<T: Agent<C> + 'static, C: AgentContext>(
    before: Map<Seq<char>, AgentRef<C>>,
    name: Seq<char>,
    agent: Arc<T>,
    label: Option<String>,
    after: Map<Seq<char>, AgentRef<C>>,
    outcome: Result<(), AgentError>,
    asked: Seq<char>,
    offered: Seq<Resource>,
    selected: Seq<Resource>,
    rest: Seq<Resource>,
) -> (tags: Vec<String>)
    requires
        registry::registers(before, name, agent, label, after, outcome),
        outcome is Ok,
        names::ascii_lower(asked) == names::ascii_lower(name),
        registry::selects(registry::lookup_any_case(after, asked), offered, selected, rest),
        offered.len() > 0,
    ensures
        call_ensures(<T as Agent<C>>::supported_resource_tags, (&*agent,), tags),
        selected.to_multiset().add(rest.to_multiset()) == offered.to_multiset(),
        selected == offered.filter(
            |r: Resource|
                exists|t: int|
                    0 <= t < tags@.len() && ((#[trigger] tags@[t])@ == "*"@ || exists|i: int|
                        0 <= i < r.tags@.len() && (#[trigger] r.tags@[i])@ == tags@[t]@),
        ),
        rest == offered.filter(
            |r: Resource|
                !exists|t: int|
                    0 <= t < tags@.len() && ((#[trigger] tags@[t])@ == "*"@ || exists|i: int|
                        0 <= i < r.tags@.len() && (#[trigger] r.tags@[i])@ == tags@[t]@),
        ),
{
    let handle = registry::lookup_any_case(after, asked)->0;
    let tags: Vec<String> = choose|tags: Vec<String>|
        #[trigger] handle.may_support(tags) && selected == resource::supported(
            offered,
            resource::texts(tags@),
        ) && rest == resource::unsupported(offered, resource::texts(tags@));
    resource::law_selection_partitions(offered, resource::texts(tags@));
    law_selection_by_equal_tags(offered, tags@);
    tags
}

proof fn lemma_filter_congruence<A>(s: Seq<A>, p: spec_fn(A) -> bool, q: spec_fn(A) -> bool)
    requires
        forall|a: A| #[trigger] p(a) == q(a),
    ensures
        s.filter(p) == s.filter(q),
    decreases s.len(),
{
    if s.len() > 0 {
        let front = s.drop_last();
        lemma_filter_congruence(front, p, q);
        assert(s =~= front.push(s.last()));
        front.lemma_filter_push(s.last(), p);
        front.lemma_filter_push(s.last(), q);
    } else {
        assert(s.filter(p) =~= s.filter(q));
    }
}

/// For a name that is not registered, and where nothing is offered, nothing is selected and
/// everything stays.
pub proof fn law_nothing_is_selected_without_agent<C: AgentContext>(
    agents: Map<Seq<char>, AgentRef<C>>,
    asked: Seq<char>,
    offered: Seq<Resource>,
    selected: Seq<Resource>,
    rest: Seq<Resource>,
)
    requires
        registry::selects(registry::lookup_any_case(agents, asked), offered, selected, rest),
        !agents.contains_key(names::ascii_lower(asked)) || offered.len() == 0,
    ensures
        selected == Seq::<Resource>::empty(),
        rest == offered,
{
    assert(selected =~= Seq::<Resource>::empty());
}

} // verus!
