//! What each operation gives, in terms of what it is called on.
//!
//! `call_ensures` of an operation, its arguments and a result says that the operation can give
//! that result for those arguments.
use std::sync::Arc;
use vstd::prelude::*;

use crate::agent;
use crate::agent::{Agent, AgentContext, AgentRef, DynAgent};
use crate::error::AgentError;
use crate::function;
use crate::function::{Function, FunctionDefinition};
use crate::json::{Json, JsonView, Member};
use crate::laws;
use crate::names;
use crate::names::NameError;
use crate::order;
use crate::order::Side;
use crate::registry;
use crate::registry::AgentSet;
use crate::resource;
use crate::resource::Resource;

verus! {

/// Validation accepts exactly the names of 1 to 64 characters whose first is one of `a` to `z`
/// (codes 97 to 122) and which hold only those, `0` to `9` (codes 48 to 57) and `_` (code 95).
/// It refuses the empty name, then names that are too long, then a bad start, and then names the
/// first character that may not stand in a name.
pub proof fn law_validation(name: &str, checked: Result<(), NameError>)
    requires
        call_ensures(names::validate_function_name, (name,), checked),
    ensures
        checked is Ok <==> {
            &&& 1 <= name@.len() <= 64
            &&& 97 <= name@[0] as int <= 122
            &&& forall|i: int|
                0 <= i < name@.len() ==> {
                    ||| 97 <= (#[trigger] name@[i]) as int <= 122
                    ||| 48 <= name@[i] as int <= 57
                    ||| name@[i] as int == 95
                }
        },
        checked == Err::<(), NameError>(NameError::Empty) <==> name@.len() == 0,
        checked == Err::<(), NameError>(NameError::TooLong) <==> name@.len() > 64,
        checked == Err::<(), NameError>(NameError::BadStart) <==> 1 <= name@.len() <= 64 && !(97
            <= name@[0] as int <= 122),
        checked matches Err(NameError::BadCharacter(c)) ==> {
            &&& !(97 <= c as int <= 122 || 48 <= c as int <= 57 || c as int == 95)
            &&& exists|i: int|
                0 <= i < name@.len() && #[trigger] name@[i] == c && forall|j: int|
                    0 <= j < i ==> {
                        ||| 97 <= (#[trigger] name@[j]) as int <= 122
                        ||| 48 <= name@[j] as int <= 57
                        ||| name@[j] as int == 95
                    }
        },
{
    laws::law_valid_names_by_code(name@);
    let c: char = match checked {
        Err(NameError::BadCharacter(c)) => c,
        _ => 'a',
    };
    laws::law_rejections_by_code(name@, c);
    if name@.len() == 0 || name@.len() > 64 {
        assert(!names::is_valid_name(name@));
    } else if !(97 <= name@[0] as int <= 122) {
        assert(!names::is_valid_name(name@));
    }
}

/// A selection takes out of the offered resources those that bear one of the tags, or all where
/// `*` is one of the tags, and leaves the others; both keep their order.
pub proof fn law_selection(
    resources: &mut Vec<Resource>,
    tags: &[String],
    selected: Vec<Resource>,
)
    requires
        call_ensures(resource::select_resources, (resources, tags), selected),
    ensures
        selected@ == old(resources)@.filter(
            |r: Resource|
                exists|t: int|
                    0 <= t < tags@.len() && ((#[trigger] tags@[t])@ == "*"@ || exists|i: int|
                        0 <= i < r.tags@.len() && (#[trigger] r.tags@[i])@ == tags@[t]@),
        ),
        final(resources)@ == old(resources)@.filter(
            |r: Resource|
                !exists|t: int|
                    0 <= t < tags@.len() && ((#[trigger] tags@[t])@ == "*"@ || exists|i: int|
                        0 <= i < r.tags@.len() && (#[trigger] r.tags@[i])@ == tags@[t]@),
        ),
{
    laws::law_selection_by_equal_tags(old(resources)@, tags@);
}

/// The definition that is built of a name and a description bears that description as it is and
/// that name with its capitals, codes 65 to 90, in lower case. It asks for strict calls, and its
/// schema is that of an agent's arguments.
pub proof fn law_default_definition(
    name: String,
    description: String,
    definition: FunctionDefinition,
)
    requires
        call_ensures(function::define_agent, (name, description), definition),
    ensures
        definition.description@ == description@,
        definition.name@.len() == name@.len(),
        forall|i: int|
            0 <= i < name@.len() ==> (#[trigger] definition.name@[i]) as int == if 65
                <= name@[i] as int <= 90 {
                name@[i] as int + 32
            } else {
                name@[i] as int
            },
        definition.strict == Some(true),
        forall|schema: Json| #[trigger]
            call_ensures(function::build_agent_parameters, (), schema) ==> definition.parameters@
                == schema@,
{
}

/// The schema of an agent's arguments is an object of five members: its type, its description,
/// its one property, the prompt, which is required, and that no other is allowed.
pub proof fn law_argument_schema(schema: Json)
    requires
        call_ensures(function::build_agent_parameters, (), schema),
    ensures
        schema@ matches JsonView::Object(members) && {
            &&& members.len() == 5
            &&& members[0].name == "type"@
            &&& members[0].value == JsonView::Text("object"@)
            &&& members[1].name == "description"@
            &&& members[1].value == JsonView::Text(function::TASK_DESCRIPTION@)
            &&& members[2].name == "properties"@
            &&& members[2].value matches JsonView::Object(properties) && {
                &&& properties.len() == 1
                &&& properties[0].name == "prompt"@
                &&& properties[0].value matches JsonView::Object(prompt) && {
                    &&& prompt.len() == 3
                    &&& prompt[0].name == "type"@
                    &&& prompt[0].value == JsonView::Text("string"@)
                    &&& prompt[1].name == "description"@
                    &&& prompt[1].value == JsonView::Text(function::PROMPT_DESCRIPTION@)
                    &&& prompt[2].name == "minLength"@
                    &&& prompt[2].value == JsonView::Number("1"@)
                }
            }
            &&& members[3].name == "required"@
            &&& members[3].value matches JsonView::Array(required) && {
                &&& required.len() == 1
                &&& required[0] == JsonView::Text("prompt"@)
            }
            &&& members[4].name == "additionalProperties"@
            &&& members[4].value == JsonView::Bool(false)
        },
{
}

/// The parts of documents that are built hold the whole of what they are built of.
pub proof fn law_documents(
    name: &str,
    value: Json,
    made: Member,
    text: &str,
    string: Json,
    number: Json,
    items: Vec<Json>,
    array: Json,
    members: Vec<Member>,
    object: Json,
)
    requires
        call_ensures(Member::new, (name, value), made),
        call_ensures(Json::text, (text,), string),
        call_ensures(Json::number, (text,), number),
        call_ensures(Json::array, (items,), array),
        call_ensures(Json::object, (members,), object),
    ensures
        made.name@ == name@,
        made.value@ == value@,
        string@ == JsonView::Text(text@),
        number@ == JsonView::Number(text@),
        array@ matches JsonView::Array(views) && views.len() == items@.len() && forall|i: int|
            0 <= i < views.len() ==> #[trigger] views[i] == items@[i]@,
        object@ matches JsonView::Object(views) && views.len() == members@.len() && forall|i: int|
            0 <= i < views.len() ==> {
                &&& (#[trigger] views[i]).name == members@[i].name@
                &&& views[i].value == members@[i].value@
            },
{
    reveal_with_fuel(Json::view, 2);
    reveal_with_fuel(Member::view, 2);
    laws::law_member_says_what_it_is_given(name@, value@);
    assert(made@.name == made.name@);
    assert(made@.value == made.value@);
    if let JsonView::Object(views) = object@ {
        assert forall|i: int| 0 <= i < views.len() implies {
            &&& (#[trigger] views[i]).name == members@[i].name@
            &&& views[i].value == members@[i].value@
        } by {
            assert(views[i] == members@[i]@);
        }
    }
}

/// The message of an error: that of a taken name bears the whole name between fixed words, and
/// that of a name that breaks a rule is the rule's message.
pub proof fn law_error_messages(
    name: String,
    taken: String,
    error: NameError,
    invalid: String,
    rule: String,
)
    requires
        call_ensures(AgentError::message, (&AgentError::AlreadyExists(name),), taken),
        call_ensures(AgentError::message, (&AgentError::InvalidName(error),), invalid),
        call_ensures(NameError::message, (&error,), rule),
    ensures
        taken@ == "agent "@ + name@ + " already exists"@,
        invalid@ == rule@,
        error is Empty ==> rule@ == "name is empty"@,
        error is TooLong ==> rule@ == "name has more than 64 characters"@,
        error is BadStart ==> rule@ == "name does not start with a lowercase letter"@,
        error is BadCharacter ==> rule@ == "name holds an invalid character"@,
{
}

/// Of two texts the one stands before the other that has the smaller code where they first
/// differ, or that ends there.
pub proof fn law_sides(a: &str, b: &str, side: Side)
    requires
        call_ensures(order::side_of, (a, b), side),
    ensures
        side is Same <==> a@ == b@,
        side is Before <==> exists|k: int|
            0 <= k <= a@.len() && k < b@.len() && #[trigger] a@.take(k) == b@.take(k) && (k
                == a@.len() || (a@[k] as int) < b@[k] as int),
        side is After <==> exists|k: int|
            0 <= k <= b@.len() && k < a@.len() && #[trigger] b@.take(k) == a@.take(k) && (k
                == b@.len() || (b@[k] as int) < a@[k] as int),
{
    order::law_order_irreflexive(a@);
    order::law_order_total(a@, b@);
    if order::precedes(a@, b@) && order::precedes(b@, a@) {
        order::law_order_transitive(a@, b@, a@);
    }
    order::law_order_is_decided_at_first_difference(a@, b@);
    order::law_order_is_decided_at_first_difference(b@, a@);
}

/// A new set holds no agents, however it is made.
pub proof fn law_new_set<C: AgentContext>(made: AgentSet<C>, by_default: AgentSet<C>)
    requires
        call_ensures(AgentSet::<C>::new, (), made),
        call_ensures(<AgentSet<C> as Default>::default, (), by_default),
    ensures
        made@ == Map::<Seq<char>, AgentRef<C>>::empty(),
        by_default@ == Map::<Seq<char>, AgentRef<C>>::empty(),
        made.keys().len() == 0,
        by_default.keys().len() == 0,
{
    laws::law_names_are_listed_once_in_ascending_order(made);
    laws::law_names_are_listed_once_in_ascending_order(by_default);
}

/// A registration is refused, and changes nothing, where the lowercase name is taken, with that
/// name as the error, and else where it breaks a rule of names, with the error that a validation
/// of it gives. Else the set holds one agent more, under the lowercase name; the others stay, and
/// the label is the one given or else the lowercase name.
pub proof fn law_register<T: Agent<C> + 'static, C: AgentContext>(
    set: &mut AgentSet<C>,
    name: String,
    agent: Arc<T>,
    label: Option<String>,
    outcome: Result<(), AgentError>,
    key: &str,
    checked: Result<(), NameError>,
)
    requires
        call_ensures(AgentSet::<C>::register::<T>, (set, name, agent, label), outcome),
        key@ == names::ascii_lower(name@),
        call_ensures(names::validate_function_name, (key,), checked),
    ensures
        old(set)@.contains_key(key@) ==> final(set)@ == old(set)@ && (outcome matches Err(
            AgentError::AlreadyExists(taken),
        ) && taken@ == key@),
        !old(set)@.contains_key(key@) && checked is Err ==> final(set)@ == old(set)@ && outcome
            == Err::<(), AgentError>(AgentError::InvalidName(checked->Err_0)),
        !old(set)@.contains_key(key@) && checked is Ok ==> {
            &&& outcome is Ok
            &&& final(set)@.dom() == old(set)@.dom().insert(key@)
            &&& forall|other: Seq<char>| #[trigger]
                old(set)@.contains_key(other) ==> final(set)@[other] == old(set)@[other]
            &&& final(set)@[key@].label_text() == match label {
                Some(text) => text@,
                None => key@,
            }
        },
{
    laws::law_registration_by_cases(old(set)@, name@, agent, label, final(set)@, outcome);
    if let Err(AgentError::InvalidName(error)) = outcome {
        if let Err(reason) = checked {
            laws::law_one_reason_to_reject(key@);
        }
    }
}

/// To add an agent is to register it by a name that it reports: it is refused, and changes
/// nothing, where the lowercase name is taken, and else where it breaks a rule of names; else the
/// set holds one agent more, under the lowercase name, and the others stay.
pub proof fn law_add<T: Agent<C> + 'static, C: AgentContext>(
    set: &mut AgentSet<C>,
    agent: Arc<T>,
    label: Option<String>,
    outcome: Result<(), AgentError>,
)
    requires
        call_ensures(AgentSet::<C>::add::<T>, (set, agent, label), outcome),
    ensures
        exists|name: String|
            #[trigger] call_ensures(<T as Agent<C>>::name, (&*agent,), name) && {
                let key = names::ascii_lower(name@);
                if old(set)@.contains_key(key) {
                    &&& final(set)@ == old(set)@
                    &&& outcome matches Err(AgentError::AlreadyExists(taken)) && taken@ == key
                } else if !names::is_valid_name(key) {
                    &&& final(set)@ == old(set)@
                    &&& outcome matches Err(AgentError::InvalidName(error))
                        && names::breaks_rule(key, error)
                } else {
                    &&& outcome is Ok
                    &&& final(set)@.dom() == old(set)@.dom().insert(key)
                    &&& forall|other: Seq<char>| #[trigger]
                        old(set)@.contains_key(other) ==> final(set)@[other] == old(set)@[other]
                    &&& final(set)@[key].label_text() == match label {
                        Some(text) => text@,
                        None => key,
                    }
                    &&& forall|
                        ctx: C,
                        prompt: String,
                        resources: Vec<Resource>,
                        output: C::Run,
                    | #[trigger]
                        final(set)@[key].may_run(ctx, prompt, resources, output) <==> call_ensures(
                            <T as Agent<C>>::run,
                            (&*agent, ctx, prompt, resources),
                            output,
                        )
                }
            },
{
    let name: String = choose|name: String|
        #[trigger] call_ensures(<T as Agent<C>>::name, (&*agent,), name) && registry::registers(
            old(set)@,
            name@,
            agent,
            label,
            final(set)@,
            outcome,
        );
    laws::law_registration_by_cases(old(set)@, name@, agent, label, final(set)@, outcome);
}

/// A set has and gives, by a name as it is written, what it holds under that name, and by a name
/// in any case what it holds under the lowercase name.
pub proof fn law_lookups<C: AgentContext>(
    set: AgentSet<C>,
    name: &str,
    has: bool,
    has_lowercase: bool,
    found: Option<AgentRef<C>>,
    found_lowercase: Option<AgentRef<C>>,
)
    requires
        call_ensures(AgentSet::<C>::contains, (&set, name), has),
        call_ensures(AgentSet::<C>::contains_lowercase, (&set, name), has_lowercase),
        call_ensures(AgentSet::<C>::get, (&set, name), found),
        call_ensures(AgentSet::<C>::get_lowercase, (&set, name), found_lowercase),
    ensures
        has <==> set@.contains_key(names::ascii_lower(name@)),
        has_lowercase <==> set@.contains_key(name@),
        found is Some <==> has,
        found matches Some(agent) ==> agent == set@[names::ascii_lower(name@)],
        found_lowercase is Some <==> has_lowercase,
        found_lowercase matches Some(agent) ==> agent == set@[name@],
{
}

/// The listed names are as many as the registered ones, each is registered, each registered one
/// is listed, and each stands before every later one.
pub proof fn law_names<C: AgentContext>(set: AgentSet<C>, listed: Vec<String>)
    requires
        call_ensures(AgentSet::<C>::names, (&set,), listed),
    ensures
        listed@.len() == set@.dom().len(),
        forall|i: int|
            0 <= i < listed@.len() ==> set@.contains_key((#[trigger] listed@[i])@),
        forall|name: Seq<char>| #[trigger]
            set@.contains_key(name) ==> exists|i: int|
                0 <= i < listed@.len() && (#[trigger] listed@[i])@ == name,
        forall|i: int, j: int|
            #![trigger listed@[i], listed@[j]]
            0 <= i < j < listed@.len() ==> order::precedes(listed@[i]@, listed@[j]@),
{
    laws::law_names_are_listed_once_in_ascending_order(set);
    resource::law_texts_are_those_of_the_strings(listed@);
    assert forall|i: int| 0 <= i < listed@.len() implies (#[trigger] listed@[i])@
        == set.keys()[i] by {
        assert(resource::texts(listed@)[i] == listed@[i]@);
    }
    assert forall|name: Seq<char>| #[trigger] set@.contains_key(name) implies exists|i: int|
        0 <= i < listed@.len() && (#[trigger] listed@[i])@ == name by {
        let i: int = choose|i: int| 0 <= i < set.keys().len() && #[trigger] set.keys()[i] == name;
        assert(listed@[i]@ == name);
    }
}

/// The definitions and the functions of all agents stand in the places of the listed names, and
/// each is what the agent of that name can report.
pub proof fn law_listings<C: AgentContext>(
    set: AgentSet<C>,
    listed: Vec<String>,
    definitions: Vec<FunctionDefinition>,
    functions: Vec<Function>,
)
    requires
        call_ensures(AgentSet::<C>::names, (&set,), listed),
        call_ensures(AgentSet::<C>::definitions, (&set, None), definitions),
        call_ensures(AgentSet::<C>::functions, (&set, None), functions),
    ensures
        definitions@.len() == listed@.len(),
        functions@.len() == listed@.len(),
        forall|i: int|
            0 <= i < listed@.len() ==> set@[listed@[i]@].may_define(#[trigger] definitions@[i]),
        forall|i: int|
            0 <= i < listed@.len() ==> {
                &&& set@[listed@[i]@].may_define((#[trigger] functions@[i]).definition)
                &&& set@[listed@[i]@].may_support(functions@[i].supported_resource_tags)
            },
{
    laws::law_all_agents_are_described(set, definitions@, functions@);
    laws::law_names_are_listed_once_in_ascending_order(set);
    resource::law_texts_are_those_of_the_strings(listed@);
    assert forall|i: int| 0 <= i < listed@.len() implies (#[trigger] listed@[i])@
        == set.keys()[i] by {
        assert(resource::texts(listed@)[i] == listed@[i]@);
    }
}

/// The definitions and the functions of requested agents are as many as the requested names that
/// are registered in lower case, and each is what the agent of its name can report, in the order
/// of the request.
pub proof fn law_listings_by_request<C: AgentContext>(
    set: AgentSet<C>,
    requested: &[String],
    known: Seq<String>,
    definitions: Vec<FunctionDefinition>,
    functions: Vec<Function>,
)
    requires
        known == requested@.filter(
            |name: String| set@.contains_key(names::ascii_lower(name@)),
        ),
        call_ensures(AgentSet::<C>::definitions, (&set, Some(requested)), definitions),
        call_ensures(AgentSet::<C>::functions, (&set, Some(requested)), functions),
    ensures
        definitions@.len() == known.len(),
        functions@.len() == known.len(),
        forall|i: int|
            0 <= i < known.len() ==> set@[names::ascii_lower(known[i]@)].may_define(
                #[trigger] definitions@[i],
            ),
        forall|i: int|
            0 <= i < known.len() ==> {
                &&& set@[names::ascii_lower(known[i]@)].may_define(
                    (#[trigger] functions@[i]).definition,
                )
                &&& set@[names::ascii_lower(known[i]@)].may_support(
                    functions@[i].supported_resource_tags,
                )
            },
{
    laws::law_requested_agents_are_described(set, requested, known, definitions@, functions@);
}

/// What a set tells of an agent that it accepted, by the agent's name in any case, comes from
/// that agent: its definition, and the resources that bear one of the tags it reports.
pub proof fn law_reports_on_registered_agent<T: Agent<C> + 'static, C: AgentContext>(
    set: &mut AgentSet<C>,
    name: String,
    agent: Arc<T>,
    label: Option<String>,
    asked: &str,
    definition: Option<FunctionDefinition>,
    resources: &mut Vec<Resource>,
    selected: Vec<Resource>,
)
    requires
        call_ensures(AgentSet::<C>::register::<T>, (set, name, agent, label), Ok(())),
        names::ascii_lower(asked@) == names::ascii_lower(name@),
        call_ensures(AgentSet::<C>::definition, (final(set), asked), definition),
        call_ensures(
            AgentSet::<C>::select_resources,
            (final(set), asked, resources),
            selected,
        ),
        old(resources)@.len() > 0,
    ensures
        definition matches Some(given) && call_ensures(
            <T as Agent<C>>::definition,
            (&*agent,),
            given,
        ),
        exists|tags: Vec<String>|
            #[trigger] call_ensures(<T as Agent<C>>::supported_resource_tags, (&*agent,), tags) && {
                &&& selected@ == old(resources)@.filter(
                    |r: Resource|
                        exists|t: int|
                            0 <= t < tags@.len() && ((#[trigger] tags@[t])@ == "*"@ || exists|i: int|
                                0 <= i < r.tags@.len() && (#[trigger] r.tags@[i])@ == tags@[t]@),
                )
                &&& final(resources)@ == old(resources)@.filter(
                    |r: Resource|
                        !exists|t: int|
                            0 <= t < tags@.len() && ((#[trigger] tags@[t])@ == "*"@ || exists|i: int|
                                0 <= i < r.tags@.len() && (#[trigger] r.tags@[i])@ == tags@[t]@),
                )
            },
{
    laws::law_definition_is_given_by_agent(
        old(set)@,
        name@,
        agent,
        label,
        final(set)@,
        Ok(()),
        asked@,
        definition,
    );
    let tags: Vec<String> = laws::law_resources_are_selected_by_agents_own_tags(
        old(set)@,
        name@,
        agent,
        label,
        final(set)@,
        Ok(()),
        asked@,
        old(resources)@,
        selected@,
        final(resources)@,
    );
}

/// By a name that is not registered no definition is given and no resource selected, and where
/// no resources are offered none is selected by any name.
pub proof fn law_reports_without_agent<C: AgentContext>(
    set: AgentSet<C>,
    asked: &str,
    definition: Option<FunctionDefinition>,
    resources: &mut Vec<Resource>,
    selected: Vec<Resource>,
)
    requires
        call_ensures(AgentSet::<C>::definition, (&set, asked), definition),
        call_ensures(AgentSet::<C>::select_resources, (&set, asked, resources), selected),
    ensures
        definition is Some <==> set@.contains_key(names::ascii_lower(asked@)),
        !set@.contains_key(names::ascii_lower(asked@)) || old(resources)@.len() == 0 ==> {
            &&& selected@ == Seq::<Resource>::empty()
            &&& final(resources)@ == old(resources)@
        },
{
    if !set@.contains_key(names::ascii_lower(asked@)) || old(resources)@.len() == 0 {
        laws::law_nothing_is_selected_without_agent(
            set@,
            asked@,
            old(resources)@,
            selected@,
            final(resources)@,
        );
    }
}

/// What an agent answers through dispatch is what its `may_` functions tell it can answer to the
/// same request, and its label is its label text.
pub proof fn law_dispatched_answers<D: DynAgent<C>, C: AgentContext>(
    dispatched: D,
    label: &str,
    name: String,
    definition: FunctionDefinition,
    tools: Vec<String>,
    tags: Vec<String>,
    ctx: C,
    done: C::Init,
    prompt: String,
    resources: Vec<Resource>,
    output: C::Run,
)
    ensures
        call_ensures(<D as DynAgent<C>>::label, (&dispatched,), label) ==> label@
            == dispatched.label_text(),
        call_ensures(<D as DynAgent<C>>::name, (&dispatched,), name) ==> dispatched.may_name(name),
        call_ensures(<D as DynAgent<C>>::definition, (&dispatched,), definition)
            ==> dispatched.may_define(definition),
        call_ensures(<D as DynAgent<C>>::tool_dependencies, (&dispatched,), tools)
            ==> dispatched.may_depend(tools),
        call_ensures(<D as DynAgent<C>>::supported_resource_tags, (&dispatched,), tags)
            ==> dispatched.may_support(tags),
        call_ensures(<D as DynAgent<C>>::init, (&dispatched, ctx), done) ==> dispatched.may_init(
            ctx,
            done,
        ),
        call_ensures(<D as DynAgent<C>>::run, (&dispatched, ctx, prompt, resources), output)
            ==> dispatched.may_run(ctx, prompt, resources, output),
{
}

/// An agent that was accepted and is looked up by its name, in any case, answers as itself: it
/// is run on the context, the prompt and the resources that the caller hands in, initialized
/// with the caller's context, and reports its own name, definition, tools and tags. Its label is
/// the one given, or else its name in lower case.
pub proof fn law_registered_agent_answers<T: Agent<C> + 'static, C: AgentContext>(
    set: &mut AgentSet<C>,
    name: String,
    agent: Arc<T>,
    label: Option<String>,
    asked: &str,
    found: Option<AgentRef<C>>,
)
    requires
        call_ensures(AgentSet::<C>::register::<T>, (set, name, agent, label), Ok(())),
        names::ascii_lower(asked@) == names::ascii_lower(name@),
        call_ensures(AgentSet::<C>::get, (final(set), asked), found),
    ensures
        found matches Some(handle) && {
            &&& forall|ctx: C, prompt: String, resources: Vec<Resource>, output: C::Run| #[trigger]
                handle.may_run(ctx, prompt, resources, output) <==> call_ensures(
                    <T as Agent<C>>::run,
                    (&*agent, ctx, prompt, resources),
                    output,
                )
            &&& forall|ctx: C, done: C::Init| #[trigger]
                handle.may_init(ctx, done) <==> call_ensures(
                    <T as Agent<C>>::init,
                    (&*agent, ctx),
                    done,
                )
            &&& forall|own: String| #[trigger]
                handle.may_name(own) <==> call_ensures(<T as Agent<C>>::name, (&*agent,), own)
            &&& forall|definition: FunctionDefinition| #[trigger]
                handle.may_define(definition) <==> call_ensures(
                    <T as Agent<C>>::definition,
                    (&*agent,),
                    definition,
                )
            &&& forall|tools: Vec<String>| #[trigger]
                handle.may_depend(tools) <==> call_ensures(
                    <T as Agent<C>>::tool_dependencies,
                    (&*agent,),
                    tools,
                )
            &&& forall|tags: Vec<String>| #[trigger]
                handle.may_support(tags) <==> call_ensures(
                    <T as Agent<C>>::supported_resource_tags,
                    (&*agent,),
                    tags,
                )
            &&& handle.label_text() == match label {
                Some(given) => given@,
                None => names::ascii_lower(name@),
            }
        },
{
}

/// An agent that was accepted and is looked up by its name, in any case, is recovered by a
/// downcast to its own type, by reference and by itself.
pub proof fn law_registered_agent_is_downcast<T: Agent<C> + 'static, C: AgentContext>(
    set: &mut AgentSet<C>,
    name: String,
    agent: Arc<T>,
    label: Option<String>,
    asked: &str,
    found: Option<AgentRef<C>>,
    by_reference: Option<&T>,
    by_itself: Result<Arc<T>, AgentRef<C>>,
)
    requires
        call_ensures(AgentSet::<C>::register::<T>, (set, name, agent, label), Ok(())),
        names::ascii_lower(asked@) == names::ascii_lower(name@),
        call_ensures(AgentSet::<C>::get, (final(set), asked), found),
        found is Some,
        agent::is_found_ref(found->0.any(), by_reference),
        call_ensures(<dyn DynAgent<C>>::downcast::<T>, (found->0,), by_itself),
    ensures
        by_reference == Some(&*agent),
        by_itself == Ok::<Arc<T>, AgentRef<C>>(agent),
{
}

} // verus!
