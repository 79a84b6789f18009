//! What a JSON schema accepts, for the keywords that the schemas of this library use: `type`,
//! `minLength`, `properties`, `required` and `additionalProperties`. Every other keyword is
//! taken as an annotation, as `description` is.
use vstd::prelude::*;

use crate::function;
use crate::json;
use crate::json::{JsonView, MemberView};

verus! {

/// The number that decimal digits stand for.
pub open spec fn decimal(digits: Seq<char>) -> int
    decreases digits.len(),
{
    if digits.len() == 0 {
        0
    } else {
        decimal(digits.drop_last()) * 10 + (digits.last() as int - '0' as int)
    }
}

/// Whether a value is of the type that a schema names.
pub open spec fn has_type(value: JsonView, name: Seq<char>) -> bool {
    match value {
        JsonView::Null => name == "null"@,
        JsonView::Bool(_) => name == "boolean"@,
        JsonView::Number(_) => name == "number"@,
        JsonView::Text(_) => name == "string"@,
        JsonView::Array(_) => name == "array"@,
        JsonView::Object(_) => name == "object"@,
    }
}

/// Whether a member of this name is among `members`.
pub open spec fn has_member(members: Seq<MemberView>, name: Seq<char>) -> bool {
    exists|i: int| 0 <= i < members.len() && (#[trigger] members[i]).name == name
}

/// Whether the schema with these keywords names a property.
pub open spec fn names_property(keywords: Seq<MemberView>, name: Seq<char>) -> bool {
    exists|i: int|
        0 <= i < keywords.len() && (#[trigger] keywords[i]).name == "properties"@
            && keywords[i].value is Object && has_member(keywords[i].value->Object_0, name)
}

/// Whether no two members of an object have the same name. Values that are no objects pass.
pub open spec fn has_distinct_members(value: JsonView) -> bool {
    value matches JsonView::Object(members) ==> forall|i: int, j: int|
        #![trigger members[i], members[j]]
        0 <= i < j < members.len() ==> members[i].name != members[j].name
}

/// Whether `value` satisfies `schema`.
pub open spec fn satisfies(value: JsonView, schema: JsonView) -> bool
    decreases schema,
{
    match schema {
        JsonView::Bool(accepts) => accepts,
        JsonView::Object(keywords) => forall|i: int|
            0 <= i < keywords.len() ==> keeps(value, keywords, #[trigger] keywords[i]),
        _ => false,
    }
}

/// Whether `value` keeps to one keyword of the schema with these keywords.
pub open spec fn keeps(value: JsonView, keywords: Seq<MemberView>, keyword: MemberView) -> bool
    decreases keyword,
{
    if keyword.name == "type"@ {
        keyword.value matches JsonView::Text(name) && has_type(value, name)
    } else if keyword.name == "minLength"@ {
        value matches JsonView::Text(text) ==> keyword.value is Number && decimal(
            keyword.value->Number_0,
        ) <= text.len()
    } else if keyword.name == "properties"@ {
        value matches JsonView::Object(members) ==> match keyword.value {
            JsonView::Object(properties) => forall|i: int, j: int|
                #![trigger members[i], properties[j]]
                0 <= i < members.len() && 0 <= j < properties.len() && members[i].name
                    == properties[j].name ==> satisfies(members[i].value, properties[j].value),
            _ => false,
        }
    } else if keyword.name == "required"@ {
        value matches JsonView::Object(members) ==> match keyword.value {
            JsonView::Array(required) => forall|i: int|
                0 <= i < required.len() ==> (#[trigger] required[i] matches JsonView::Text(name)
                    && has_member(members, name)),
            _ => false,
        }
    } else if keyword.name == "additionalProperties"@ {
        value matches JsonView::Object(members) ==> forall|i: int|
            0 <= i < members.len() && !names_property(keywords, (#[trigger] members[i]).name)
                ==> satisfies(members[i].value, keyword.value)
    } else {
        true
    }
}

/// The texts that name keywords, types and properties here are what they look like, and so
/// all different.
proof fn lemma_words()
    ensures
        "type"@.len() == 4,
        "description"@.len() == 11,
        "minLength"@.len() == 9,
        "properties"@.len() == 10,
        "required"@.len() == 8,
        "additionalProperties"@.len() == 20,
        "string"@ != "object"@,
        "string"@.len() == 6,
        "object"@.len() == 6,
        "null"@.len() == 4,
        "boolean"@.len() == 7,
        "number"@ != "string"@,
        "number"@ != "object"@,
        "array"@.len() == 5,
        decimal("1"@) == 1,
{
    reveal_strlit("type");
    reveal_strlit("description");
    reveal_strlit("minLength");
    reveal_strlit("properties");
    reveal_strlit("required");
    reveal_strlit("additionalProperties");
    reveal_strlit("string");
    reveal_strlit("object");
    reveal_strlit("null");
    reveal_strlit("boolean");
    reveal_strlit("number");
    reveal_strlit("array");
    reveal_strlit("1");
    assert("string"@[0] != "object"@[0]);
    assert("number"@[0] != "string"@[0]);
    assert("number"@[0] != "object"@[0]);
    assert("1"@.drop_last() =~= Seq::<char>::empty());
    reveal_with_fuel(decimal, 2);
}

/// The schema of a prompt accepts exactly the strings of one character or more.
pub proof fn law_prompt_schema_accepts_nonempty_text(value: JsonView)
    ensures
        satisfies(value, function::prompt_schema()) <==> value is Text && value->Text_0.len() >= 1,
{
    lemma_words();
    let keywords = function::prompt_schema()->Object_0;
    assert(keywords.len() == 3);
    assert(keeps(value, keywords, keywords[0]) <==> value is Text);
    assert(keeps(value, keywords, keywords[1]));
    assert(keeps(value, keywords, keywords[2]) <==> (value is Text ==> value->Text_0.len() >= 1));
    if value is Text && value->Text_0.len() >= 1 {
        assert forall|i: int| 0 <= i < keywords.len() implies keeps(
            value,
            keywords,
            #[trigger] keywords[i],
        ) by {
            assert(i == 0 || i == 1 || i == 2);
        }
    }
}

/// The schema in the definition that an agent has by default accepts exactly the arguments with
/// a prompt of one character or more.
pub proof fn law_default_schema_accepts_exactly_arguments(
    name: Seq<char>,
    description: Seq<char>,
    value: JsonView,
)
    requires
        has_distinct_members(value),
    ensures
        satisfies(value, function::agent_definition(name, description).parameters) <==> exists|
            prompt: Seq<char>,
        |
            prompt.len() >= 1 && value == #[trigger] function::written_args(prompt),
{
    lemma_words();
    let schema = function::agent_parameters();
    let keywords = schema->Object_0;
    let properties = keywords[2].value->Object_0;
    assert(keywords.len() == 5);
    assert(properties =~= seq![json::member("prompt"@, function::prompt_schema())]);
    assert forall|name: Seq<char>| names_property(keywords, name) <==> name == "prompt"@ by {
        assert(properties[0].name == "prompt"@);
        assert(has_member(properties, "prompt"@));
        assert(keywords[2].name == "properties"@);
        assert(has_member(keywords[2].value->Object_0, "prompt"@));
        if names_property(keywords, name) {
            let i: int = choose|i: int|
                0 <= i < keywords.len() && (#[trigger] keywords[i]).name == "properties"@
                    && keywords[i].value is Object && has_member(
                    keywords[i].value->Object_0,
                    name,
                );
            assert(i == 2);
        }
    }
    if satisfies(value, schema) {
        assert(keeps(value, keywords, keywords[0]));
        assert(keeps(value, keywords, keywords[2]));
        assert(keeps(value, keywords, keywords[3]));
        assert(keeps(value, keywords, keywords[4]));
        assert(value is Object);
        let members = value->Object_0;
        let required = keywords[3].value->Array_0;
        assert(required[0] == JsonView::Text("prompt"@));
        assert(has_member(members, "prompt"@));
        let at: int = choose|i: int|
            0 <= i < members.len() && (#[trigger] members[i]).name == "prompt"@;
        assert(members[at].name == properties[0].name);
        assert(satisfies(members[at].value, properties[0].value));
        law_prompt_schema_accepts_nonempty_text(members[at].value);
        assert forall|i: int| 0 <= i < members.len() implies (#[trigger] members[i]).name
            == "prompt"@ by {
            if members[i].name != "prompt"@ {
                assert(!names_property(keywords, members[i].name));
                assert(satisfies(members[i].value, keywords[4].value));
            }
        }
        if members.len() > 1 {
            assert(members[0].name != members[1].name);
        }
        let prompt = members[at].value->Text_0;
        assert(members =~= seq![json::member("prompt"@, JsonView::Text(prompt))]);
        assert(value == function::written_args(prompt));
    }
    if exists|prompt: Seq<char>|
        prompt.len() >= 1 && value == #[trigger] function::written_args(prompt) {
        let prompt = choose|prompt: Seq<char>|
            prompt.len() >= 1 && value == #[trigger] function::written_args(prompt);
        let members = value->Object_0;
        assert(members[0] == json::member("prompt"@, JsonView::Text(prompt)));
        law_prompt_schema_accepts_nonempty_text(members[0].value);
        assert(has_member(members, "prompt"@));
        assert forall|i: int| 0 <= i < keywords.len() implies keeps(
            value,
            keywords,
            #[trigger] keywords[i],
        ) by {
            assert(i == 0 || i == 1 || i == 2 || i == 3 || i == 4);
        }
    }
}

} // verus!
