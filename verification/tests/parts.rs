use anda_core::function::define_agent;
use anda_core::json::Member;
use anda_core::order::{side_of, Side};
use anda_core::{
    select_resources, validate_function_name, AgentArgs, AgentError, Json, NameError, Resource,
};
use serde_json::Value;

fn strings(texts: &[&str]) -> Vec<String> {
    texts.iter().map(|t| t.to_string()).collect()
}

fn tagged(name: &str, tags: &[&str]) -> Resource {
    Resource { name: name.to_string(), tags: strings(tags), uri: None, blob: None }
}

fn names_of(resources: &[Resource]) -> Vec<String> {
    resources.iter().map(|r| r.name.clone()).collect()
}

fn to_value(json: &Json) -> Value {
    match json {
        Json::Null => Value::Null,
        Json::Bool(b) => Value::Bool(*b),
        Json::Number(text) => serde_json::from_str(text).unwrap(),
        Json::Text(text) => Value::String(text.clone()),
        Json::Array(items) => Value::Array(items.iter().map(to_value).collect()),
        Json::Object(members) => Value::Object(
            members.iter().map(|m| (m.name.clone(), to_value(&m.value))).collect(),
        ),
    }
}

#[test]
fn default_definition_has_the_schema_of_the_arguments() {
    let definition = define_agent("Example_Agent".to_string(), "An example".to_string());
    assert_eq!(definition.name, "example_agent");
    assert_eq!(definition.description, "An example");
    assert_eq!(definition.strict, Some(true));
    let expected: Value = serde_json::from_str(
        r#"{
            "type": "object",
            "description": "Run this agent on a focused task. Provide a self-contained prompt with the goal, relevant context, constraints, and expected output.",
            "properties": {
                "prompt": {
                    "type": "string",
                    "description": "The task for this agent. Include the objective, relevant context, constraints, preferred workflow or deliverable, and any success criteria needed to complete the work.",
                    "minLength": 1
                }
            },
            "required": ["prompt"],
            "additionalProperties": false
        }"#,
    )
    .unwrap();
    assert_eq!(to_value(&definition.parameters), expected);
}

#[test]
fn default_definition_keeps_what_is_not_ascii() {
    let definition = define_agent("\u{c9}COLE-Z9".to_string(), "D\u{c9}".to_string());
    assert_eq!(definition.name, "\u{c9}cole-z9");
    assert_eq!(definition.description, "D\u{c9}");
}

#[test]
fn json_is_built_from_its_parts() {
    let json = Json::object(vec![
        Member::new("a", Json::array(vec![Json::text("x"), Json::number("2")])),
        Member::new("b", Json::Bool(true)),
    ]);
    let expected: Value = serde_json::from_str(r#"{"a": ["x", 2], "b": true}"#).unwrap();
    assert_eq!(to_value(&json), expected);
}

#[test]
fn arguments_hold_the_prompt() {
    let args = AgentArgs { prompt: "do it".to_string() };
    assert_eq!(args.clone().prompt, "do it");
}

#[test]
fn valid_names_are_accepted() {
    let longest = "z".repeat(64);
    for name in ["a", "z", "example_agent", "a1_", "a__9", longest.as_str()] {
        assert_eq!(validate_function_name(name), Ok(()));
        assert_eq!(name.to_ascii_lowercase(), name);
    }
}

#[test]
fn invalid_names_have_their_reason() {
    let too_long = "z".repeat(65);
    let too_long_and_bad = "-".repeat(65);
    let cases = [
        ("", NameError::Empty),
        (too_long.as_str(), NameError::TooLong),
        (too_long_and_bad.as_str(), NameError::TooLong),
        ("A", NameError::BadStart),
        ("9a", NameError::BadStart),
        ("_a", NameError::BadStart),
        ("\u{e9}", NameError::BadStart),
        ("aB", NameError::BadCharacter('B')),
        ("a-b c", NameError::BadCharacter('-')),
        ("a\u{e9}", NameError::BadCharacter('\u{e9}')),
        ("a`", NameError::BadCharacter('`')),
        ("a{", NameError::BadCharacter('{')),
        ("a/", NameError::BadCharacter('/')),
        ("a:", NameError::BadCharacter(':')),
    ];
    for (name, expected) in cases {
        assert_eq!(validate_function_name(name), Err(expected));
    }
}

#[test]
fn name_length_counts_characters() {
    let wide = format!("a{}", "\u{e9}".repeat(63));
    assert_eq!(validate_function_name(&wide), Err(NameError::BadCharacter('\u{e9}')));
    let wider = format!("a{}", "\u{e9}".repeat(64));
    assert_eq!(validate_function_name(&wider), Err(NameError::TooLong));
}

#[test]
fn errors_have_messages() {
    assert_eq!(
        AgentError::AlreadyExists("writer".to_string()).message(),
        "agent writer already exists"
    );
    assert_eq!(AgentError::InvalidName(NameError::Empty).message(), "name is empty");
    assert_eq!(NameError::TooLong.message(), "name has more than 64 characters");
    assert_eq!(NameError::BadStart.message(), "name does not start with a lowercase letter");
    assert_eq!(NameError::BadCharacter('-').message(), "name holds an invalid character");
}

#[test]
fn sides_follow_the_order_of_strings() {
    let names = ["", "a", "a0", "a_", "aa", "ab", "b", "\u{e9}", "\u{ffff}", "\u{10000}"];
    for a in names {
        for b in names {
            let expected = if a < b {
                Side::Before
            } else if a == b {
                Side::Same
            } else {
                Side::After
            };
            assert_eq!(side_of(a, b), expected);
        }
    }
}

#[test]
fn selection_splits_and_keeps_the_order() {
    let mut resources = vec![
        tagged("a", &["x"]),
        tagged("b", &["y"]),
        tagged("c", &["z", "x"]),
        tagged("d", &["y", "z"]),
    ];
    let selected = select_resources(&mut resources, &strings(&["x", "w"]));
    assert_eq!(names_of(&selected), strings(&["a", "c"]));
    assert_eq!(names_of(&resources), strings(&["b", "d"]));
    assert!(select_resources(&mut resources, &strings(&["x", "w"])).is_empty());
    assert_eq!(names_of(&resources), strings(&["b", "d"]));
}

#[test]
fn selection_without_tags_takes_nothing() {
    let mut resources = vec![tagged("a", &["x"]), tagged("b", &[])];
    assert!(select_resources(&mut resources, &[]).is_empty());
    assert_eq!(names_of(&resources), strings(&["a", "b"]));
}

#[test]
fn selection_of_any_takes_everything() {
    let mut resources = vec![tagged("a", &["x"]), tagged("b", &[])];
    let selected = select_resources(&mut resources, &strings(&["*"]));
    assert_eq!(names_of(&selected), strings(&["a", "b"]));
    assert!(resources.is_empty());
}

#[test]
fn tags_match_as_they_are_written() {
    let mut resources = vec![tagged("a", &["Text"]), tagged("b", &["*"]), tagged("c", &["text"])];
    let selected = select_resources(&mut resources, &strings(&["text"]));
    assert_eq!(names_of(&selected), strings(&["c"]));
    assert_eq!(names_of(&resources), strings(&["a", "b"]));
}
