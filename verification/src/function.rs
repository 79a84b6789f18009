//! Descriptions under which agents are offered as callable functions.
use vstd::prelude::*;

use crate::json;
use crate::json::{Json, JsonView, Member};
use crate::names;

verus! {

/// Default JSON arguments for an agent exposed as a callable function.
#[derive(Debug, Clone)]
pub struct AgentArgs {
    /// Self-contained task prompt for the agent.
    pub prompt: String,
}

/// The arguments with this prompt, as they are written in JSON.
pub open spec fn written_args(prompt: Seq<char>) -> JsonView {
    JsonView::Object(seq![json::member("prompt"@, JsonView::Text(prompt))])
}

/// The definition of a callable function.
#[derive(Debug)]
pub struct FunctionDefinition {
    /// The name to call it by.
    pub name: String,
    /// What it does.
    pub description: String,
    /// The JSON schema of its arguments.
    pub parameters: Json,
    /// Whether a call has to keep to the schema strictly.
    pub strict: Option<bool>,
}

/// What a [`FunctionDefinition`] says.
pub struct FunctionDefinitionView {
    pub name: Seq<char>,
    pub description: Seq<char>,
    pub parameters: JsonView,
    pub strict: Option<bool>,
}

impl View for FunctionDefinition {
    type V = FunctionDefinitionView;

    open spec fn view(&self) -> FunctionDefinitionView {
        FunctionDefinitionView {
            name: self.name@,
            description: self.description@,
            parameters: self.parameters@,
            strict: self.strict,
        }
    }
}

/// A callable function and the resources it can consume.
#[derive(Debug)]
pub struct Function {
    pub definition: FunctionDefinition,
    pub supported_resource_tags: Vec<String>,
}

/// What the schema of [`AgentArgs`] says of the whole.
pub const TASK_DESCRIPTION: &'static str =
    "Run this agent on a focused task. Provide a self-contained prompt with the goal, relevant context, constraints, and expected output.";

/// What the schema of [`AgentArgs`] says of the prompt.
pub const PROMPT_DESCRIPTION: &'static str =
    "The task for this agent. Include the objective, relevant context, constraints, preferred workflow or deliverable, and any success criteria needed to complete the work.";

/// The schema of a prompt: a string of one character or more.
pub open spec fn prompt_schema() -> JsonView {
    JsonView::Object(
        seq![
            json::member("type"@, JsonView::Text("string"@)),
            json::member("description"@, JsonView::Text(PROMPT_DESCRIPTION@)),
            json::member("minLength"@, JsonView::Number("1"@)),
        ],
    )
}

/// The schema of [`AgentArgs`]: an object that holds a `prompt` and nothing else.
pub open spec fn agent_parameters() -> JsonView {
    JsonView::Object(
        seq![
            json::member("type"@, JsonView::Text("object"@)),
            json::member("description"@, JsonView::Text(TASK_DESCRIPTION@)),
            json::member("properties"@, JsonView::Object(seq![json::member("prompt"@, prompt_schema())])),
            json::member("required"@, JsonView::Array(seq![JsonView::Text("prompt"@)])),
            json::member("additionalProperties"@, JsonView::Bool(false)),
        ],
    )
}

/// The definition of an agent that has no definition of its own: its name in lower case, its
/// description, the schema of [`AgentArgs`], strictly kept.
pub open spec fn agent_definition(
    name: Seq<char>,
    description: Seq<char>,
) -> FunctionDefinitionView {
    FunctionDefinitionView {
        name: names::ascii_lower(name),
        description,
        parameters: agent_parameters(),
        strict: Some(true),
    }
}

/// Builds the schema of a prompt.
fn build_prompt_schema() -> (schema: Json)
    ensures
        schema@ == prompt_schema(),
{
    let schema = Json::object(
        vec![
            Member::new("type", Json::text("string")),
            Member::new("description", Json::text(PROMPT_DESCRIPTION)),
            Member::new("minLength", Json::number("1")),
        ],
    );
    assert(schema@->Object_0 =~= prompt_schema()->Object_0);
    schema
}

/// Builds the schema of [`AgentArgs`].
pub fn build_agent_parameters() -> (schema: Json)
    ensures
        schema@ == agent_parameters(),
{
    let properties = Json::object(vec![Member::new("prompt", build_prompt_schema())]);
    assert(properties@->Object_0 =~= seq![json::member("prompt"@, prompt_schema())]);
    let required = Json::array(vec![Json::text("prompt")]);
    assert(required@->Array_0 =~= seq![JsonView::Text("prompt"@)]);
    let schema = Json::object(
        vec![
            Member::new("type", Json::text("object")),
            Member::new("description", Json::text(TASK_DESCRIPTION)),
            Member::new("properties", properties),
            Member::new("required", required),
            Member::new("additionalProperties", Json::Bool(false)),
        ],
    );
    assert(schema@->Object_0 =~= agent_parameters()->Object_0);
    schema
}

/// Builds the definition of an agent that has no definition of its own, from its name and its
/// description.
pub fn define_agent(name: String, description: String) -> (definition: FunctionDefinition)
    ensures
        definition@ == agent_definition(name@, description@),
{
    FunctionDefinition {
        name: name.as_str().to_ascii_lowercase(),
        description,
        parameters: build_agent_parameters(),
        strict: Some(true),
    }
}

} // verus!
