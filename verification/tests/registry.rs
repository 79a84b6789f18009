use anda_core::{
    Agent, AgentContext, AgentError, AgentSet, DynAgent, FunctionDefinition, Json, NameError,
    Resource,
};
use std::sync::Arc;

struct Context {
    caller: u32,
}

impl AgentContext for Context {
    type Init = Result<(), String>;
    type Run = Result<String, String>;

    fn ready() -> Self::Init {
        Ok(())
    }
}

struct Plain {
    name: String,
}

impl Agent<Context> for Plain {
    fn name(&self) -> String {
        self.name.clone()
    }

    fn description(&self) -> String {
        format!("describes {}", self.name)
    }

    fn run(&self, ctx: Context, prompt: String, resources: Vec<Resource>) -> Result<String, String> {
        let names: Vec<String> = resources.iter().map(|r| r.name.clone()).collect();
        Ok(format!("{} {} {} {}", self.name, ctx.caller, prompt, names.join(",")))
    }
}

struct Custom;

impl Agent<Context> for Custom {
    fn name(&self) -> String {
        "custom".to_string()
    }

    fn description(&self) -> String {
        "unused".to_string()
    }

    fn definition(&self) -> FunctionDefinition {
        FunctionDefinition {
            name: "other_name".to_string(),
            description: "own definition".to_string(),
            parameters: Json::Null,
            strict: None,
        }
    }

    fn supported_resource_tags(&self) -> Vec<String> {
        vec!["text".to_string(), "md".to_string()]
    }

    fn init(&self, ctx: Context) -> Result<(), String> {
        Err(format!("caller {}", ctx.caller))
    }

    fn tool_dependencies(&self) -> Vec<String> {
        vec!["search".to_string()]
    }

    fn run(&self, _ctx: Context, _prompt: String, _resources: Vec<Resource>) -> Result<String, String> {
        Err("not today".to_string())
    }
}

struct Greedy;

impl Agent<Context> for Greedy {
    fn name(&self) -> String {
        "greedy".to_string()
    }

    fn description(&self) -> String {
        "takes all".to_string()
    }

    fn supported_resource_tags(&self) -> Vec<String> {
        vec!["*".to_string()]
    }

    fn run(&self, _ctx: Context, _prompt: String, _resources: Vec<Resource>) -> Result<String, String> {
        Ok(String::new())
    }
}

fn plain(name: &str) -> Arc<Plain> {
    Arc::new(Plain { name: name.to_string() })
}

fn set_of(names: &[&str]) -> AgentSet<Context> {
    let mut set = AgentSet::new();
    for name in names {
        set.add(plain(name), None).unwrap();
    }
    set
}

fn strings(texts: &[&str]) -> Vec<String> {
    texts.iter().map(|t| t.to_string()).collect()
}

fn tagged(name: &str, tags: &[&str]) -> Resource {
    Resource { name: name.to_string(), tags: strings(tags), uri: None, blob: None }
}

fn names_of(resources: &[Resource]) -> Vec<String> {
    resources.iter().map(|r| r.name.clone()).collect()
}

#[test]
fn new_set_is_empty() {
    let set = AgentSet::<Context>::new();
    assert!(set.names().is_empty());
    assert!(!set.contains("anything"));
    assert!(!set.contains_lowercase(""));
    assert!(set.get("anything").is_none());
    assert!(set.definition("anything").is_none());
    assert!(set.definitions(None).is_empty());
    assert!(set.functions(None).is_empty());
    assert!(AgentSet::<Context>::default().names().is_empty());
}

#[test]
fn names_are_registered_in_lowercase_and_found_in_any_case() {
    let set = set_of(&["Example_Agent"]);
    assert_eq!(set.names(), strings(&["example_agent"]));
    assert!(set.contains("example_agent"));
    assert!(set.contains("EXAMPLE_AGENT"));
    assert!(set.contains("Example_Agent"));
    assert!(!set.contains("example_agents"));
    assert!(!set.contains("example_agen"));
    assert!(set.contains_lowercase("example_agent"));
    assert!(!set.contains_lowercase("Example_Agent"));
    assert!(set.get("eXaMpLe_AgEnT").is_some());
    assert!(set.get_lowercase("example_agent").is_some());
    assert!(set.get_lowercase("Example_Agent").is_none());
    assert!(!set.contains("\u{c9}xample"));
}

#[test]
fn names_are_listed_in_ascending_order() {
    let set = set_of(&["zeta", "alpha", "beta_2", "beta", "alpha1", "Gamma", "beta_", "a"]);
    assert_eq!(
        set.names(),
        strings(&["a", "alpha", "alpha1", "beta", "beta_", "beta_2", "gamma", "zeta"])
    );
    for name in set.names() {
        assert_eq!(set.get(&name).unwrap().name().to_ascii_lowercase(), name);
        assert_eq!(set.get(&name).unwrap().label(), name);
    }
}

#[test]
fn order_of_registration_does_not_show() {
    let one = set_of(&["c", "a", "b"]);
    let other = set_of(&["b", "c", "a"]);
    assert_eq!(one.names(), other.names());
    let described = |set: &AgentSet<Context>| -> Vec<(String, String, Vec<String>)> {
        set.functions(None)
            .into_iter()
            .map(|f| (f.definition.name, f.definition.description, f.supported_resource_tags))
            .collect()
    };
    assert_eq!(described(&one), described(&other));
}

#[test]
fn taken_name_is_refused_and_nothing_changes() {
    let mut set = set_of(&["writer", "reader"]);
    let first = set.get("writer").unwrap();
    let error = set.add(plain("WRITER"), Some("second".to_string())).unwrap_err();
    assert_eq!(error.message(), "agent writer already exists");
    match error {
        AgentError::AlreadyExists(name) => assert_eq!(name, "writer"),
        AgentError::InvalidName(_) => panic!("expected the name to be taken"),
    }
    assert_eq!(set.names(), strings(&["reader", "writer"]));
    assert!(Arc::ptr_eq(&set.get("writer").unwrap(), &first));
    assert_eq!(set.get("writer").unwrap().label(), "writer");
}

#[test]
fn invalid_names_are_refused_and_nothing_changes() {
    let mut set = set_of(&["writer"]);
    let long = "a".repeat(65);
    let cases = [
        ("", NameError::Empty),
        (long.as_str(), NameError::TooLong),
        ("1st", NameError::BadStart),
        ("_writer", NameError::BadStart),
        ("two words", NameError::BadCharacter(' ')),
        ("caf\u{e9}-x", NameError::BadCharacter('\u{e9}')),
    ];
    for (name, expected) in cases {
        match set.add(plain(name), None) {
            Err(AgentError::InvalidName(error)) => assert_eq!(error, expected),
            _ => panic!("expected {} to be refused", name),
        }
    }
    assert_eq!(set.names(), strings(&["writer"]));
}

#[test]
fn longest_name_is_accepted() {
    let name = "A".repeat(64);
    let set = set_of(&[name.as_str()]);
    assert_eq!(set.names(), vec!["a".repeat(64)]);
}

#[test]
fn register_takes_the_name_from_the_caller() {
    let mut set = AgentSet::<Context>::new();
    set.register("Alias".to_string(), plain("writer"), None).unwrap();
    assert_eq!(set.names(), strings(&["alias"]));
    assert_eq!(set.get("ALIAS").unwrap().name(), "writer");
    assert_eq!(set.get("ALIAS").unwrap().label(), "alias");
}

#[test]
fn label_is_kept_or_defaults_to_the_registered_name() {
    let mut set = AgentSet::<Context>::new();
    set.add(plain("One"), Some("My Label".to_string())).unwrap();
    set.add(plain("Two"), None).unwrap();
    assert_eq!(set.get("one").unwrap().label(), "My Label");
    assert_eq!(set.get("two").unwrap().label(), "two");
}

#[test]
fn requests_are_passed_on_to_the_agent() {
    let mut set = set_of(&["Writer"]);
    set.add(Arc::new(Custom), None).unwrap();

    let writer = set.get("writer").unwrap();
    assert_eq!(writer.name(), "Writer");
    assert!(writer.tool_dependencies().is_empty());
    assert!(writer.supported_resource_tags().is_empty());
    assert_eq!(writer.init(Context { caller: 1 }), Ok(()));
    let output = writer.run(
        Context { caller: 5 },
        "go".to_string(),
        vec![tagged("a", &[]), tagged("b", &[])],
    );
    assert_eq!(output, Ok("Writer 5 go a,b".to_string()));

    let custom = set.get("custom").unwrap();
    assert_eq!(custom.tool_dependencies(), strings(&["search"]));
    assert_eq!(custom.supported_resource_tags(), strings(&["text", "md"]));
    assert_eq!(custom.init(Context { caller: 3 }), Err("caller 3".to_string()));
    assert_eq!(
        custom.run(Context { caller: 3 }, String::new(), Vec::new()),
        Err("not today".to_string())
    );
}

#[test]
fn definition_is_the_agents_own() {
    let mut set = set_of(&["Writer"]);
    set.add(Arc::new(Custom), None).unwrap();

    let default = set.definition("WRITER").unwrap();
    assert_eq!(default.name, "writer");
    assert_eq!(default.description, "describes Writer");
    assert_eq!(default.strict, Some(true));

    let own = set.definition("custom").unwrap();
    assert_eq!(own.name, "other_name");
    assert_eq!(own.description, "own definition");
    assert_eq!(own.parameters, Json::Null);
    assert_eq!(own.strict, None);

    assert!(set.definition("other_name").is_none());
}

#[test]
fn definitions_of_all_agents_follow_the_names() {
    let set = set_of(&["c", "A", "b"]);
    let listed: Vec<String> = set.definitions(None).into_iter().map(|d| d.name).collect();
    assert_eq!(listed, strings(&["a", "b", "c"]));
}

#[test]
fn definitions_of_selected_agents_follow_the_request() {
    let set = set_of(&["a", "b", "c"]);
    let request = strings(&["C", "nobody", "a", "c"]);
    let listed: Vec<String> =
        set.definitions(Some(&request)).into_iter().map(|d| d.name).collect();
    assert_eq!(listed, strings(&["c", "a", "c"]));
    assert!(set.definitions(Some(&[])).is_empty());
    assert!(set.definitions(Some(&strings(&["nobody"]))).is_empty());

    let known = strings(&["C", "a", "c"]);
    assert_eq!(set.definitions(Some(&known)).len(), 3);
}

#[test]
fn requesting_all_names_is_requesting_all_agents() {
    let set = set_of(&["c", "A", "b"]);
    let all: Vec<String> = set.definitions(None).into_iter().map(|d| d.description).collect();
    let named: Vec<String> =
        set.definitions(Some(&set.names())).into_iter().map(|d| d.description).collect();
    assert_eq!(all, named);
}

#[test]
fn functions_pair_definitions_with_tags() {
    let mut set = set_of(&["writer"]);
    set.add(Arc::new(Custom), None).unwrap();
    set.add(Arc::new(Greedy), None).unwrap();

    let all = set.functions(None);
    let names: Vec<&str> = all.iter().map(|f| f.definition.name.as_str()).collect();
    assert_eq!(names, vec!["other_name", "greedy", "writer"]);
    assert_eq!(all[0].supported_resource_tags, strings(&["text", "md"]));
    assert_eq!(all[1].supported_resource_tags, strings(&["*"]));
    assert!(all[2].supported_resource_tags.is_empty());

    let some = set.functions(Some(&strings(&["GREEDY", "nobody", "custom"])));
    assert_eq!(some.len(), 2);
    assert_eq!(some[0].definition.name, "greedy");
    assert_eq!(some[1].supported_resource_tags, strings(&["text", "md"]));
}

#[test]
fn resources_are_selected_by_the_agents_tags() {
    let mut set = set_of(&["writer"]);
    set.add(Arc::new(Custom), None).unwrap();
    set.add(Arc::new(Greedy), None).unwrap();
    let mut resources = vec![
        tagged("a", &["text"]),
        tagged("b", &["image"]),
        tagged("c", &["image", "md"]),
        tagged("d", &[]),
    ];

    assert!(set.select_resources("nobody", &mut resources).is_empty());
    assert_eq!(resources.len(), 4);
    assert!(set.select_resources("writer", &mut resources).is_empty());
    assert_eq!(resources.len(), 4);

    let selected = set.select_resources("CUSTOM", &mut resources);
    assert_eq!(names_of(&selected), strings(&["a", "c"]));
    assert_eq!(names_of(&resources), strings(&["b", "d"]));
    assert!(set.select_resources("custom", &mut resources).is_empty());

    let selected = set.select_resources("greedy", &mut resources);
    assert_eq!(names_of(&selected), strings(&["b", "d"]));
    assert!(resources.is_empty());
    assert!(set.select_resources("greedy", &mut resources).is_empty());
}

#[test]
fn agent_selects_resources_for_itself() {
    let mut resources = vec![tagged("a", &["image"]), tagged("b", &["md"])];
    let selected = Agent::select_resources(&Custom, &mut resources);
    assert_eq!(names_of(&selected), strings(&["b"]));
    assert_eq!(names_of(&resources), strings(&["a"]));
}
