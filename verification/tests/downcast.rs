use anda_core::erased::is_type;
use anda_core::{Agent, AgentContext, AgentSet, DynAgent, Resource};
use std::sync::Arc;

struct TestAgentContext;

impl AgentContext for TestAgentContext {
    type Init = Result<(), String>;
    type Run = Result<String, String>;

    fn ready() -> Self::Init {
        Ok(())
    }
}

struct ExampleAgent {
    id: usize,
}

struct OtherAgent;

impl Agent<TestAgentContext> for ExampleAgent {
    fn name(&self) -> String {
        "example_agent".to_string()
    }

    fn description(&self) -> String {
        "Example agent used for downcast tests".to_string()
    }

    fn run(
        &self,
        _ctx: TestAgentContext,
        _prompt: String,
        _resources: Vec<Resource>,
    ) -> Result<String, String> {
        Ok(self.id.to_string())
    }
}

impl Agent<TestAgentContext> for OtherAgent {
    fn name(&self) -> String {
        "other_agent".to_string()
    }

    fn description(&self) -> String {
        "Other agent used for downcast tests".to_string()
    }

    fn run(
        &self,
        _ctx: TestAgentContext,
        _prompt: String,
        _resources: Vec<Resource>,
    ) -> Result<String, String> {
        Ok("other".to_string())
    }
}

#[test]
fn dyn_agent_downcast_ref_returns_inner_agent() {
    let agent = Arc::new(ExampleAgent { id: 7 });
    let mut agent_set = AgentSet::<TestAgentContext>::new();
    agent_set
        .add(agent, Some("test-label".to_string()))
        .unwrap();

    let dyn_agent = agent_set.get("example_agent").unwrap();
    let concrete = dyn_agent.downcast_ref::<ExampleAgent>().unwrap();

    assert_eq!(concrete.id, 7);
    assert!(dyn_agent.downcast_ref::<OtherAgent>().is_none());
}

#[test]
fn dyn_agent_downcast_returns_original_arc() {
    let agent = Arc::new(ExampleAgent { id: 9 });
    let mut agent_set = AgentSet::<TestAgentContext>::new();
    agent_set
        .add(agent.clone(), Some("test-label".to_string()))
        .unwrap();

    let dyn_agent = agent_set.get("example_agent").unwrap();
    let concrete = match dyn_agent.downcast::<ExampleAgent>() {
        Ok(agent) => agent,
        Err(_) => panic!("expected downcast to ExampleAgent to succeed"),
    };

    assert_eq!(concrete.id, 9);
    assert!(Arc::ptr_eq(&concrete, &agent));
}

#[test]
fn dyn_agent_downcast_mismatch_returns_original_arc() {
    let agent = Arc::new(ExampleAgent { id: 11 });
    let mut agent_set = AgentSet::<TestAgentContext>::new();
    agent_set
        .add(agent, Some("test-label".to_string()))
        .unwrap();

    let dyn_agent = agent_set.get("example_agent").unwrap();
    let original = dyn_agent.clone();
    let err = match dyn_agent.downcast::<OtherAgent>() {
        Ok(_) => panic!("expected downcast to OtherAgent to fail"),
        Err(err) => err,
    };

    assert!(Arc::ptr_eq(&err, &original));
    assert_eq!(err.name(), "example_agent");
    assert_eq!(err.label(), "test-label");
}

#[test]
fn both_downcasts_agree_and_reach_the_same_agent() {
    let agent = Arc::new(ExampleAgent { id: 13 });
    let mut agent_set = AgentSet::<TestAgentContext>::new();
    agent_set.add(agent.clone(), None).unwrap();

    let found = agent_set.get("EXAMPLE_AGENT").unwrap();
    assert!(std::ptr::eq(found.downcast_ref::<ExampleAgent>().unwrap(), &*agent));
    assert!(found.clone().downcast::<ExampleAgent>().is_ok());
    assert!(found.downcast_ref::<OtherAgent>().is_none());
    assert!(found.clone().downcast::<OtherAgent>().is_err());
    assert!(found.downcast_ref::<ExampleAgent>().is_some());
}

#[test]
fn type_test_predicts_downcasts() {
    let mut agent_set = AgentSet::<TestAgentContext>::new();
    agent_set.add(Arc::new(ExampleAgent { id: 15 }), None).unwrap();
    agent_set.add(Arc::new(OtherAgent), None).unwrap();

    let example = agent_set.get("example_agent").unwrap();
    assert!(is_type::<ExampleAgent>(example.as_any()));
    assert!(!is_type::<OtherAgent>(example.as_any()));
    assert!(is_type::<ExampleAgent>(&example.into_any()));
    let other = agent_set.get("other_agent").unwrap();
    assert!(is_type::<OtherAgent>(other.as_any()));
    assert!(!is_type::<ExampleAgent>(other.as_any()));
    assert!(other.downcast_ref::<OtherAgent>().is_some());
    assert!(other.downcast_ref::<ExampleAgent>().is_none());
}
