//! Agents, described, registered and looked up by name.
//!
//! - [`agent`]: the [`Agent`] trait, and [`DynAgent`] for dispatch through trait objects.
//! - [`defaults`]: what an agent does by default.
//! - [`erased`]: agents with their types hidden, for downcasts.
//! - [`registry`]: [`AgentSet`], the registry of agents by name.
//! - [`names`] and [`order`]: the rules of names, and the order in which they are listed.
//! - [`function`] and [`json`]: the definitions under which agents are offered for calls.
//! - [`schema`]: what a JSON schema accepts.
//! - [`resource`]: resources and their routing to the components that can consume them.
//! - [`error`]: why an agent cannot be registered.
//! - [`laws`]: what holds of the registry as a whole.
//! - [`operations`]: what each operation gives, in terms of what it is called on.
pub mod agent;
pub mod defaults;
pub mod erased;
pub mod error;
pub mod function;
pub mod json;
pub mod laws;
pub mod names;
pub mod operations;
pub mod order;
pub mod registry;
pub mod resource;
pub mod schema;

pub use agent::{Agent, AgentContext, AgentRef, DynAgent};
pub use error::AgentError;
pub use function::{AgentArgs, Function, FunctionDefinition};
pub use json::Json;
pub use names::{validate_function_name, NameError};
pub use registry::AgentSet;
pub use resource::{select_resources, Resource};
