//! A verified core for a tool-calling agent: a registry of host functions
//! advertised to a chat model, a dispatcher that decodes untrusted argument
//! payloads and encodes typed results, the state machine of the multi-turn
//! conversation, and the outer convergence cycle that re-prompts the model
//! with build diagnostics until the produced project compiles or the model
//! stops making progress.
pub mod chat;
pub mod convergence;
pub mod function;
pub mod json;
pub mod project;
