//! Bridge core between a dynamically typed scripting runtime and a statically
//! typed entity-component store.
//!
//! Script code names component types by string, builds payloads out of tagged
//! dynamic values, and submits commands over a bus; once per tick a processor
//! drains the bus, applies each command to the store through the type and
//! conversion registries, and answers every command with exactly one response.

pub mod aethaum_predefined;
pub mod bus;
pub mod code_generator;
pub mod dynamic;
pub mod ecs;
pub mod execution_context;
pub mod project_template;
pub mod reflection;
pub mod store;
