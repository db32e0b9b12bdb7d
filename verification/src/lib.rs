//! A declarative workflow engine for orchestrating language-model tasks.
//!
//! A workflow is a JSON-described graph of tasks (prompt templates paired with
//! an operator such as text generation, function calling or sampling), edges
//! with conditions and fallbacks, a typed memory that carries values between
//! tasks, and a return-value recipe. The interpreter in [`executor`] walks the
//! graph, resolves task inputs from [`memory`], dispatches on the operator,
//! writes outputs back, and finally assembles and post-processes the return
//! value. Network calls (model providers, tools, embeddings) are performed by
//! the embedding program; the interpreter hands it fully prepared actions and
//! consumes their plain results.

pub mod atomics;
pub mod entry;
pub mod errors;
pub mod executor;
pub mod outside;
pub mod io;
pub mod jsontext;
pub mod memory;
pub mod models;
pub mod numbers;
pub mod strings;
pub mod tools;
pub mod workflow;

pub use atomics::{MessageInput, Task};
pub use entry::Entry;
pub use executor::{Execution, Executor};
pub use memory::ProgramMemory;
pub use models::{Model, ModelProvider};
pub use workflow::Workflow;
