//! Input and output declarations of a task: where a value comes from in
//! memory and where a result goes.

use vstd::prelude::*;

verus! {

/// How an input value is resolved from memory.
#[derive(Debug, Clone, Copy, PartialEq, Eq, Structural)]
pub enum InputValueType {
    Input,
    Read,
    Pop,
    Peek,
    GetAll,
    Size,
    String,
}

/// A nested lookup used by some search inputs.
#[derive(Debug)]
pub struct SearchQuery {
    pub value_type: InputValueType,
    pub key: String,
}

/// A reference to a value: the kind selector, the key it applies to, and for
/// `Peek` an optional index (default 0).
#[derive(Debug)]
pub struct InputValue {
    pub value_type: InputValueType,
    pub index: Option<usize>,
    pub search_query: Option<SearchQuery>,
    pub key: String,
}

/// A declared task input: its name binds the resolved value in prompt
/// templates; a required input that resolves to nothing fails the task.
#[derive(Debug)]
pub struct Input {
    pub name: String,
    pub value: InputValue,
    pub required: bool,
}

/// Where an output is committed: the cache, the file store, or a stack.
#[derive(Debug, Clone, Copy, PartialEq, Eq, Structural)]
pub enum OutputType {
    Write,
    Insert,
    Push,
}

/// A declared task output: the destination kind, the key, and the value —
/// either the sentinel `__result` or a literal to store instead.
#[derive(Debug)]
pub struct Output {
    pub output_type: OutputType,
    pub key: String,
    pub value: String,
}

impl InputValue {
    /// A literal-value reference: `key` itself is the value.
    pub fn literal(key: &str) -> (r: InputValue)
        ensures
            r.value_type == InputValueType::String,
            r.key@ == key@,
            r.index is None,
    {
        InputValue {
            value_type: InputValueType::String,
            index: None,
            search_query: None,
            key: key.to_owned(),
        }
    }

    /// A cache-read reference for `key`.
    pub fn read(key: &str) -> (r: InputValue)
        ensures
            r.value_type == InputValueType::Read,
            r.key@ == key@,
            r.index is None,
    {
        InputValue {
            value_type: InputValueType::Read,
            index: None,
            search_query: None,
            key: key.to_owned(),
        }
    }
}

} // verus!
