//! The error kinds the engine surfaces. The kinds the interpreter reports
//! through carry a `message` method whose exact text is part of its
//! contract, standing in for the usual formatting traits.

use vstd::prelude::*;
use crate::strings::concat2;

verus! {

/// Failure of tool-list resolution.
#[derive(Debug)]
pub enum ToolError {
    ToolDoesNotExist,
}

/// Failure of a cache lookup or insertion.
#[derive(Debug)]
pub enum CacheError {
    NotFound(String),
    InsertionFailed(String),
}

/// Failure of the semantic document store.
#[derive(Debug)]
pub enum SemanticCacheError {
    InvalidKey(String),
    InsertionFailed(String),
    SearchError,
    EmbeddingError(EmbeddingError),
}

/// Failure of a stack operation.
#[derive(Debug)]
pub enum StackError {
    Overflow,
    Underflow,
}

/// Failure while producing an embedding for a document or query.
#[derive(Debug)]
pub enum EmbeddingError {
    DocumentEmbedding(String),
    QueryEmbedding(String),
    ModelDoesNotExist,
}

/// Failure of the file store. The threshold of a similarity check is held in
/// millionths of cosine similarity; a valid one lies in [0, 1000000].
#[derive(Debug)]
pub enum FileSystemError {
    InsertionFailed(String),
    SearchError,
    EmbeddingError(EmbeddingError),
    InvalidThreshold(u64),
}

/// Failure of a workflow execution or of one task operator.
#[derive(Debug)]
pub enum ExecutionError {
    WorkflowFailed(String),
    InvalidInput,
    GenerationFailed(String),
    FunctionCallFailed(String),
    WebSearchFailed(String),
    VectorSearchFailed,
    StringCheckFailed,
    SamplingError,
    InvalidGetAllError,
    UnexpectedOutput,
}

/// Any error of the engine, for callers that fold them together.
#[derive(Debug)]
pub enum CustomError {
    FileSystemError(FileSystemError),
    EmbeddingError(EmbeddingError),
    ToolError(ToolError),
    ExecutionError(ExecutionError),
}

/// The message text of an execution error.
pub open spec fn execution_error_text(e: ExecutionError) -> Seq<char> {
    match e {
        ExecutionError::WorkflowFailed(cmd) => "Workflow execution failed: "@ + cmd@,
        ExecutionError::InvalidInput => "Invalid input provided"@,
        ExecutionError::UnexpectedOutput => "Unexpected output from command"@,
        ExecutionError::GenerationFailed(d) => "Text generation failed "@ + d@,
        ExecutionError::FunctionCallFailed(d) => "Function call failed "@ + d@,
        ExecutionError::WebSearchFailed(d) => "Web search failed "@ + d@,
        ExecutionError::VectorSearchFailed => "Vector search failed"@,
        ExecutionError::StringCheckFailed => "String check failed"@,
        ExecutionError::SamplingError => "Error sampling because value array is empty"@,
        ExecutionError::InvalidGetAllError => (
        "Error sampling because value is not get_all compatible (array)"@),
    }
}

impl ExecutionError {
    /// Render the error as text.
    pub fn message(&self) -> (r: String)
        ensures
            r@ == execution_error_text(*self),
    {
        match self {
            ExecutionError::WorkflowFailed(cmd) => concat2(
                "Workflow execution failed: ",
                cmd.as_str(),
            ),
            ExecutionError::InvalidInput => "Invalid input provided".to_owned(),
            ExecutionError::UnexpectedOutput => "Unexpected output from command".to_owned(),
            ExecutionError::GenerationFailed(d) => concat2("Text generation failed ", d.as_str()),
            ExecutionError::FunctionCallFailed(d) => concat2(
                "Function call failed ",
                d.as_str(),
            ),
            ExecutionError::WebSearchFailed(d) => concat2("Web search failed ", d.as_str()),
            ExecutionError::VectorSearchFailed => "Vector search failed".to_owned(),
            ExecutionError::StringCheckFailed => "String check failed".to_owned(),
            ExecutionError::SamplingError => "Error sampling because value array is empty"
                .to_owned(),
            ExecutionError::InvalidGetAllError => {
                "Error sampling because value is not get_all compatible (array)".to_owned()
            },
        }
    }

    /// A copy with the same value.
    pub fn duplicate(&self) -> (r: ExecutionError)
        ensures
            r == *self,
    {
        match self {
            ExecutionError::WorkflowFailed(cmd) => ExecutionError::WorkflowFailed(cmd.clone()),
            ExecutionError::InvalidInput => ExecutionError::InvalidInput,
            ExecutionError::UnexpectedOutput => ExecutionError::UnexpectedOutput,
            ExecutionError::GenerationFailed(d) => ExecutionError::GenerationFailed(d.clone()),
            ExecutionError::FunctionCallFailed(d) => ExecutionError::FunctionCallFailed(
                d.clone(),
            ),
            ExecutionError::WebSearchFailed(d) => ExecutionError::WebSearchFailed(d.clone()),
            ExecutionError::VectorSearchFailed => ExecutionError::VectorSearchFailed,
            ExecutionError::StringCheckFailed => ExecutionError::StringCheckFailed,
            ExecutionError::SamplingError => ExecutionError::SamplingError,
            ExecutionError::InvalidGetAllError => ExecutionError::InvalidGetAllError,
        }
    }
}

/// The message text of a tool error.
pub open spec fn tool_error_text(e: ToolError) -> Seq<char> {
    "Tool does not exist"@
}

impl ToolError {
    /// Render the error as text.
    pub fn message(&self) -> (r: String)
        ensures
            r@ == tool_error_text(*self),
    {
        "Tool does not exist".to_owned()
    }
}

} // verus!
