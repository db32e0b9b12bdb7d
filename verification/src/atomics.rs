//! The workflow document's building blocks: configuration, tasks and their
//! chat messages, edges with conditions and fallbacks, the return-value
//! recipe, post-processing steps, and condition expressions.

use vstd::prelude::*;
use crate::io::{Input, InputValue, Output};
use crate::numbers::{parse_dec, dec_cmp, parse_decimal, compare_decimal};
use crate::strings::{contains_seq, contains_str, str_eq};

verus! {

/// Reserved key for caller-supplied input.
pub const R_INPUT: &'static str = "__input";

/// Reserved sentinel in an output's value: store the operator's result.
pub const R_OUTPUT: &'static str = "__result";

/// Reserved edge source that terminates the workflow.
pub const R_END: &'static str = "__end";

/// Whether `name` is one of the built-in tools.
pub open spec fn known_tool(name: Seq<char>) -> bool {
    name == "browserless"@ || name == "jina"@ || name == "serper"@ || name == "duckduckgo"@
        || name == "stock"@ || name == "scraper"@
}

/// Executable test for [`known_tool`].
pub fn is_known_tool(name: &str) -> (r: bool)
    ensures
        r == known_tool(name@),
{
    str_eq(name, "browserless") || str_eq(name, "jina") || str_eq(name, "serper") || str_eq(
        name,
        "duckduckgo",
    ) || str_eq(name, "stock") || str_eq(name, "scraper")
}

/// Whether every name in the list is a built-in tool.
pub fn in_tools(tools: &Vec<String>) -> (r: bool)
    ensures
        r == forall|i: int| 0 <= i < tools@.len() ==> known_tool(tools@[i]@),
{
    let n = tools.len();
    let mut i: usize = 0;
    while i < n
        invariant
            n == tools@.len(),
            i <= n,
            forall|j: int| 0 <= j < i ==> known_tool(tools@[j]@),
        decreases n - i,
    {
        if !is_known_tool(tools[i].as_str()) {
            return false;
        }
        i += 1;
    }
    true
}

/// A user-defined tool template: an opaque parameter schema for raw mode, or
/// a declared HTTP request. Headers and body are string-keyed pairs; the
/// parameter schema is JSON text.
#[derive(Debug)]
#[verifier::ext_equal]
pub enum CustomToolModeTemplate {
    Custom { parameters: String },
    HttpRequest {
        url: String,
        method: String,
        headers: Vec<(String, String)>,
        body: Vec<(String, String)>,
    },
}

/// A user-defined tool's declaration.
#[derive(Debug)]
#[verifier::ext_equal]
pub struct CustomToolTemplate {
    pub name: String,
    pub description: String,
    pub mode: CustomToolModeTemplate,
}

/// Configuration for the workflow.
#[derive(Debug)]
pub struct Config {
    /// Maximum number of steps to execute; the run halts afterwards.
    pub max_steps: u32,
    /// Maximum execution time in seconds; the run halts afterwards.
    pub max_time: u64,
    /// Names of the tools the workflow may use.
    pub tools: Vec<String>,
    /// User-defined tools appended to the resolved list.
    pub custom_tools: Option<Vec<CustomToolTemplate>>,
    /// Maximum number of tokens to generate per call.
    pub max_tokens: Option<i32>,
}

/// The effect kind of a task.
#[derive(Debug, Clone, Copy, PartialEq, Eq, Structural)]
pub enum Operator {
    Generation,
    FunctionCalling,
    FunctionCallingRaw,
    Search,
    Sample,
    End,
}

/// One chat message: a role and its content.
#[derive(Debug)]
pub struct MessageInput {
    pub role: String,
    pub content: String,
}

impl MessageInput {
    /// A new message for the `assistant` role.
    pub fn new_assistant_message(content: &str) -> (r: MessageInput)
        ensures
            r.role@ == "assistant"@,
            r.content@ == content@,
    {
        MessageInput { role: "assistant".to_owned(), content: content.to_owned() }
    }

    /// A new message for the `user` role.
    pub fn new_user_message(content: &str) -> (r: MessageInput)
        ensures
            r.role@ == "user"@,
            r.content@ == content@,
    {
        MessageInput { role: "user".to_owned(), content: content.to_owned() }
    }

    /// A copy with the same role and content.
    pub fn duplicate(&self) -> (r: MessageInput)
        ensures
            r.role@ == self.role@,
            r.content@ == self.content@,
    {
        MessageInput { role: self.role.clone(), content: self.content.clone() }
    }
}

/// One task: an identifier, chat messages with `{name}` placeholders, the
/// operator, declared inputs and outputs, and an optional base64-encoded
/// JSON-Schema for structured output.
#[derive(Debug)]
pub struct Task {
    pub id: String,
    pub name: String,
    pub description: String,
    pub messages: Vec<MessageInput>,
    pub operator: Operator,
    pub inputs: Vec<Input>,
    pub outputs: Vec<Output>,
    pub schema: Option<String>,
}

impl Task {
    /// Append a chat-history entry for the `assistant` role.
    pub fn append_assistant_message(&mut self, content: &str)
        ensures
            final(self).messages@.len() == old(self).messages@.len() + 1,
            final(self).messages@.last().role@ == "assistant"@,
            final(self).messages@.last().content@ == content@,
            forall|i: int|
                0 <= i < old(self).messages@.len() ==> final(self).messages@[i] == old(
                    self,
                ).messages@[i],
            final(self).id == old(self).id,
            final(self).operator == old(self).operator,
    {
        self.messages.push(MessageInput::new_assistant_message(content));
    }

    /// Append a chat-history entry for the `user` role.
    pub fn append_user_message(&mut self, content: &str)
        ensures
            final(self).messages@.len() == old(self).messages@.len() + 1,
            final(self).messages@.last().role@ == "user"@,
            final(self).messages@.last().content@ == content@,
            forall|i: int|
                0 <= i < old(self).messages@.len() ==> final(self).messages@[i] == old(
                    self,
                ).messages@[i],
            final(self).id == old(self).id,
            final(self).operator == old(self).operator,
    {
        self.messages.push(MessageInput::new_user_message(content));
    }
}

/// The return-value recipe's source: one reference or a list of them.
#[derive(Debug)]
pub enum TaskOutputInput {
    Single(InputValue),
    Multiple(Vec<InputValue>),
}

/// A post-processing step applied to the returned string.
#[derive(Debug)]
pub struct TaskPostProcess {
    pub process_type: PostProcessType,
    pub lhs: Option<String>,
    pub rhs: Option<String>,
}

/// The kinds of post-processing steps.
#[derive(Debug, Clone, Copy, PartialEq, Eq, Structural)]
pub enum PostProcessType {
    Replace,
    Append,
    Prepend,
    Trim,
    TrimStart,
    TrimEnd,
    ToLower,
    ToUpper,
}

/// The return-value recipe: what to read, whether to JSON-encode, and the
/// post-processing pipeline.
#[derive(Debug)]
pub struct TaskOutput {
    pub input: TaskOutputInput,
    pub to_json: Option<bool>,
    pub post_process: Option<Vec<TaskPostProcess>>,
}

/// A directed transition between tasks. A source of `__end` terminates the
/// workflow; `condition` branches on task success; `fallback` is taken on
/// task failure.
#[derive(Debug)]
pub struct Edge {
    pub source: String,
    pub target: String,
    pub condition: Option<Condition>,
    pub fallback: Option<String>,
}

/// A condition on an edge: resolve `input`, compare with `expected` under
/// `expression`; on failure continue at `target_if_not`.
#[derive(Debug)]
pub struct Condition {
    pub input: InputValue,
    pub expected: String,
    pub expression: Expression,
    pub target_if_not: String,
}

/// A comparison predicate used in conditions.
#[derive(Debug, Clone, Copy, PartialEq, Eq, Structural)]
pub enum Expression {
    Equal,
    NotEqual,
    Contains,
    NotContains,
    GreaterThan,
    LessThan,
    GreaterThanOrEqual,
    LessThanOrEqual,
    HaveSimilar,
}

/// What a pure expression decides on two texts. The ordering expressions
/// compare the operands as decimal numerals and are false when either does
/// not parse. `HaveSimilar` is decided against the file store, not here, and
/// reads as false.
pub open spec fn eval_expr(e: Expression, input: Seq<char>, expected: Seq<char>) -> bool {
    match e {
        Expression::Equal => input == expected,
        Expression::NotEqual => input != expected,
        Expression::Contains => contains_seq(input, expected),
        Expression::NotContains => !contains_seq(input, expected),
        Expression::GreaterThan => match (parse_dec(input), parse_dec(expected)) {
            (Option::Some(a), Option::Some(b)) => dec_cmp(a, b) == 1,
            _ => false,
        },
        Expression::LessThan => match (parse_dec(input), parse_dec(expected)) {
            (Option::Some(a), Option::Some(b)) => dec_cmp(a, b) == -1,
            _ => false,
        },
        Expression::GreaterThanOrEqual => match (parse_dec(input), parse_dec(expected)) {
            (Option::Some(a), Option::Some(b)) => dec_cmp(a, b) >= 0,
            _ => false,
        },
        Expression::LessThanOrEqual => match (parse_dec(input), parse_dec(expected)) {
            (Option::Some(a), Option::Some(b)) => dec_cmp(a, b) <= 0,
            _ => false,
        },
        Expression::HaveSimilar => false,
    }
}

impl Expression {
    /// Decide a pure expression on two texts, exactly as [`eval_expr`]
    /// describes.
    pub fn evaluate(&self, input: &str, expected: &str) -> (r: bool)
        ensures
            r == eval_expr(*self, input@, expected@),
    {
        match self {
            Expression::Equal => str_eq(input, expected),
            Expression::NotEqual => !str_eq(input, expected),
            Expression::Contains => contains_str(input, expected),
            Expression::NotContains => !contains_str(input, expected),
            Expression::GreaterThan => match (parse_decimal(input), parse_decimal(expected)) {
                (Some(a), Some(b)) => compare_decimal(&a, &b) == 1,
                _ => false,
            },
            Expression::LessThan => match (parse_decimal(input), parse_decimal(expected)) {
                (Some(a), Some(b)) => compare_decimal(&a, &b) == -1,
                _ => false,
            },
            Expression::GreaterThanOrEqual => match (
                parse_decimal(input),
                parse_decimal(expected),
            ) {
                (Some(a), Some(b)) => compare_decimal(&a, &b) >= 0,
                _ => false,
            },
            Expression::LessThanOrEqual => match (parse_decimal(input), parse_decimal(expected)) {
                (Some(a), Some(b)) => compare_decimal(&a, &b) <= 0,
                _ => false,
            },
            Expression::HaveSimilar => false,
        }
    }
}

} // verus!
