//! The interpreter. One [`Execution`] owns a workflow and its memory and
//! walks the task graph: it resolves inputs, fills prompt templates,
//! dispatches on the operator, writes outputs, evaluates edge conditions and
//! fallbacks, and finally assembles the return value. Work that needs the
//! network — a model call, a web search, a similarity score — is handed out
//! as a prepared action; the caller performs it and hands back the plain
//! result, and every decision on either side of that exchange is verified.

use vstd::prelude::*;
use vstd::string::StrSliceExecFns;
use vstd::string::StringExecFns;
use crate::atomics::{
    Expression, MessageInput, Operator, PostProcessType, Task, TaskOutput, TaskOutputInput,
    TaskPostProcess, eval_expr,
};
use crate::entry::{
    Entry, EntryModel, MemoryReturnType, entry_content, entry_from_spec, mrt_is_none, mrt_string,
    mrt_to_json, entries_joined,
};
use crate::errors::ExecutionError;
use crate::io::{Input, InputValue, InputValueType, Output, OutputType};
use crate::memory::{MemModel, ProgramMemory, insert_content, kept_from, stack_page, stack_size};
use crate::outside::chunks_of;
use crate::models::Model;
use crate::outside::{
    b64_decode, b64_standard_of, json_field_str, json_field_u64, json_str_field, json_u64_field,
    lower_of, to_lower, to_upper, upper_of, utf8_lossy, utf8_lossy_of, random_below,
};
use crate::strings::{
    concat2, concat3, replace_all, replace_all_spec, trim_both, trim_end, trim_spec,
    trim_end_spec, trim_start, trim_start_spec,
};
use crate::numbers::dec_str;
use crate::workflow::Workflow;

verus! {

/// Reasoning tokens wrapped in think tags and prepended to the content.
pub fn wrap_reasoning(reasoning: &str, content: &str) -> (r: String)
    ensures
        r@ == "<think>\n"@ + reasoning@ + "\n</think>\n\n"@ + content@,
{
    let mut res = "<think>\n".to_owned();
    res.append(reasoning);
    res.append("\n</think>\n\n");
    res.append(content);
    res
}

/// Decode a base64-encoded schema to text; nothing when the encoding is
/// invalid.
pub fn decode_schema(schema: &str) -> (r: Option<String>)
    ensures
        match b64_standard_of(schema@) {
            Option::Some(bytes) => r matches Some(t) && t@ == utf8_lossy_of(bytes),
            Option::None => r is None,
        },
{
    match b64_decode(schema) {
        Some(bytes) => Some(utf8_lossy(&bytes)),
        None => None,
    }
}

/// The placeholder text a name binds: `{name}`.
pub open spec fn placeholder(name: Seq<char>) -> Seq<char> {
    seq!['{'] + name + seq!['}']
}

/// The content after the bound pairs from index `i` on are substituted, one
/// after the other, each replacing every `{name}` by its value.
pub open spec fn fill_content(
    content: Seq<char>,
    pairs: Seq<(Seq<char>, Seq<char>)>,
    i: int,
) -> Seq<char>
    decreases pairs.len() - i,
{
    if i < 0 || i >= pairs.len() {
        content
    } else {
        fill_content(replace_all_spec(content, placeholder(pairs[i].0), pairs[i].1), pairs, i + 1)
    }
}

/// Substitute every bound pair into one content string.
pub fn fill_one(content: &str, pairs: &Vec<(String, String)>) -> (r: String)
    ensures
        r@ == fill_content(content@, crate::tools::pairs_views(pairs@), 0),
{
    let ghost pv = crate::tools::pairs_views(pairs@);
    let mut cur = content.to_owned();
    let n = pairs.len();
    let mut i: usize = 0;
    while i < n
        invariant
            pv == crate::tools::pairs_views(pairs@),
            n == pairs@.len(),
            i <= n,
            fill_content(content@, pv, 0) == fill_content(cur@, pv, i as int),
        decreases n - i,
    {
        proof {
            reveal_strlit("{");
            reveal_strlit("}");
            assert("{"@ =~= seq!['{']);
            assert("}"@ =~= seq!['}']);
        }
        let pat = concat3("{", pairs[i].0.as_str(), "}");
        proof {
            assert(pat@ =~= placeholder(pv[i as int].0));
        }
        cur = replace_all(cur.as_str(), pat.as_str(), pairs[i].1.as_str());
        i += 1;
    }
    cur
}

/// Fill every message's content, preserving roles.
pub fn fill_prompt(messages: &Vec<MessageInput>, pairs: &Vec<(String, String)>) -> (r: Vec<
    MessageInput,
>)
    ensures
        r@.len() == messages@.len(),
        forall|i: int|
            0 <= i < messages@.len() ==> r@[i].role@ == messages@[i].role@ && r@[i].content@
                == fill_content(
                messages@[i].content@,
                crate::tools::pairs_views(pairs@),
                0,
            ),
{
    let mut out: Vec<MessageInput> = Vec::new();
    let n = messages.len();
    let mut i: usize = 0;
    while i < n
        invariant
            n == messages@.len(),
            i <= n,
            out@.len() == i,
            forall|j: int|
                0 <= j < i ==> out@[j].role@ == messages@[j].role@ && out@[j].content@
                    == fill_content(
                    messages@[j].content@,
                    crate::tools::pairs_views(pairs@),
                    0,
                ),
        decreases n - i,
    {
        let filled = fill_one(messages[i].content.as_str(), pairs);
        out.push(MessageInput { role: messages[i].role.clone(), content: filled });
        i += 1;
    }
    out
}

/// The content of the last filled message; empty when there are none.
pub open spec fn last_filled(
    messages: Seq<MessageInput>,
    pairs: Seq<(Seq<char>, Seq<char>)>,
) -> Seq<char> {
    if messages.len() == 0 {
        Seq::empty()
    } else {
        fill_content(messages.last().content@, pairs, 0)
    }
}

/// The string after one post-processing step. A step missing a required
/// operand changes nothing.
pub open spec fn apply_step(s: Seq<char>, p: TaskPostProcess) -> Seq<char> {
    match p.process_type {
        PostProcessType::Replace => match (p.lhs, p.rhs) {
            (Option::Some(l), Option::Some(r)) => replace_all_spec(s, l@, r@),
            _ => s,
        },
        PostProcessType::Append => match p.rhs {
            Option::Some(r) => s + r@,
            Option::None => s,
        },
        PostProcessType::Prepend => match p.lhs {
            Option::Some(l) => l@ + s,
            Option::None => s,
        },
        PostProcessType::ToLower => lower_of(s),
        PostProcessType::ToUpper => upper_of(s),
        PostProcessType::Trim => trim_spec(s),
        PostProcessType::TrimStart => trim_start_spec(s),
        PostProcessType::TrimEnd => trim_end_spec(s),
    }
}

/// The string after the pipeline steps from index `i` on.
pub open spec fn apply_pipeline(s: Seq<char>, ps: Seq<TaskPostProcess>, i: int) -> Seq<char>
    decreases ps.len() - i,
{
    if i < 0 || i >= ps.len() {
        s
    } else {
        apply_pipeline(apply_step(s, ps[i]), ps, i + 1)
    }
}

/// Run the post-processing pipeline in declared order.
pub fn post_process(s: String, ps: &Vec<TaskPostProcess>) -> (r: String)
    ensures
        r@ == apply_pipeline(s@, ps@, 0),
{
    let ghost s0 = s@;
    let mut cur = s;
    let n = ps.len();
    let mut i: usize = 0;
    while i < n
        invariant
            n == ps@.len(),
            i <= n,
            apply_pipeline(s0, ps@, 0) == apply_pipeline(cur@, ps@, i as int),
        decreases n - i,
    {
        let ghost pre = cur@;
        let step = &ps[i];
        match step.process_type {
            PostProcessType::Replace => {
                match (&step.lhs, &step.rhs) {
                    (Some(l), Some(r)) => {
                        cur = replace_all(cur.as_str(), l.as_str(), r.as_str());
                    },
                    _ => {},
                }
            },
            PostProcessType::Append => {
                match &step.rhs {
                    Some(r) => {
                        cur.append(r.as_str());
                    },
                    None => {},
                }
            },
            PostProcessType::Prepend => {
                match &step.lhs {
                    Some(l) => {
                        cur = concat2(l.as_str(), cur.as_str());
                    },
                    None => {},
                }
            },
            PostProcessType::ToLower => {
                cur = to_lower(cur.as_str());
            },
            PostProcessType::ToUpper => {
                cur = to_upper(cur.as_str());
            },
            PostProcessType::Trim => {
                cur = trim_both(cur.as_str());
            },
            PostProcessType::TrimStart => {
                cur = trim_start(cur.as_str());
            },
            PostProcessType::TrimEnd => {
                cur = trim_end(cur.as_str());
            },
        }
        proof {
            assert(cur@ == apply_step(pre, ps@[i as int]));
            assert(apply_pipeline(pre, ps@, i as int) == apply_pipeline(cur@, ps@, i + 1));
        }
        i += 1;
    }
    cur
}

/// An entry read from the memory model: one optional value, or an optional
/// page.
pub enum ResolvedModel {
    One(Option<EntryModel>),
    Many(Option<Seq<EntryModel>>),
}

/// The cache value under `k`, if any.
pub open spec fn cache_get(m: MemModel, k: Seq<char>) -> Option<EntryModel> {
    if m.cache.contains_key(k) {
        Option::Some(m.cache[k])
    } else {
        Option::None
    }
}

/// What an input reference resolves to against a memory model.
pub open spec fn resolved_model(m: MemModel, iv: InputValue) -> ResolvedModel {
    match iv.value_type {
        InputValueType::Input => ResolvedModel::One(cache_get(m, "__input"@)),
        InputValueType::Read => ResolvedModel::One(cache_get(m, iv.key@)),
        InputValueType::Peek => {
            let page = stack_page(m, iv.key@);
            let idx = match iv.index {
                Option::Some(i) => i as int,
                Option::None => 0,
            };
            ResolvedModel::One(
                if idx < page.len() {
                    Option::Some(page[idx])
                } else {
                    Option::None
                },
            )
        },
        InputValueType::GetAll => ResolvedModel::Many(
            if m.stacks.contains_key(iv.key@) {
                Option::Some(m.stacks[iv.key@])
            } else {
                Option::None
            },
        ),
        InputValueType::Pop => {
            let page = stack_page(m, iv.key@);
            ResolvedModel::One(
                if page.len() > 0 {
                    Option::Some(page.last())
                } else {
                    Option::None
                },
            )
        },
        InputValueType::String => ResolvedModel::One(Option::Some(entry_from_spec(iv.key@))),
        InputValueType::Size => ResolvedModel::One(
            Option::Some(entry_from_spec(dec_str(stack_size(m, iv.key@)))),
        ),
    }
}

/// The memory model after an input reference is resolved: a pop removes the
/// entry it returned, everything else reads only.
pub open spec fn resolved_state(m: MemModel, iv: InputValue) -> MemModel {
    if iv.value_type == InputValueType::Pop {
        let page = stack_page(m, iv.key@);
        if page.len() > 0 {
            MemModel { stacks: m.stacks.insert(iv.key@, page.drop_last()), ..m }
        } else {
            m
        }
    } else {
        m
    }
}

/// Emptiness of a resolved value.
pub open spec fn rm_is_none(r: ResolvedModel) -> bool {
    match r {
        ResolvedModel::One(e) => e is None,
        ResolvedModel::Many(p) => p is None,
    }
}

/// Joined rendering of a page of entry models, each followed by `" \n"`.
pub open spec fn joined_models(page: Seq<EntryModel>) -> Seq<char>
    decreases page.len(),
{
    if page.len() == 0 {
        Seq::empty()
    } else {
        entry_content(page[0]) + seq![' ', '\n'] + joined_models(page.drop_first())
    }
}

/// The string rendering of a resolved value.
pub open spec fn rm_string(r: ResolvedModel) -> Seq<char> {
    match r {
        ResolvedModel::One(e) => match e {
            Option::Some(v) => entry_content(v),
            Option::None => Seq::empty(),
        },
        ResolvedModel::Many(p) => match p {
            Option::Some(page) => joined_models(page),
            Option::None => Seq::empty(),
        },
    }
}

/// Whether an envelope the interpreter holds carries exactly a resolved
/// value.
pub open spec fn mrt_matches(x: MemoryReturnType, r: ResolvedModel) -> bool {
    match r {
        ResolvedModel::One(o) => x matches MemoryReturnType::Entry(e) && (match o {
            Option::Some(v) => e matches Some(en) && en@ == v,
            Option::None => e is None,
        }),
        ResolvedModel::Many(p) => x matches MemoryReturnType::EntryVec(ev) && (match p {
            Option::Some(page) => ev matches Some(es) && es@.len() == page.len() && forall|
                j: int,
            | 0 <= j < page.len() ==> es@[j]@ == page[j],
            Option::None => ev is None,
        }),
    }
}

/// Entries whose views form a page render, joined, as the page renders.
pub proof fn lemma_joined(es: Seq<Entry>, page: Seq<EntryModel>)
    requires
        es.len() == page.len(),
        forall|j: int| 0 <= j < page.len() ==> es[j]@ == page[j],
    ensures
        entries_joined(es) == joined_models(page),
    decreases es.len(),
{
    if es.len() > 0 {
        assert(es[0]@ == page[0]);
        assert forall|j: int|
            0 <= j < page.drop_first().len() implies es.drop_first()[j]@ == page.drop_first()[j]
        by {
            assert(es.drop_first()[j] == es[j + 1]);
        }
        lemma_joined(es.drop_first(), page.drop_first());
    }
}

/// A matching envelope is empty exactly when the resolved value is, and
/// renders as the resolved value renders.
pub proof fn lemma_mrt_matches(x: MemoryReturnType, r: ResolvedModel)
    requires
        mrt_matches(x, r),
    ensures
        mrt_is_none(x) == rm_is_none(r),
        mrt_string(x) == rm_string(r),
{
    match r {
        ResolvedModel::One(_) => {},
        ResolvedModel::Many(p) => {
            match p {
                Option::Some(page) => {
                    match x {
                        MemoryReturnType::EntryVec(Some(es)) => {
                            lemma_joined(es@, page);
                        },
                        _ => {},
                    }
                },
                Option::None => {},
            }
        },
    }
}

/// Resolve one input reference against the memory, exactly as
/// [`resolved_model`] and [`resolved_state`] describe.
pub fn handle_input(memory: &mut ProgramMemory, input_value: &InputValue) -> (r:
    MemoryReturnType)
    requires
        old(memory).wf(),
    ensures
        final(memory).wf(),
        final(memory)@ == resolved_state(old(memory)@, *input_value),
        mrt_matches(r, resolved_model(old(memory)@, *input_value)),
{
    let ghost pre = memory@;
    let res = match input_value.value_type {
        InputValueType::Input => MemoryReturnType::Entry(memory.read("__input")),
        InputValueType::Read => MemoryReturnType::Entry(memory.read(input_value.key.as_str())),
        InputValueType::Peek => {
            let idx: usize = match &input_value.index {
                Some(i) => *i,
                None => 0,
            };
            MemoryReturnType::Entry(memory.peek(input_value.key.as_str(), idx))
        },
        InputValueType::GetAll => MemoryReturnType::EntryVec(
            memory.get_all(input_value.key.as_str()),
        ),
        InputValueType::Pop => MemoryReturnType::Entry(memory.pop(input_value.key.as_str())),
        InputValueType::String => MemoryReturnType::Entry(
            Some(Entry::try_value_or_str(input_value.key.as_str())),
        ),
        InputValueType::Size => {
            let n = memory.size(input_value.key.as_str());
            let rendered = crate::numbers::usize_to_string(n);
            MemoryReturnType::Entry(Some(Entry::try_value_or_str(rendered.as_str())))
        },
    };
    proof {
        assert(final(memory)@ =~~= resolved_state(pre, *input_value));
    }
    res
}

/// The entry an output stores: the operator's result entry under the
/// `__result` sentinel, the literal value parsed as an entry otherwise.
pub open spec fn output_data(result: EntryModel, value: Seq<char>) -> EntryModel {
    if value == "__result"@ {
        result
    } else {
        entry_from_spec(value)
    }
}

/// The memory model after one output is committed.
pub open spec fn write_output(m: MemModel, o: Output, result: EntryModel) -> MemModel {
    let data = output_data(result, o.value@);
    match o.output_type {
        OutputType::Write => MemModel { cache: m.cache.insert(o.key@, data), ..m },
        OutputType::Push => MemModel {
            stacks: m.stacks.insert(o.key@, stack_page(m, o.key@).push(data)),
            ..m
        },
        OutputType::Insert => match insert_content(data) {
            Option::Some(c) => MemModel { files: m.files + kept_from(chunks_of(c), 0), ..m },
            Option::None => m,
        },
    }
}

/// The memory model after the outputs from index `i` on are committed in
/// order.
pub open spec fn write_outputs(m: MemModel, outputs: Seq<Output>, result: EntryModel, i: int) -> (
    r: MemModel)
    decreases outputs.len() - i,
{
    if i < 0 || i >= outputs.len() {
        m
    } else {
        write_outputs(write_output(m, outputs[i], result), outputs, result, i + 1)
    }
}

/// Commit every declared output of the task, exactly as [`write_outputs`]
/// describes; `result` is the operator's result entry.
pub fn handle_output(task: &Task, result: &Entry, memory: &mut ProgramMemory)
    requires
        old(memory).wf(),
    ensures
        final(memory).wf(),
        final(memory)@ == write_outputs(old(memory)@, task.outputs@, result@, 0),
{
    let ghost res = result@;
    let ghost m0 = memory@;
    let n = task.outputs.len();
    let mut i: usize = 0;
    while i < n
        invariant
            old(memory).wf(),
            memory.wf(),
            n == task.outputs@.len(),
            i <= n,
            res == result@,
            write_outputs(m0, task.outputs@, res, 0) == write_outputs(
                memory@,
                task.outputs@,
                res,
                i as int,
            ),
        decreases n - i,
    {
        let ghost pre = memory@;
        let output = &task.outputs[i];
        let data: Entry = if !crate::strings::str_eq(output.value.as_str(), "__result") {
            Entry::try_value_or_str(output.value.as_str())
        } else {
            result.duplicate()
        };
        proof {
            assert(data@ == output_data(res, task.outputs@[i as int].value@));
        }
        match output.output_type {
            OutputType::Write => {
                memory.write(output.key.as_str(), data);
            },
            OutputType::Push => {
                memory.push(output.key.as_str(), data);
            },
            OutputType::Insert => {
                let _ = memory.insert(&data);
            },
        }
        proof {
            assert(memory@ =~~= write_output(pre, task.outputs@[i as int], res));
        }
        i += 1;
    }
}


/// The memory model after the first `k` inputs are resolved in order.
pub open spec fn state_after(m: MemModel, inputs: Seq<Input>, k: int) -> MemModel
    decreases k,
{
    if k <= 0 || k > inputs.len() {
        m
    } else {
        resolved_state(state_after(m, inputs, k - 1), inputs[k - 1].value)
    }
}

/// What input `j` resolves to, after the inputs before it are resolved.
pub open spec fn resolved_at(m: MemModel, inputs: Seq<Input>, j: int) -> ResolvedModel {
    resolved_model(state_after(m, inputs, j), inputs[j].value)
}

/// The first index below `k` whose input is required but resolves to
/// nothing; -1 when there is none.
pub open spec fn missing_upto(m: MemModel, inputs: Seq<Input>, k: int) -> int
    decreases k,
{
    if k <= 0 || k > inputs.len() {
        -1
    } else {
        let p = missing_upto(m, inputs, k - 1);
        if p != -1 {
            p
        } else if inputs[k - 1].required && rm_is_none(resolved_at(m, inputs, k - 1)) {
            k - 1
        } else {
            -1
        }
    }
}

pub proof fn lemma_missing_persists(m: MemModel, inputs: Seq<Input>, k: int, k2: int)
    requires
        0 <= k <= k2 <= inputs.len(),
        missing_upto(m, inputs, k) != -1,
    ensures
        missing_upto(m, inputs, k2) == missing_upto(m, inputs, k),
    decreases k2 - k,
{
    if k < k2 {
        lemma_missing_persists(m, inputs, k, k2 - 1);
    }
}

/// The name-to-rendered-value bindings of the first `k` inputs.
pub open spec fn pairs_upto(m: MemModel, inputs: Seq<Input>, k: int) -> Seq<
    (Seq<char>, Seq<char>),
>
    decreases k,
{
    if k <= 0 || k > inputs.len() {
        Seq::empty()
    } else {
        pairs_upto(m, inputs, k - 1).push(
            (inputs[k - 1].name@, rm_string(resolved_at(m, inputs, k - 1))),
        )
    }
}

/// Resolve every declared input in order; stops at the first required input
/// that resolves to nothing. Pops take effect up to and including the input
/// that stopped resolution.
fn resolve_inputs(memory: &mut ProgramMemory, inputs: &Vec<Input>) -> (r: Result<
    Vec<MemoryReturnType>,
    (),
>)
    requires
        old(memory).wf(),
    ensures
        final(memory).wf(),
        match r {
            Ok(out) => missing_upto(old(memory)@, inputs@, inputs@.len() as int) == -1
                && final(memory)@ == state_after(old(memory)@, inputs@, inputs@.len() as int)
                && out@.len() == inputs@.len() && forall|j: int|
                0 <= j < inputs@.len() ==> mrt_matches(
                    out@[j],
                    resolved_at(old(memory)@, inputs@, j),
                ),
            Err(_) => ({
                let w = missing_upto(old(memory)@, inputs@, inputs@.len() as int);
                w != -1 && final(memory)@ == state_after(old(memory)@, inputs@, w + 1)
            }),
        },
{
    let ghost m0 = memory@;
    let mut out: Vec<MemoryReturnType> = Vec::new();
    let n = inputs.len();
    let mut i: usize = 0;
    while i < n
        invariant
            old(memory).wf(),
            memory.wf(),
            n == inputs@.len(),
            i <= n,
            out@.len() == i,
            m0 == old(memory)@,
            memory@ == state_after(m0, inputs@, i as int),
            missing_upto(m0, inputs@, i as int) == -1,
            forall|j: int| 0 <= j < i ==> mrt_matches(out@[j], resolved_at(m0, inputs@, j)),
        decreases n - i,
    {
        let ghost pre = memory@;
        let value = handle_input(memory, &inputs[i].value);
        proof {
            assert(state_after(m0, inputs@, i + 1) == resolved_state(
                pre,
                inputs@[i as int].value,
            ));
            lemma_mrt_matches(value, resolved_model(pre, inputs@[i as int].value));
        }
        if inputs[i].required && value.is_none() {
            proof {
                assert(missing_upto(m0, inputs@, i + 1) == i);
                lemma_missing_persists(m0, inputs@, i + 1, n as int);
            }
            return Err(());
        }
        out.push(value);
        i += 1;
    }
    Ok(out)
}


/// Make the name-to-rendered-value binding list from resolved inputs.
fn make_pairs(
    inputs: &Vec<Input>,
    values: &Vec<MemoryReturnType>,
    Ghost(m0): Ghost<MemModel>,
) -> (r: Vec<(String, String)>)
    requires
        values@.len() == inputs@.len(),
        forall|j: int| 0 <= j < inputs@.len() ==> mrt_matches(values@[j], resolved_at(m0, inputs@, j)),
    ensures
        crate::tools::pairs_views(r@) == pairs_upto(m0, inputs@, inputs@.len() as int),
{
    let n = inputs.len();
    let mut out: Vec<(String, String)> = Vec::new();
    let mut i: usize = 0;
    while i < n
        invariant
            n == inputs@.len(),
            values@.len() == n,
            forall|j: int|
                0 <= j < inputs@.len() ==> mrt_matches(values@[j], resolved_at(m0, inputs@, j)),
            i <= n,
            out@.len() == i,
            crate::tools::pairs_views(out@) == pairs_upto(m0, inputs@, i as int),
        decreases n - i,
    {
        let rendered = values[i].to_string();
        proof {
            lemma_mrt_matches(values@[i as int], resolved_at(m0, inputs@, i as int));
        }
        out.push((inputs[i].name.clone(), rendered));
        proof {
            assert(crate::tools::pairs_views(out@) =~= pairs_upto(m0, inputs@, i + 1));
        }
        i += 1;
    }
    out
}

/// An outside action the caller must perform for the interpreter.
pub enum TaskAction {
    /// Submit the filled chat messages, with the optional raw schema, to the
    /// model and hand back the assistant text.
    Generate { messages: Vec<MessageInput>, schema: Option<String> },
    /// Submit the prompt and the resolved tools to the model; in raw mode the
    /// tool-call intents come back unexecuted, one JSON object per line.
    FunctionCall { prompt: String, tools: Vec<crate::tools::ToolSelection>, raw_mode: bool },
    /// Run a web search; serper exactly when its key is set, the free engine
    /// otherwise.
    WebSearch {
        query: String,
        search_type: Option<String>,
        lang: Option<String>,
        n_results: Option<u64>,
        use_serper: bool,
    },
}

/// Where an execution stands.
pub enum Phase {
    /// Ready to take the edge at the cursor (none: the walk ran off the graph).
    Ready { cur: Option<usize> },
    /// An action for the edge at the cursor is outstanding.
    AwaitingTask { cur: usize },
    /// A similarity check for the edge's condition is outstanding.
    AwaitingSimilar { cur: usize },
    /// The walk is over, well or badly; only the return value remains.
    Done { outcome: Result<(), ExecutionError> },
}

/// What one interpreter call tells the caller.
pub enum StepEvent {
    /// The walk is over; call `finish`.
    Finished,
    /// A task was handled internally and the cursor moved on.
    Acted,
    /// Perform the action and call `complete_task` with the result.
    Await(TaskAction),
    /// Score the stored chunks against `expected` and call `resolve_similar`.
    AwaitSimilar { expected: String },
}

/// One run of a workflow: the document, its memory, the step counter and the
/// phase. The serper-key presence bit is fixed at the start.
pub struct Execution {
    pub wf: Workflow,
    pub memory: ProgramMemory,
    pub num_steps: u32,
    pub phase: Phase,
    pub serper_key_set: bool,
}

/// The phase stands ready at the edge position `idx` (-1: no edge).
pub open spec fn ready_at(ph: Phase, idx: int) -> bool {
    ph matches Phase::Ready { cur } && (if idx == -1 {
        cur is None
    } else {
        cur matches Some(c) && c as int == idx
    })
}

/// The phase is failed with a workflow error carrying `label`.
pub open spec fn done_err_with(ph: Phase, label: Seq<char>) -> bool {
    ph matches Phase::Done { outcome } && (outcome matches Err(e) && (e matches
    ExecutionError::WorkflowFailed(msg) && msg@ == label))
}

/// The position of the first edge with the given source, or -1.
pub open spec fn edge_lookup(wf: Workflow, id: Seq<char>) -> int {
    crate::memory::idx_of(crate::workflow::edge_sources(wf.spec_steps()), id, 0)
}

/// The position of the first task with the given identifier, or -1.
pub open spec fn task_lookup(wf: Workflow, id: Seq<char>) -> int {
    crate::memory::idx_of(crate::workflow::task_ids(wf.spec_tasks()), id, 0)
}

/// After a successful task at edge `ci` with memory `m1`: the condition, if
/// any, decides between target and alternative (a similarity condition
/// suspends instead); without one the walk moves to the edge's target. The
/// step counter advances with the cursor.
pub open spec fn success_route_ok(
    wf: Workflow,
    m1: MemModel,
    num0: u32,
    ci: int,
    post: Execution,
    r: StepEvent,
) -> bool {
    let edge = wf.spec_steps()[ci];
    match edge.condition {
        Option::Some(cond) => if cond.expression is HaveSimilar {
            &&& r matches StepEvent::AwaitSimilar { expected } && expected@ == cond.expected@
            &&& post.memory@ == m1
            &&& post.num_steps == num0
            &&& post.phase matches Phase::AwaitingSimilar { cur } && cur as int == ci
        } else {
            let rm = resolved_model(m1, cond.input);
            let m2 = resolved_state(m1, cond.input);
            let ev = eval_expr(cond.expression, rm_string(rm), cond.expected@);
            let tgt = if ev {
                edge.target@
            } else {
                cond.target_if_not@
            };
            &&& r is Acted
            &&& post.memory@ == m2
            &&& post.num_steps == num0 + 1
            &&& ready_at(post.phase, edge_lookup(wf, tgt))
        },
        Option::None => {
            &&& r is Acted
            &&& post.memory@ == m1
            &&& post.num_steps == num0 + 1
            &&& ready_at(post.phase, edge_lookup(wf, edge.target@))
        },
    }
}

/// After a failed task at edge `ci` with memory `m1`: the fallback, if any,
/// is taken; otherwise the run fails with a workflow error carrying `label`.
pub open spec fn failure_route_ok(
    wf: Workflow,
    m1: MemModel,
    num0: u32,
    ci: int,
    label: Seq<char>,
    post: Execution,
    r: StepEvent,
) -> bool {
    let edge = wf.spec_steps()[ci];
    match edge.fallback {
        Option::Some(fb) => {
            &&& r is Acted
            &&& post.memory@ == m1
            &&& post.num_steps == num0 + 1
            &&& ready_at(post.phase, edge_lookup(wf, fb@))
        },
        Option::None => {
            &&& r is Finished
            &&& post.memory@ == m1
            &&& post.num_steps == num0
            &&& done_err_with(post.phase, label)
        },
    }
}

impl Execution {
    /// The state invariant: memory well-formed, cursors in bounds, and an
    /// outstanding action only while steps remain.
    pub open spec fn inv(&self) -> bool {
        &&& self.memory.wf()
        &&& match self.phase {
            Phase::Ready { cur } => cur matches Some(c) ==> (c as int)
                < self.wf.spec_steps().len(),
            Phase::AwaitingTask { cur } => (cur as int) < self.wf.spec_steps().len()
                && self.num_steps < self.wf.spec_config().max_steps,
            Phase::AwaitingSimilar { cur } => (cur as int) < self.wf.spec_steps().len()
                && self.num_steps < self.wf.spec_config().max_steps,
            Phase::Done { .. } => true,
        }
    }

    /// Begin a run: seed the external memory, write the caller's input under
    /// the reserved key, and stand ready at the first edge.
    pub fn start(
        input: Option<&Entry>,
        workflow: Workflow,
        memory: ProgramMemory,
        serper_key_set: bool,
    ) -> (r: Execution)
        requires
            memory.wf(),
        ensures
            r.inv(),
            r.wf == workflow,
            r.serper_key_set == serper_key_set,
            r.num_steps == 0,
            ready_at(r.phase, if workflow.spec_steps().len() > 0 { 0int } else { -1int }),
            r.memory@ == ({
                let m1 = match workflow.external_memory {
                    Option::Some(items) => crate::memory::seed_from(memory@, items@, 0),
                    Option::None => memory@,
                };
                match input {
                    Option::Some(e) => MemModel { cache: m1.cache.insert("__input"@, e@), ..m1 },
                    Option::None => m1,
                }
            }),
    {
        let mut memory = memory;
        match &workflow.external_memory {
            Some(items) => {
                memory.read_external_memory(items);
            },
            None => {},
        }
        match input {
            Some(e) => {
                memory.write("__input", e.duplicate());
                proof {
                    assert(memory@ =~~= MemModel {
                        cache: memory@.cache,
                        stacks: memory@.stacks,
                        files: memory@.files,
                    });
                }
            },
            None => {},
        }
        let cur: Option<usize> = if workflow.get_workflow().len() > 0 {
            Some(0)
        } else {
            None
        };
        Execution { wf: workflow, memory, num_steps: 0, phase: Phase::Ready { cur }, serper_key_set }
    }

    /// Route after a successful task at edge `ci`.
    fn route_success(&mut self, ci: usize) -> (r: StepEvent)
        requires
            old(self).inv(),
            (ci as int) < old(self).wf.spec_steps().len(),
            old(self).num_steps < old(self).wf.spec_config().max_steps,
        ensures
            final(self).inv(),
            final(self).wf == old(self).wf,
            final(self).serper_key_set == old(self).serper_key_set,
            success_route_ok(
                old(self).wf,
                old(self).memory@,
                old(self).num_steps,
                ci as int,
                *final(self),
                r,
            ),
    {
        let has_similar = match &self.wf.steps[ci].condition {
            Some(c) => c.expression == Expression::HaveSimilar,
            None => false,
        };
        if has_similar {
            let expected = match &self.wf.steps[ci].condition {
                Some(c) => c.expected.clone(),
                None => String::new(),
            };
            self.phase = Phase::AwaitingSimilar { cur: ci };
            return StepEvent::AwaitSimilar { expected };
        }
        let next: Option<usize> = match &self.wf.steps[ci].condition {
            Some(cond) => {
                let value = handle_input(&mut self.memory, &cond.input);
                let vs = value.to_string();
                proof {
                    lemma_mrt_matches(
                        value,
                        resolved_model(old(self).memory@, old(self).wf.spec_steps()[ci as int]
                            .condition->0.input),
                    );
                }
                let ev = cond.expression.evaluate(vs.as_str(), cond.expected.as_str());
                if ev {
                    self.wf.get_step_index_by_id(self.wf.steps[ci].target.as_str())
                } else {
                    self.wf.get_step_index_by_id(cond.target_if_not.as_str())
                }
            },
            None => self.wf.get_step_index_by_id(self.wf.steps[ci].target.as_str()),
        };
        self.num_steps = self.num_steps + 1;
        self.phase = Phase::Ready { cur: next };
        StepEvent::Acted
    }

    /// Route after a failed task at edge `ci`.
    fn route_failure(&mut self, ci: usize, err: ExecutionError) -> (r: StepEvent)
        requires
            old(self).inv(),
            (ci as int) < old(self).wf.spec_steps().len(),
            old(self).num_steps < old(self).wf.spec_config().max_steps,
        ensures
            final(self).inv(),
            final(self).wf == old(self).wf,
            final(self).serper_key_set == old(self).serper_key_set,
            final(self).memory@ == old(self).memory@,
            failure_route_ok(
                old(self).wf,
                old(self).memory@,
                old(self).num_steps,
                ci as int,
                crate::errors::execution_error_text(err),
                *final(self),
                r,
            ),
    {
        let has_fallback = match &self.wf.steps[ci].fallback {
            Some(_) => true,
            None => false,
        };
        if has_fallback {
            let next = match &self.wf.steps[ci].fallback {
                Some(fb) => self.wf.get_step_index_by_id(fb.as_str()),
                None => None,
            };
            self.num_steps = self.num_steps + 1;
            self.phase = Phase::Ready { cur: next };
            StepEvent::Acted
        } else {
            let msg = err.message();
            self.phase = Phase::Done { outcome: Err(ExecutionError::WorkflowFailed(msg)) };
            StepEvent::Finished
        }
    }
}


/// A resolved value that the sample operator rejects: a non-empty list.
pub open spec fn getall_violation(r: ResolvedModel) -> bool {
    match r {
        ResolvedModel::Many(p) => match p {
            Option::Some(page) => page.len() > 0,
            Option::None => false,
        },
        _ => false,
    }
}

/// The first input below `k` the sample operator rejects — a list value, or
/// a referenced stack that is empty or missing in `m1`; -1 when none is.
pub open spec fn sample_fail_upto(m0: MemModel, m1: MemModel, inputs: Seq<Input>, k: int) -> int
    decreases k,
{
    if k <= 0 || k > inputs.len() {
        -1
    } else {
        let p = sample_fail_upto(m0, m1, inputs, k - 1);
        if p != -1 {
            p
        } else {
            let rm = resolved_at(m0, inputs, k - 1);
            if getall_violation(rm) {
                k - 1
            } else if stack_page(m1, rm_string(rm)).len() == 0 {
                k - 1
            } else {
                -1
            }
        }
    }
}

pub proof fn lemma_sample_fail_persists(
    m0: MemModel,
    m1: MemModel,
    inputs: Seq<Input>,
    k: int,
    k2: int,
)
    requires
        0 <= k <= k2 <= inputs.len(),
        sample_fail_upto(m0, m1, inputs, k) != -1,
    ensures
        sample_fail_upto(m0, m1, inputs, k2) == sample_fail_upto(m0, m1, inputs, k),
    decreases k2 - k,
{
    if k < k2 {
        lemma_sample_fail_persists(m0, m1, inputs, k, k2 - 1);
    }
}

/// The prompt after the first `k` sampled values are appended: for each
/// input, `": "` and the entry picked from the referenced stack.
pub open spec fn sample_built(
    m0: MemModel,
    m1: MemModel,
    inputs: Seq<Input>,
    picks: Seq<int>,
    base: Seq<char>,
    k: int,
) -> Seq<char>
    decreases k,
{
    if k <= 0 || k > inputs.len() || k > picks.len() {
        base
    } else {
        let prev = sample_built(m0, m1, inputs, picks, base, k - 1);
        let page = stack_page(m1, rm_string(resolved_at(m0, inputs, k - 1)));
        prev + ": "@ + entry_content(page[picks[k - 1]])
    }
}

pub proof fn lemma_sample_built_prefix(
    m0: MemModel,
    m1: MemModel,
    inputs: Seq<Input>,
    p1: Seq<int>,
    p2: Seq<int>,
    base: Seq<char>,
    k: int,
)
    requires
        p1.len() >= k,
        p2.len() >= k,
        forall|j: int| 0 <= j < k ==> p1[j] == p2[j],
    ensures
        sample_built(m0, m1, inputs, p1, base, k) == sample_built(m0, m1, inputs, p2, base, k),
    decreases k,
{
    if k > 0 {
        lemma_sample_built_prefix(m0, m1, inputs, p1, p2, base, k - 1);
    }
}

/// A prompt the sample operator may produce: some pick from each referenced
/// stack, appended in input order.
pub open spec fn sample_ok(
    m0: MemModel,
    m1: MemModel,
    inputs: Seq<Input>,
    base: Seq<char>,
    result: Seq<char>,
) -> bool {
    exists|picks: Seq<int>|
        #![trigger sample_built(m0, m1, inputs, picks, base, inputs.len() as int)]
        picks.len() == inputs.len() && (forall|j: int|
            0 <= j < inputs.len() ==> 0 <= #[trigger] picks[j] < stack_page(
                m1,
                rm_string(resolved_at(m0, inputs, j)),
            ).len()) && result == sample_built(m0, m1, inputs, picks, base, inputs.len() as int)
}

/// Append one sampled entry per resolved input to the base prompt, picking
/// uniformly from each referenced stack.
fn build_sample(
    memory: &ProgramMemory,
    values: &Vec<MemoryReturnType>,
    base: String,
    Ghost(m0): Ghost<MemModel>,
    Ghost(inputs): Ghost<Seq<Input>>,
) -> (r: Result<String, ExecutionError>)
    requires
        memory.wf(),
        values@.len() == inputs.len(),
        forall|j: int| 0 <= j < inputs.len() ==> mrt_matches(values@[j], resolved_at(m0, inputs, j)),
    ensures
        match r {
            Ok(prompt) => sample_fail_upto(m0, memory@, inputs, inputs.len() as int) == -1
                && sample_ok(m0, memory@, inputs, base@, prompt@),
            Err(e) => ({
                let w = sample_fail_upto(m0, memory@, inputs, inputs.len() as int);
                w != -1 && (if getall_violation(resolved_at(m0, inputs, w)) {
                    e is InvalidGetAllError
                } else {
                    e is SamplingError
                })
            }),
        },
{
    let ghost m1 = memory@;
    let n = values.len();
    let mut prompt = base;
    let ghost base0 = prompt@;
    let ghost picks: Seq<int> = Seq::empty();
    let mut i: usize = 0;
    while i < n
        invariant
            memory.wf(),
            m1 == memory@,
            n == values@.len(),
            n == inputs.len(),
            forall|j: int|
                0 <= j < inputs.len() ==> mrt_matches(values@[j], resolved_at(m0, inputs, j)),
            i <= n,
            picks.len() == i,
            forall|j: int|
                0 <= j < i ==> 0 <= #[trigger] picks[j] < stack_page(
                    m1,
                    rm_string(resolved_at(m0, inputs, j)),
                ).len(),
            sample_fail_upto(m0, m1, inputs, i as int) == -1,
            prompt@ == sample_built(m0, m1, inputs, picks, base0, i as int),
        decreases n - i,
    {
        let is_violation = match &values[i] {
            MemoryReturnType::EntryVec(Some(v)) => v.len() > 0,
            _ => false,
        };
        if is_violation {
            proof {
                assert(sample_fail_upto(m0, m1, inputs, i + 1) == i);
                lemma_sample_fail_persists(m0, m1, inputs, i + 1, n as int);
            }
            return Err(ExecutionError::InvalidGetAllError);
        }
        let lookup = values[i].to_string();
        proof {
            lemma_mrt_matches(values@[i as int], resolved_at(m0, inputs, i as int));
        }
        match memory.get_all(lookup.as_str()) {
            Some(page) => {
                if page.len() == 0 {
                    proof {
                        assert(sample_fail_upto(m0, m1, inputs, i + 1) == i);
                        lemma_sample_fail_persists(m0, m1, inputs, i + 1, n as int);
                    }
                    return Err(ExecutionError::SamplingError);
                }
                let pick = random_below(page.len());
                let chosen = page[pick].to_string();
                prompt.append(": ");
                prompt.append(chosen.as_str());
                proof {
                    reveal_strlit(": ");
                    let picks2 = picks.push(pick as int);
                    lemma_sample_built_prefix(m0, m1, inputs, picks, picks2, base0, i as int);
                    assert(sample_built(m0, m1, inputs, picks2, base0, i + 1) == sample_built(
                        m0,
                        m1,
                        inputs,
                        picks2,
                        base0,
                        i as int,
                    ) + ": "@ + entry_content(
                        stack_page(m1, rm_string(resolved_at(m0, inputs, i as int)))[
                            pick as int],
                    ));
                    assert(prompt@ == sample_built(m0, m1, inputs, picks2, base0, i + 1));
                }
                proof {
                    picks = picks.push(pick as int);
                }
            },
            None => {
                proof {
                    assert(sample_fail_upto(m0, m1, inputs, i + 1) == i);
                    lemma_sample_fail_persists(m0, m1, inputs, i + 1, n as int);
                }
                return Err(ExecutionError::SamplingError);
            },
        }
        i += 1;
    }
    proof {
        assert(sample_built(m0, m1, inputs, picks, base0, inputs.len() as int) == prompt@);
        assert(sample_ok(m0, m1, inputs, base0, prompt@));
    }
    Ok(prompt)
}

/// Messages filled from the originals with the given bindings, roles kept.
pub open spec fn filled_match(
    out: Seq<MessageInput>,
    orig: Seq<MessageInput>,
    pairs: Seq<(Seq<char>, Seq<char>)>,
) -> bool {
    out.len() == orig.len() && forall|i: int|
        0 <= i < orig.len() ==> out[i].role@ == orig[i].role@ && out[i].content@ == fill_content(
            orig[i].content@,
            pairs,
            0,
        )
}

/// Two optional strings with the same text.
pub open spec fn opt_str_match(a: Option<String>, b: Option<String>) -> bool {
    match (a, b) {
        (Option::Some(x), Option::Some(y)) => x@ == y@,
        (Option::None, Option::None) => true,
        _ => false,
    }
}

/// An optional string carrying exactly an optional text.
pub open spec fn opt_str_view_match(a: Option<String>, b: Option<Seq<char>>) -> bool {
    match (a, b) {
        (Option::Some(x), Option::Some(v)) => x@ == v,
        (Option::None, Option::None) => true,
        _ => false,
    }
}

/// The action is outstanding for edge `ci`, with memory `m1` and the step
/// counter untouched.
pub open spec fn awaiting_at(pre: Execution, m1: MemModel, ci: int, post: Execution) -> bool {
    &&& post.memory@ == m1
    &&& post.num_steps == pre.num_steps
    &&& post.phase matches Phase::AwaitingTask { cur } && cur as int == ci
}

/// What dispatching the task's operator leaves behind, given the memory
/// after input resolution and the prompt bindings.
pub open spec fn dispatch_post(
    pre: Execution,
    ci: int,
    task: Task,
    m1: MemModel,
    pairs: Seq<(Seq<char>, Seq<char>)>,
    post: Execution,
    r: StepEvent,
) -> bool {
    match task.operator {
        Operator::Generation => (r matches StepEvent::Await(a) && (a matches
        TaskAction::Generate { messages, schema } && filled_match(messages@, task.messages@, pairs)
            && opt_str_match(schema, task.schema))) && awaiting_at(pre, m1, ci, post),
        Operator::FunctionCalling | Operator::FunctionCallingRaw => {
            let names = crate::tools::name_views(pre.wf.spec_config().tools@);
            match crate::tools::base_tools_spec(names, pre.serper_key_set) {
                Option::Some(_) => (r matches StepEvent::Await(a) && (a matches
                TaskAction::FunctionCall { prompt, tools, raw_mode } && prompt@ == last_filled(
                    task.messages@,
                    pairs,
                ) && crate::tools::tools_resolution(
                    tools@,
                    names,
                    pre.wf.spec_config().custom_tools,
                    pre.serper_key_set,
                ) && raw_mode == (task.operator is FunctionCallingRaw))) && awaiting_at(
                    pre,
                    m1,
                    ci,
                    post,
                ),
                Option::None => failure_route_ok(
                    pre.wf,
                    m1,
                    pre.num_steps,
                    ci,
                    "Function call failed Tool does not exist"@,
                    post,
                    r,
                ),
            }
        },
        Operator::Search => {
            let last = last_filled(task.messages@, pairs);
            match json_str_field(last, "query"@) {
                Option::Some(q) => (r matches StepEvent::Await(a) && (a matches
                TaskAction::WebSearch { query, search_type, lang, n_results, use_serper }
                    && query@ == q && opt_str_view_match(
                    search_type,
                    json_str_field(last, "search_type"@),
                ) && opt_str_view_match(lang, json_str_field(last, "lang"@)) && n_results
                    == json_u64_field(last, "n_results"@) && use_serper
                    == pre.serper_key_set)) && awaiting_at(pre, m1, ci, post),
                Option::None => failure_route_ok(
                    pre.wf,
                    m1,
                    pre.num_steps,
                    ci,
                    "Web search failed Query parameter is required"@,
                    post,
                    r,
                ),
            }
        },
        Operator::Sample => {
            let base = last_filled(task.messages@, pairs);
            let w = sample_fail_upto(pre.memory@, m1, task.inputs@, task.inputs@.len() as int);
            if w != -1 {
                let label = if getall_violation(resolved_at(pre.memory@, task.inputs@, w)) {
                    "Error sampling because value is not get_all compatible (array)"@
                } else {
                    "Error sampling because value array is empty"@
                };
                failure_route_ok(pre.wf, m1, pre.num_steps, ci, label, post, r)
            } else {
                exists|result: Seq<char>|
                    #[trigger] sample_ok(pre.memory@, m1, task.inputs@, base, result)
                        && success_route_ok(
                        pre.wf,
                        write_outputs(m1, task.outputs@, entry_from_spec(result), 0),
                        pre.num_steps,
                        ci,
                        post,
                        r,
                    )
            }
        },
        Operator::End => success_route_ok(pre.wf, m1, pre.num_steps, ci, post, r),
    }
}

/// What one prepared step leaves behind: the budget checks first (time
/// before steps), then the cursor — end of graph or the end sentinel finish
/// the walk — then the task: its inputs resolve (a missing required one
/// fails the task), and the operator dispatches.
pub open spec fn prepare_post(pre: Execution, elapsed: u64, post: Execution, r: StepEvent) -> bool {
    let cfg = pre.wf.spec_config();
    let steps = pre.wf.spec_steps();
    if !(pre.num_steps < cfg.max_steps && elapsed < cfg.max_time) {
        &&& r is Finished
        &&& post.memory@ == pre.memory@
        &&& post.num_steps == pre.num_steps
        &&& if elapsed >= cfg.max_time {
            done_err_with(post.phase, "Max execution time exceeded"@)
        } else {
            done_err_with(post.phase, "Max steps reached"@)
        }
    } else {
        match pre.phase {
            Phase::Ready { cur } => match cur {
                Option::None => r is Finished && post.memory@ == pre.memory@ && post.num_steps
                    == pre.num_steps && (post.phase matches Phase::Done { outcome }
                    && outcome is Ok),
                Option::Some(ci) => {
                    let edge = steps[ci as int];
                    if edge.source@ == "__end"@ {
                        r is Finished && post.memory@ == pre.memory@ && post.num_steps
                            == pre.num_steps && (post.phase matches Phase::Done { outcome }
                            && outcome is Ok)
                    } else {
                        let ti = task_lookup(pre.wf, edge.source@);
                        if ti == -1 {
                            r is Finished && post.memory@ == pre.memory@ && post.num_steps
                                == pre.num_steps && done_err_with(
                                post.phase,
                                "Task with id ["@ + edge.source@ + "] not found"@,
                            )
                        } else {
                            let task = pre.wf.spec_tasks()[ti];
                            let w = missing_upto(
                                pre.memory@,
                                task.inputs@,
                                task.inputs@.len() as int,
                            );
                            if w != -1 {
                                failure_route_ok(
                                    pre.wf,
                                    state_after(pre.memory@, task.inputs@, w + 1),
                                    pre.num_steps,
                                    ci as int,
                                    "Invalid input provided"@,
                                    post,
                                    r,
                                )
                            } else {
                                dispatch_post(
                                    pre,
                                    ci as int,
                                    task,
                                    state_after(
                                        pre.memory@,
                                        task.inputs@,
                                        task.inputs@.len() as int,
                                    ),
                                    pairs_upto(
                                        pre.memory@,
                                        task.inputs@,
                                        task.inputs@.len() as int,
                                    ),
                                    post,
                                    r,
                                )
                            }
                        }
                    }
                },
            },
            _ => false,
        }
    }
}


/// The label a failed operator reports, wrapped into the workflow error.
pub open spec fn op_fail_label(op: Operator, msg: Seq<char>) -> Seq<char> {
    match op {
        Operator::FunctionCalling => "Function call failed "@ + msg,
        Operator::FunctionCallingRaw => "Function call failed "@ + msg,
        Operator::Search => "Web search failed "@ + msg,
        _ => "Text generation failed "@ + msg,
    }
}

/// What completing an outstanding task leaves behind: a result is parsed as
/// an entry and committed through the declared outputs, then the condition
/// and target route onward; an error routes through the fallback.
pub open spec fn complete_post(
    pre: Execution,
    outcome: Result<String, String>,
    post: Execution,
    r: StepEvent,
) -> bool {
    match pre.phase {
        Phase::AwaitingTask { cur } => {
            let ci = cur as int;
            let edge = pre.wf.spec_steps()[ci];
            let ti = task_lookup(pre.wf, edge.source@);
            if ti == -1 {
                r is Finished && post.memory@ == pre.memory@ && post.num_steps == pre.num_steps
                    && done_err_with(
                    post.phase,
                    "Task with id ["@ + edge.source@ + "] not found"@,
                )
            } else {
                let task = pre.wf.spec_tasks()[ti];
                match outcome {
                    Result::Ok(out) => success_route_ok(
                        pre.wf,
                        write_outputs(pre.memory@, task.outputs@, entry_from_spec(out@), 0),
                        pre.num_steps,
                        ci,
                        post,
                        r,
                    ),
                    Result::Err(msg) => failure_route_ok(
                        pre.wf,
                        pre.memory@,
                        pre.num_steps,
                        ci,
                        op_fail_label(task.operator, msg@),
                        post,
                        r,
                    ),
                }
            }
        },
        _ => false,
    }
}

impl Execution {
    /// Take one step: check the budgets, read the cursor, resolve the task's
    /// inputs, and dispatch its operator — internally where no outside work
    /// is needed, as an action otherwise. Exactly [`prepare_post`].
    pub fn prepare_step(&mut self, elapsed_secs: u64) -> (r: StepEvent)
        requires
            old(self).inv(),
            old(self).phase matches Phase::Ready { .. },
        ensures
            final(self).inv(),
            final(self).wf == old(self).wf,
            final(self).serper_key_set == old(self).serper_key_set,
            prepare_post(*old(self), elapsed_secs, *final(self), r),
    {
        let max_steps = self.wf.get_config().max_steps;
        let max_time = self.wf.get_config().max_time;
        if !(self.num_steps < max_steps && elapsed_secs < max_time) {
            if elapsed_secs >= max_time {
                self.phase = Phase::Done {
                    outcome: Err(
                        ExecutionError::WorkflowFailed("Max execution time exceeded".to_owned()),
                    ),
                };
            } else {
                self.phase = Phase::Done {
                    outcome: Err(ExecutionError::WorkflowFailed("Max steps reached".to_owned())),
                };
            }
            return StepEvent::Finished;
        }
        let ci_opt: Option<usize> = match &self.phase {
            Phase::Ready { cur } => *cur,
            _ => None,
        };
        let ci = match ci_opt {
            Some(c) => c,
            None => {
                self.phase = Phase::Done { outcome: Ok(()) };
                return StepEvent::Finished;
            },
        };
        if crate::strings::str_eq(self.wf.steps[ci].source.as_str(), "__end") {
            self.phase = Phase::Done { outcome: Ok(()) };
            return StepEvent::Finished;
        }
        let ti = match self.wf.get_task_index_by_id(self.wf.steps[ci].source.as_str()) {
            Some(t) => t,
            None => {
                let msg = concat3(
                    "Task with id [",
                    self.wf.steps[ci].source.as_str(),
                    "] not found",
                );
                self.phase = Phase::Done {
                    outcome: Err(ExecutionError::WorkflowFailed(msg)),
                };
                return StepEvent::Finished;
            },
        };
        let ghost m0 = self.memory@;
        let values = match resolve_inputs(&mut self.memory, &self.wf.tasks[ti].inputs) {
            Ok(v) => v,
            Err(_) => {
                return self.route_failure(ci, ExecutionError::InvalidInput);
            },
        };
        let pairs = make_pairs(&self.wf.tasks[ti].inputs, &values, Ghost(m0));
        let op = self.wf.tasks[ti].operator;
        match op {
            Operator::Generation => {
                let messages = fill_prompt(&self.wf.tasks[ti].messages, &pairs);
                let schema: Option<String> = match &self.wf.tasks[ti].schema {
                    Some(sch) => Some(sch.clone()),
                    None => None,
                };
                self.phase = Phase::AwaitingTask { cur: ci };
                StepEvent::Await(TaskAction::Generate { messages, schema })
            },
            Operator::FunctionCalling | Operator::FunctionCallingRaw => {
                let messages = fill_prompt(&self.wf.tasks[ti].messages, &pairs);
                let prompt: String = if messages.len() > 0 {
                    messages[messages.len() - 1].content.clone()
                } else {
                    String::new()
                };
                match crate::tools::resolve_tools(
                    &self.wf.config.tools,
                    &self.wf.config.custom_tools,
                    self.serper_key_set,
                ) {
                    Ok(tools) => {
                        let raw_mode = match op {
                            Operator::FunctionCallingRaw => true,
                            _ => false,
                        };
                        self.phase = Phase::AwaitingTask { cur: ci };
                        StepEvent::Await(TaskAction::FunctionCall { prompt, tools, raw_mode })
                    },
                    Err(e) => {
                        proof {
                            reveal_strlit("Function call failed Tool does not exist");
                            reveal_strlit("Function call failed ");
                            reveal_strlit("Tool does not exist");
                            assert("Function call failed Tool does not exist"@
                                =~= "Function call failed "@ + "Tool does not exist"@);
                        }
                        let msg = e.message();
                        return self.route_failure(ci, ExecutionError::FunctionCallFailed(msg));
                    },
                }
            },
            Operator::Search => {
                let messages = fill_prompt(&self.wf.tasks[ti].messages, &pairs);
                let prompt: String = if messages.len() > 0 {
                    messages[messages.len() - 1].content.clone()
                } else {
                    String::new()
                };
                match json_field_str(prompt.as_str(), "query") {
                    Some(query) => {
                        let search_type = json_field_str(prompt.as_str(), "search_type");
                        let lang = json_field_str(prompt.as_str(), "lang");
                        let n_results = json_field_u64(prompt.as_str(), "n_results");
                        let use_serper = self.serper_key_set;
                        self.phase = Phase::AwaitingTask { cur: ci };
                        StepEvent::Await(
                            TaskAction::WebSearch {
                                query,
                                search_type,
                                lang,
                                n_results,
                                use_serper,
                            },
                        )
                    },
                    None => {
                        proof {
                            reveal_strlit("Web search failed Query parameter is required");
                            reveal_strlit("Web search failed ");
                            reveal_strlit("Query parameter is required");
                            assert("Web search failed Query parameter is required"@
                                =~= "Web search failed "@ + "Query parameter is required"@);
                        }
                        return self.route_failure(
                            ci,
                            ExecutionError::WebSearchFailed(
                                "Query parameter is required".to_owned(),
                            ),
                        );
                    },
                }
            },
            Operator::Sample => {
                let messages = fill_prompt(&self.wf.tasks[ti].messages, &pairs);
                let base: String = if messages.len() > 0 {
                    messages[messages.len() - 1].content.clone()
                } else {
                    String::new()
                };
                match build_sample(
                    &self.memory,
                    &values,
                    base,
                    Ghost(m0),
                    Ghost(self.wf.tasks@[ti as int].inputs@),
                ) {
                    Ok(prompt) => {
                        let entry = Entry::try_value_or_str(prompt.as_str());
                        let ghost m1 = self.memory@;
                        let ghost task = self.wf.spec_tasks()[ti as int];
                        handle_output(&self.wf.tasks[ti], &entry, &mut self.memory);
                        self.route_success(ci)
                    },
                    Err(e) => {
                        return self.route_failure(ci, e);
                    },
                }
            },
            Operator::End => self.route_success(ci),
        }
    }

    /// Feed back the outcome of an outstanding action. Exactly
    /// [`complete_post`].
    pub fn complete_task(&mut self, outcome: Result<String, String>) -> (r: StepEvent)
        requires
            old(self).inv(),
            old(self).phase matches Phase::AwaitingTask { .. },
        ensures
            final(self).inv(),
            final(self).wf == old(self).wf,
            final(self).serper_key_set == old(self).serper_key_set,
            complete_post(*old(self), outcome, *final(self), r),
    {
        let ci: usize = match &self.phase {
            Phase::AwaitingTask { cur } => *cur,
            _ => 0,
        };
        let ti = match self.wf.get_task_index_by_id(self.wf.steps[ci].source.as_str()) {
            Some(t) => t,
            None => {
                let msg = concat3(
                    "Task with id [",
                    self.wf.steps[ci].source.as_str(),
                    "] not found",
                );
                self.phase = Phase::Done {
                    outcome: Err(ExecutionError::WorkflowFailed(msg)),
                };
                return StepEvent::Finished;
            },
        };
        match outcome {
            Ok(out) => {
                let entry = Entry::try_value_or_str(out.as_str());
                handle_output(&self.wf.tasks[ti], &entry, &mut self.memory);
                self.route_success(ci)
            },
            Err(msg) => {
                let op = self.wf.tasks[ti].operator;
                let err = match op {
                    Operator::FunctionCalling => ExecutionError::FunctionCallFailed(msg),
                    Operator::FunctionCallingRaw => ExecutionError::FunctionCallFailed(msg),
                    Operator::Search => ExecutionError::WebSearchFailed(msg),
                    _ => ExecutionError::GenerationFailed(msg),
                };
                self.route_failure(ci, err)
            },
        }
    }

    /// Feed back similarity scores for an outstanding condition: the check
    /// passes exactly when some scored chunk lies strictly above 0.95 (in
    /// millionths, 950000), and the walk branches accordingly.
    pub fn resolve_similar(&mut self, scores: &Vec<i64>) -> (r: StepEvent)
        requires
            old(self).inv(),
            old(self).phase matches Phase::AwaitingSimilar { .. },
        ensures
            final(self).inv(),
            final(self).wf == old(self).wf,
            final(self).serper_key_set == old(self).serper_key_set,
            final(self).memory@ == old(self).memory@,
            r is Acted,
            ({
                let pre = *old(self);
                match pre.phase {
                    Phase::AwaitingSimilar { cur } => {
                        let ci = cur as int;
                        let edge = pre.wf.spec_steps()[ci];
                        let m = if pre.memory@.files.len() < scores@.len() {
                            pre.memory@.files.len() as int
                        } else {
                            scores@.len() as int
                        };
                        let matched = exists|i: int| 0 <= i < m && scores@[i] > 950000i64;
                        let tgt = match edge.condition {
                            Option::Some(cond) => if matched {
                                edge.target@
                            } else {
                                cond.target_if_not@
                            },
                            Option::None => edge.target@,
                        };
                        final(self).num_steps == pre.num_steps + 1 && ready_at(
                            final(self).phase,
                            edge_lookup(pre.wf, tgt),
                        )
                    },
                    _ => false,
                }
            }),
    {
        let ci: usize = match &self.phase {
            Phase::AwaitingSimilar { cur } => *cur,
            _ => 0,
        };
        let matched: bool = match self.memory.have_similar(scores, Some(950000)) {
            Some(b) => b,
            None => false,
        };
        let next: Option<usize> = match &self.wf.steps[ci].condition {
            Some(cond) => if matched {
                self.wf.get_step_index_by_id(self.wf.steps[ci].target.as_str())
            } else {
                self.wf.get_step_index_by_id(cond.target_if_not.as_str())
            },
            None => self.wf.get_step_index_by_id(self.wf.steps[ci].target.as_str()),
        };
        self.num_steps = self.num_steps + 1;
        self.phase = Phase::Ready { cur: next };
        StepEvent::Acted
    }
}

/// The memory model after the return-value references up to `k` are
/// resolved in order.
pub open spec fn ivs_state(m: MemModel, ivs: Seq<InputValue>, k: int) -> MemModel
    decreases k,
{
    if k <= 0 || k > ivs.len() {
        m
    } else {
        resolved_state(ivs_state(m, ivs, k - 1), ivs[k - 1])
    }
}

/// The assembled return value carries exactly what the recipe's references
/// resolve to, and the memory holds their resolution effects.
pub open spec fn rv_result_ok(
    m: MemModel,
    input: TaskOutputInput,
    res: MemoryReturnType,
    mpost: MemModel,
) -> bool {
    match input {
        TaskOutputInput::Single(iv) => mrt_matches(res, resolved_model(m, iv)) && mpost
            == resolved_state(m, iv),
        TaskOutputInput::Multiple(ivs) => (res matches MemoryReturnType::Multiple(rs) && rs@.len()
            == ivs@.len() && (forall|j: int|
            0 <= j < ivs@.len() ==> mrt_matches(
                rs@[j],
                resolved_model(ivs_state(m, ivs@, j), ivs@[j]),
            ))) && mpost == ivs_state(m, ivs@, ivs@.len() as int),
    }
}

/// The final string a resolved return value renders to: its JSON-array
/// rendering when asked for and available, otherwise its string rendering
/// run through the post-processing pipeline.
pub open spec fn render_spec(res: MemoryReturnType, rv: TaskOutput) -> Seq<char> {
    if (rv.to_json matches Some(true)) && (mrt_to_json(res) matches Some(_)) {
        mrt_to_json(res)->0
    } else {
        match rv.post_process {
            Option::Some(ps) => apply_pipeline(mrt_string(res), ps@, 0),
            Option::None => mrt_string(res),
        }
    }
}

/// Render a resolved return value under the recipe, exactly as
/// [`render_spec`] describes.
pub fn render_return(res: &MemoryReturnType, rv: &TaskOutput) -> (r: String)
    ensures
        r@ == render_spec(*res, *rv),
{
    let wants_json = match &rv.to_json {
        Some(b) => *b,
        None => false,
    };
    if wants_json {
        match res.to_json() {
            Some(j) => {
                return j;
            },
            None => {},
        }
    }
    let rendered = res.to_string();
    match &rv.post_process {
        Some(ps) => post_process(rendered, ps),
        None => rendered,
    }
}

impl Execution {
    /// Assemble the final artifact once the walk is over: a failed walk
    /// returns its error; a completed one resolves the return-value recipe
    /// against memory and renders it.
    pub fn finish(&mut self) -> (r: Result<String, ExecutionError>)
        requires
            old(self).inv(),
            old(self).phase matches Phase::Done { .. },
        ensures
            final(self).inv(),
            ({
                let pre = *old(self);
                match pre.phase {
                    Phase::Done { outcome } => match outcome {
                        Result::Ok(_) => exists|res: MemoryReturnType|
                            #[trigger] rv_result_ok(
                                pre.memory@,
                                pre.wf.spec_return_value().input,
                                res,
                                final(self).memory@,
                            ) && (r matches Ok(s) && s@ == render_spec(
                                res,
                                pre.wf.spec_return_value(),
                            )),
                        Result::Err(e) => r matches Err(e2) && e2 == e,
                    },
                    _ => false,
                }
            }),
    {
        let failed: Option<ExecutionError> = match &self.phase {
            Phase::Done { outcome } => match outcome {
                Ok(_) => None,
                Err(e) => Some(e.duplicate()),
            },
            _ => None,
        };
        match failed {
            Some(e) => {
                return Err(e);
            },
            None => {},
        }
        let ghost m0 = self.memory@;
        let res: MemoryReturnType = match &self.wf.return_value.input {
            TaskOutputInput::Single(iv) => handle_input(&mut self.memory, iv),
            TaskOutputInput::Multiple(ivs) => {
                let n = ivs.len();
                let mut rs: Vec<MemoryReturnType> = Vec::new();
                let mut i: usize = 0;
                while i < n
                    invariant
                        self.wf == old(self).wf,
                        self.phase == old(self).phase,
                        self.memory.wf(),
                        (old(self).wf.spec_return_value().input matches
                        TaskOutputInput::Multiple(v) && v@ == ivs@),
                        n == ivs@.len(),
                        i <= n,
                        rs@.len() == i,
                        self.memory@ == ivs_state(m0, ivs@, i as int),
                        forall|j: int|
                            0 <= j < i ==> mrt_matches(
                                rs@[j],
                                resolved_model(ivs_state(m0, ivs@, j), ivs@[j]),
                            ),
                    decreases n - i,
                {
                    let v = handle_input(&mut self.memory, &ivs[i]);
                    rs.push(v);
                    i += 1;
                }
                MemoryReturnType::Multiple(rs)
            },
        };
        proof {
            assert(rv_result_ok(
                m0,
                old(self).wf.spec_return_value().input,
                res,
                self.memory@,
            ));
        }
        let out = render_return(&res, &self.wf.return_value);
        Ok(out)
    }
}

/// The stateless executor the original API exposes: it carries the chosen
/// model; runs themselves live in [`Execution`] values.
pub struct Executor {
    pub model: Model,
}

impl Executor {
    pub fn new(model: Model) -> (r: Executor)
        ensures
            r.model == model,
    {
        Executor { model }
    }
}


/// Law: prompt templating is idempotent. When the bound name has no brace,
/// its value contains no placeholder opener, and every open brace in the
/// template opens this placeholder, then one substitution leaves no
/// occurrence of `{name}`, and substituting again changes nothing.
pub proof fn lemma_templating_idempotent(s: Seq<char>, name: Seq<char>, value: Seq<char>)
    requires
        forall|k: int| 0 <= k < name.len() ==> name[k] != '{',
        crate::strings::brace_free(value),
        forall|k: int| 0 <= k < s.len() && s[k] == '{' ==> crate::strings::occurs_at(
            s,
            placeholder(name),
            k,
        ),
    ensures
        !crate::strings::contains_seq(
            replace_all_spec(s, placeholder(name), value),
            placeholder(name),
        ),
        fill_content(
            fill_content(s, seq![(name, value)], 0),
            seq![(name, value)],
            0,
        ) == fill_content(s, seq![(name, value)], 0),
{
    let pat = placeholder(name);
    assert(pat[0] == '{');
    assert forall|k: int| 1 <= k < pat.len() implies pat[k] != '{' by {
        if k < pat.len() - 1 {
            assert(pat[k] == name[k - 1]);
        } else {
            assert(pat[k] == '}');
        }
    }
    crate::strings::lemma_replace_all_no_reopen(s, pat, value);
    let once = replace_all_spec(s, pat, value);
    let pairs = seq![(name, value)];
    assert(pairs.len() == 1 && pairs[0].0 == name && pairs[0].1 == value);
    assert(fill_content(once, pairs, 1) == once);
    assert(fill_content(s, pairs, 0) == once);
    crate::strings::lemma_find_spec(once, pat);
    match crate::strings::find_spec(once, pat) {
        Option::None => {
            assert(replace_all_spec(once, pat, value) == once);
        },
        Option::Some(i) => {
            assert(crate::strings::contains_seq(once, pat));
        },
    }
    assert(fill_content(fill_content(s, pairs, 0), pairs, 0) == once);
}

} // verus!
