use ollama_workflows::atomics::{
    Condition, Config, Edge, Expression, MessageInput, Operator, PostProcessType, Task,
    TaskOutput, TaskOutputInput, TaskPostProcess,
};
use ollama_workflows::entry::Entry;
use ollama_workflows::errors::ExecutionError;
use ollama_workflows::executor::{Execution, Phase, StepEvent, TaskAction};
use ollama_workflows::io::{Input, InputValue, InputValueType, Output, OutputType};
use ollama_workflows::memory::{MemoryInputType, ProgramMemory};
use ollama_workflows::tools::ToolSelection;
use ollama_workflows::workflow::Workflow;

fn config(max_steps: u32, max_time: u64) -> Config {
    Config {
        max_steps,
        max_time,
        tools: Vec::new(),
        custom_tools: None,
        max_tokens: None,
    }
}

fn user_task(id: &str, prompt: &str, operator: Operator) -> Task {
    Task {
        id: id.to_owned(),
        name: String::new(),
        description: String::new(),
        messages: vec![MessageInput::new_user_message(prompt)],
        operator,
        inputs: Vec::new(),
        outputs: Vec::new(),
        schema: None,
    }
}

fn write_result(key: &str) -> Output {
    Output {
        output_type: OutputType::Write,
        key: key.to_owned(),
        value: "__result".to_owned(),
    }
}

fn write_literal(key: &str, value: &str) -> Output {
    Output {
        output_type: OutputType::Write,
        key: key.to_owned(),
        value: value.to_owned(),
    }
}

fn edge(source: &str, target: &str) -> Edge {
    Edge {
        source: source.to_owned(),
        target: target.to_owned(),
        condition: None,
        fallback: None,
    }
}

fn read_value(key: &str) -> InputValue {
    InputValue {
        value_type: InputValueType::Read,
        index: None,
        search_query: None,
        key: key.to_owned(),
    }
}

fn rv_read(key: &str) -> TaskOutput {
    TaskOutput {
        input: TaskOutputInput::Single(read_value(key)),
        to_json: None,
        post_process: None,
    }
}

/// Drive an execution against a stub provider that answers each outstanding
/// action; `responses` are consumed one per action, verbatim prompts echo
/// when a response is `None`.
fn drive(exec: &mut Execution, mut responses: Vec<Result<String, String>>) {
    let mut guard = 0;
    let mut pending: Option<StepEvent> = None;
    loop {
        guard += 1;
        if guard > 200 {
            panic!("workflow did not settle");
        }
        let event = match pending.take() {
            Some(e) => e,
            None => exec.prepare_step(0),
        };
        match event {
            StepEvent::Finished => return,
            StepEvent::Acted => {}
            StepEvent::AwaitSimilar { .. } => {
                let scores: Vec<i64> = Vec::new();
                exec.resolve_similar(&scores);
            }
            StepEvent::Await(action) => {
                let outcome = if responses.is_empty() {
                    match &action {
                        TaskAction::Generate { messages, .. } => Ok(messages
                            .last()
                            .map(|m| m.content.clone())
                            .unwrap_or_default()),
                        _ => Ok(String::new()),
                    }
                } else {
                    responses.remove(0)
                };
                pending = Some(exec.complete_task(outcome));
            }
        }
    }
}

#[test]
fn linear_generation_echoes_prompt() {
    let a = {
        let mut t = user_task("A", "Say X", Operator::Generation);
        t.outputs.push(write_result("out_a"));
        t
    };
    let b = {
        let mut t = user_task("B", "Echo: {v}", Operator::Generation);
        t.inputs.push(Input {
            name: "v".to_owned(),
            value: read_value("out_a"),
            required: true,
        });
        t.outputs.push(write_result("final"));
        t
    };
    let wf = Workflow::new(
        vec![a, b],
        vec![edge("A", "B"), edge("B", "__end"), edge("__end", "end")],
        config(10, 100),
        None,
        rv_read("final"),
    );
    let mut exec = Execution::start(None, wf, ProgramMemory::new(), false);
    drive(&mut exec, Vec::new());
    assert_eq!(exec.finish().unwrap(), "Echo: Say X");
}

#[test]
fn conditional_branch_takes_matching_target() {
    let a = {
        let mut t = user_task("A", "decide", Operator::Generation);
        t.outputs.push(write_literal("decision", "yes"));
        t
    };
    let b = {
        let mut t = user_task("B", "b runs", Operator::Generation);
        t.outputs.push(write_literal("ran_b", "1"));
        t
    };
    let c = {
        let mut t = user_task("C", "c runs", Operator::Generation);
        t.outputs.push(write_literal("ran_c", "1"));
        t
    };
    let mut a_edge = edge("A", "B");
    a_edge.condition = Some(Condition {
        input: read_value("decision"),
        expected: "yes".to_owned(),
        expression: Expression::Equal,
        target_if_not: "C".to_owned(),
    });
    let wf = Workflow::new(
        vec![a, b, c],
        vec![
            a_edge,
            edge("B", "__end"),
            edge("C", "__end"),
            edge("__end", "end"),
        ],
        config(10, 100),
        None,
        rv_read("ran_b"),
    );
    let mut exec = Execution::start(None, wf, ProgramMemory::new(), false);
    drive(&mut exec, Vec::new());
    assert!(exec.memory.read("ran_b").is_some());
    assert!(exec.memory.read("ran_c").is_none());
}

#[test]
fn fallback_keeps_workflow_alive() {
    let a = user_task("A", "always fails", Operator::Generation);
    let z = {
        let mut t = user_task("Z", "recovered", Operator::Generation);
        t.outputs.push(write_result("final"));
        t
    };
    let mut a_edge = edge("A", "B");
    a_edge.fallback = Some("Z".to_owned());
    let wf = Workflow::new(
        vec![a, z],
        vec![a_edge, edge("Z", "__end"), edge("__end", "end")],
        config(10, 100),
        None,
        rv_read("final"),
    );
    let mut exec = Execution::start(None, wf, ProgramMemory::new(), false);
    drive(
        &mut exec,
        vec![Err("simulated provider error".to_owned()), Ok("recovered".to_owned())],
    );
    assert_eq!(exec.finish().unwrap(), "recovered");
}

#[test]
fn failure_without_fallback_fails_the_workflow() {
    let a = user_task("A", "always fails", Operator::Generation);
    let wf = Workflow::new(
        vec![a],
        vec![edge("A", "__end"), edge("__end", "end")],
        config(10, 100),
        None,
        rv_read("final"),
    );
    let mut exec = Execution::start(None, wf, ProgramMemory::new(), false);
    drive(&mut exec, vec![Err("boom".to_owned())]);
    match exec.finish() {
        Err(ExecutionError::WorkflowFailed(msg)) => {
            assert_eq!(msg, "Text generation failed boom");
        }
        _ => panic!("expected a workflow failure"),
    }
}

#[test]
fn sample_draws_from_the_stack() {
    let a = {
        let mut t = user_task("A", "Hello", Operator::Sample);
        t.inputs.push(Input {
            name: "n".to_owned(),
            value: InputValue {
                value_type: InputValueType::String,
                index: None,
                search_query: None,
                key: "names".to_owned(),
            },
            required: false,
        });
        t.outputs.push(write_result("final"));
        t
    };
    let external = vec![(
        "names".to_owned(),
        MemoryInputType::Page(vec![
            Entry::Text("alice".to_owned()),
            Entry::Text("bob".to_owned()),
            Entry::Text("carol".to_owned()),
        ]),
    )];
    let wf = Workflow::new(
        vec![a],
        vec![edge("A", "__end"), edge("__end", "end")],
        config(10, 100),
        Some(external),
        rv_read("final"),
    );
    let mut exec = Execution::start(None, wf, ProgramMemory::new(), false);
    drive(&mut exec, Vec::new());
    let out = exec.finish().unwrap();
    assert!(
        out == "Hello: alice" || out == "Hello: bob" || out == "Hello: carol",
        "unexpected sample output",
    );
}

#[test]
fn raw_function_calling_returns_intents_without_fetching() {
    let a = {
        let mut t = user_task("A", "fetch https://x", Operator::FunctionCallingRaw);
        t.outputs.push(write_result("final"));
        t
    };
    let mut cfg = config(10, 100);
    cfg.tools = vec!["jina".to_owned()];
    let wf = Workflow::new(
        vec![a],
        vec![edge("A", "__end"), edge("__end", "end")],
        cfg,
        None,
        rv_read("final"),
    );
    let mut exec = Execution::start(None, wf, ProgramMemory::new(), false);
    let intent = "{\"arguments\":{\"website\":\"https://x\"},\"name\":\"jina_web_scraper\"}";
    let mut guard = 0;
    loop {
        guard += 1;
        assert!(guard < 50);
        match exec.prepare_step(0) {
            StepEvent::Await(TaskAction::FunctionCall { prompt, tools, raw_mode }) => {
                assert!(raw_mode);
                assert_eq!(prompt, "fetch https://x");
                assert_eq!(tools.len(), 1);
                assert!(matches!(tools[0], ToolSelection::Jina));
                if matches!(exec.complete_task(Ok(intent.to_owned())), StepEvent::Finished) {
                    break;
                }
            }
            StepEvent::Finished => break,
            StepEvent::Acted => {}
            _ => panic!("unexpected event"),
        }
    }
    assert_eq!(exec.finish().unwrap(), intent);
}

#[test]
fn post_process_pipeline_trims_and_replaces() {
    let a = {
        let mut t = user_task("A", "anything", Operator::Generation);
        t.outputs.push(write_result("final"));
        t
    };
    let rv = TaskOutput {
        input: TaskOutputInput::Single(read_value("final")),
        to_json: None,
        post_process: Some(vec![
            TaskPostProcess {
                process_type: PostProcessType::Trim,
                lhs: None,
                rhs: None,
            },
            TaskPostProcess {
                process_type: PostProcessType::ToLower,
                lhs: None,
                rhs: None,
            },
            TaskPostProcess {
                process_type: PostProcessType::Replace,
                lhs: Some("world".to_owned()),
                rhs: Some("there".to_owned()),
            },
        ]),
    };
    let wf = Workflow::new(
        vec![a],
        vec![edge("A", "__end"), edge("__end", "end")],
        config(10, 100),
        None,
        rv,
    );
    let mut exec = Execution::start(None, wf, ProgramMemory::new(), false);
    drive(&mut exec, vec![Ok("  Hello World  ".to_owned())]);
    assert_eq!(exec.finish().unwrap(), "hello there");
}

#[test]
fn zero_max_steps_reports_max_steps_reached() {
    let a = user_task("A", "never runs", Operator::Generation);
    let wf = Workflow::new(
        vec![a],
        vec![edge("A", "__end"), edge("__end", "end")],
        config(0, 100),
        None,
        rv_read("final"),
    );
    let mut exec = Execution::start(None, wf, ProgramMemory::new(), false);
    assert!(matches!(exec.prepare_step(0), StepEvent::Finished));
    match exec.finish() {
        Err(ExecutionError::WorkflowFailed(msg)) => assert_eq!(msg, "Max steps reached"),
        _ => panic!("expected the step budget to trip"),
    }
}

#[test]
fn zero_max_time_reports_time_exceeded() {
    let a = user_task("A", "never runs", Operator::Generation);
    let wf = Workflow::new(
        vec![a],
        vec![edge("A", "__end"), edge("__end", "end")],
        config(10, 0),
        None,
        rv_read("final"),
    );
    let mut exec = Execution::start(None, wf, ProgramMemory::new(), false);
    assert!(matches!(exec.prepare_step(0), StepEvent::Finished));
    match exec.finish() {
        Err(ExecutionError::WorkflowFailed(msg)) => {
            assert_eq!(msg, "Max execution time exceeded")
        }
        _ => panic!("expected the time budget to trip"),
    }
}

#[test]
fn similarity_condition_branches_on_scores() {
    let a = {
        let mut t = user_task("A", "store", Operator::Generation);
        t.outputs.push(write_result("out"));
        t
    };
    let b = {
        let mut t = user_task("B", "similar", Operator::Generation);
        t.outputs.push(write_literal("ran_b", "1"));
        t
    };
    let c = {
        let mut t = user_task("C", "not similar", Operator::Generation);
        t.outputs.push(write_literal("ran_c", "1"));
        t
    };
    let mut a_edge = edge("A", "B");
    a_edge.condition = Some(Condition {
        input: read_value("out"),
        expected: "some expected text".to_owned(),
        expression: Expression::HaveSimilar,
        target_if_not: "C".to_owned(),
    });
    let wf = Workflow::new(
        vec![a, b, c],
        vec![
            a_edge,
            edge("B", "__end"),
            edge("C", "__end"),
            edge("__end", "end"),
        ],
        config(10, 100),
        None,
        rv_read("ran_c"),
    );
    let mut exec = Execution::start(None, wf, ProgramMemory::new(), false);
    let mut saw_similar_request = false;
    let mut guard = 0;
    let mut pending: Option<StepEvent> = None;
    loop {
        guard += 1;
        assert!(guard < 50);
        let event = match pending.take() {
            Some(e) => e,
            None => exec.prepare_step(0),
        };
        match event {
            StepEvent::Await(_) => {
                pending = Some(exec.complete_task(Ok("stored".to_owned())));
            }
            StepEvent::AwaitSimilar { expected } => {
                saw_similar_request = true;
                assert_eq!(expected, "some expected text");
                // no chunk scores above 0.95: the alternative branch is taken
                let scores: Vec<i64> = vec![100000];
                exec.resolve_similar(&scores);
            }
            StepEvent::Acted => {}
            StepEvent::Finished => break,
        }
    }
    assert!(saw_similar_request);
    assert!(exec.memory.read("ran_c").is_some());
    assert!(exec.memory.read("ran_b").is_none());
}

#[test]
fn caller_input_lands_under_reserved_key() {
    let a = {
        let mut t = user_task("A", "Echo: {q}", Operator::Generation);
        t.inputs.push(Input {
            name: "q".to_owned(),
            value: InputValue {
                value_type: InputValueType::Input,
                index: None,
                search_query: None,
                key: String::new(),
            },
            required: true,
        });
        t.outputs.push(write_result("final"));
        t
    };
    let wf = Workflow::new(
        vec![a],
        vec![edge("A", "__end"), edge("__end", "end")],
        config(10, 100),
        None,
        rv_read("final"),
    );
    let input = Entry::Text("How does reiki work?".to_owned());
    let mut exec = Execution::start(Some(&input), wf, ProgramMemory::new(), false);
    drive(&mut exec, Vec::new());
    assert_eq!(exec.finish().unwrap(), "Echo: How does reiki work?");
}

#[test]
fn missing_required_input_fails_the_task() {
    let a = {
        let mut t = user_task("A", "Echo: {v}", Operator::Generation);
        t.inputs.push(Input {
            name: "v".to_owned(),
            value: read_value("never_written"),
            required: true,
        });
        t
    };
    let wf = Workflow::new(
        vec![a],
        vec![edge("A", "__end"), edge("__end", "end")],
        config(10, 100),
        None,
        rv_read("final"),
    );
    let mut exec = Execution::start(None, wf, ProgramMemory::new(), false);
    drive(&mut exec, Vec::new());
    match exec.finish() {
        Err(ExecutionError::WorkflowFailed(msg)) => assert_eq!(msg, "Invalid input provided"),
        _ => panic!("expected the invalid-input failure"),
    }
    // the phase records the failure shape as well
}

#[test]
fn search_operator_requires_a_query() {
    let a = {
        let mut t = user_task("A", "{\"lang\":\"en\"}", Operator::Search);
        t.outputs.push(write_result("final"));
        t
    };
    let wf = Workflow::new(
        vec![a],
        vec![edge("A", "__end"), edge("__end", "end")],
        config(10, 100),
        None,
        rv_read("final"),
    );
    let mut exec = Execution::start(None, wf, ProgramMemory::new(), false);
    drive(&mut exec, Vec::new());
    match exec.finish() {
        Err(ExecutionError::WorkflowFailed(msg)) => {
            assert_eq!(msg, "Web search failed Query parameter is required")
        }
        _ => panic!("expected the missing-query failure"),
    }
}

#[test]
fn search_operator_extracts_query_parameters() {
    let a = {
        let mut t = user_task(
            "A",
            "{\"query\":\"rust verifier\",\"lang\":\"en\",\"n_results\":2}",
            Operator::Search,
        );
        t.outputs.push(write_result("final"));
        t
    };
    let wf = Workflow::new(
        vec![a],
        vec![edge("A", "__end"), edge("__end", "end")],
        config(10, 100),
        None,
        rv_read("final"),
    );
    let mut exec = Execution::start(None, wf, ProgramMemory::new(), true);
    let mut done = false;
    let mut guard = 0;
    while !done {
        guard += 1;
        assert!(guard < 50);
        match exec.prepare_step(0) {
            StepEvent::Await(TaskAction::WebSearch {
                query,
                search_type,
                lang,
                n_results,
                use_serper,
            }) => {
                assert_eq!(query, "rust verifier");
                assert!(search_type.is_none());
                assert_eq!(lang.unwrap(), "en");
                assert_eq!(n_results, Some(2));
                assert!(use_serper);
                if matches!(exec.complete_task(Ok("results".to_owned())), StepEvent::Finished) {
                    done = true;
                }
            }
            StepEvent::Finished => done = true,
            StepEvent::Acted => {}
            _ => panic!("unexpected event"),
        }
    }
    assert_eq!(exec.finish().unwrap(), "results");
}

#[test]
fn unknown_task_fails_the_workflow() {
    let wf = Workflow::new(
        Vec::new(),
        vec![edge("ghost", "__end"), edge("__end", "end")],
        config(10, 100),
        None,
        rv_read("final"),
    );
    let mut exec = Execution::start(None, wf, ProgramMemory::new(), false);
    assert!(matches!(exec.prepare_step(0), StepEvent::Finished));
    match exec.finish() {
        Err(ExecutionError::WorkflowFailed(msg)) => {
            assert_eq!(msg, "Task with id [ghost] not found")
        }
        _ => panic!("expected the lookup failure"),
    }
}

#[test]
fn multi_return_value_renders_as_json_array() {
    let a = {
        let mut t = user_task("A", "anything", Operator::Generation);
        t.outputs.push(write_literal("x", "1"));
        t.outputs.push(write_literal("y", "two"));
        t
    };
    let rv = TaskOutput {
        input: TaskOutputInput::Multiple(vec![read_value("x"), read_value("y")]),
        to_json: Some(true),
        post_process: None,
    };
    let wf = Workflow::new(
        vec![a],
        vec![edge("A", "__end"), edge("__end", "end")],
        config(10, 100),
        None,
        rv,
    );
    let mut exec = Execution::start(None, wf, ProgramMemory::new(), false);
    drive(&mut exec, Vec::new());
    assert_eq!(exec.finish().unwrap(), "[\"1\",\"two\"]");
}

#[test]
fn phase_reports_completion() {
    let wf = Workflow::new(
        Vec::new(),
        vec![edge("__end", "end")],
        config(10, 100),
        None,
        rv_read("final"),
    );
    let mut exec = Execution::start(None, wf, ProgramMemory::new(), false);
    assert!(matches!(exec.prepare_step(0), StepEvent::Finished));
    assert!(matches!(exec.phase, Phase::Done { outcome: Ok(()) }));
}

#[test]
fn push_outputs_feed_pop_inputs() {
    let a = {
        let mut t = user_task("A", "produce", Operator::Generation);
        t.outputs.push(Output {
            output_type: OutputType::Push,
            key: "st".to_owned(),
            value: "__result".to_owned(),
        });
        t
    };
    let b = {
        let mut t = user_task("B", "got {v}", Operator::Generation);
        t.inputs.push(Input {
            name: "v".to_owned(),
            value: InputValue {
                value_type: InputValueType::Pop,
                index: None,
                search_query: None,
                key: "st".to_owned(),
            },
            required: true,
        });
        t.outputs.push(write_result("final"));
        t
    };
    let wf = Workflow::new(
        vec![a, b],
        vec![edge("A", "B"), edge("B", "__end"), edge("__end", "end")],
        config(10, 100),
        None,
        rv_read("final"),
    );
    let mut exec = Execution::start(None, wf, ProgramMemory::new(), false);
    drive(&mut exec, vec![Ok("thing".to_owned())]);
    assert_eq!(exec.finish().unwrap(), "got thing");
    // the pop consumed the only stacked entry
    assert_eq!(exec.memory.size("st"), 0);
}

#[test]
fn return_value_can_peek_and_measure_stacks() {
    let external = vec![(
        "st".to_owned(),
        MemoryInputType::Page(vec![
            Entry::Text("x".to_owned()),
            Entry::Text("y".to_owned()),
        ]),
    )];
    let rv = TaskOutput {
        input: TaskOutputInput::Single(InputValue {
            value_type: InputValueType::Peek,
            index: Some(1),
            search_query: None,
            key: "st".to_owned(),
        }),
        to_json: None,
        post_process: None,
    };
    let wf = Workflow::new(
        Vec::new(),
        vec![edge("__end", "end")],
        config(10, 100),
        Some(external),
        rv,
    );
    let mut exec = Execution::start(None, wf, ProgramMemory::new(), false);
    assert!(matches!(exec.prepare_step(0), StepEvent::Finished));
    assert_eq!(exec.finish().unwrap(), "y");
    assert_eq!(exec.memory.size("st"), 2);
}

#[test]
fn return_value_can_read_stack_size() {
    let external = vec![(
        "st".to_owned(),
        MemoryInputType::Page(vec![
            Entry::Text("x".to_owned()),
            Entry::Text("y".to_owned()),
        ]),
    )];
    let rv = TaskOutput {
        input: TaskOutputInput::Single(InputValue {
            value_type: InputValueType::Size,
            index: None,
            search_query: None,
            key: "st".to_owned(),
        }),
        to_json: None,
        post_process: None,
    };
    let wf = Workflow::new(
        Vec::new(),
        vec![edge("__end", "end")],
        config(10, 100),
        Some(external),
        rv,
    );
    let mut exec = Execution::start(None, wf, ProgramMemory::new(), false);
    assert!(matches!(exec.prepare_step(0), StepEvent::Finished));
    assert_eq!(exec.finish().unwrap(), "2");
}
