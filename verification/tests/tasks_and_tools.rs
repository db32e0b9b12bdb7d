use ollama_workflows::atomics::{
    CustomToolModeTemplate, CustomToolTemplate, Expression, MessageInput, Operator, Task,
    in_tools,
};
use ollama_workflows::tools::{
    CustomTool, CustomToolMode, Jina, SearchResult, ToolSelection, get_tool_by_name,
    normalize_tool_name, render_search_results, resolve_tools,
};

fn simple_task() -> Task {
    Task {
        id: "E".to_owned(),
        name: String::new(),
        description: String::new(),
        messages: vec![MessageInput::new_user_message("hello")],
        operator: Operator::Generation,
        inputs: Vec::new(),
        outputs: Vec::new(),
        schema: None,
    }
}

#[test]
fn test_task_mutable() {
    let mut task = simple_task();

    let task_id = "E";
    assert_eq!(task.id, task_id);

    assert_eq!(task.messages.len(), 1);
    task.append_assistant_message("This is your response.");
    task.append_user_message("Thank you.");
    assert_eq!(task.messages.len(), 3);
}

#[test]
fn message_constructors_set_roles() {
    let a = MessageInput::new_assistant_message("hi");
    assert_eq!(a.role, "assistant");
    assert_eq!(a.content, "hi");
    let u = MessageInput::new_user_message("yo");
    assert_eq!(u.role, "user");
    assert_eq!(u.content, "yo");
}

#[test]
fn in_tools_checks_the_allowlist() {
    assert!(in_tools(&vec!["jina".to_owned(), "serper".to_owned()]));
    assert!(!in_tools(&vec!["jina".to_owned(), "warp_drive".to_owned()]));
    assert!(in_tools(&Vec::new()));
}

#[test]
fn all_expansion_follows_serper_bit() {
    let names = vec!["ALL".to_owned()];
    let with_key = resolve_tools(&names, &None, true).unwrap();
    assert_eq!(with_key.len(), 3);
    assert!(matches!(with_key[0], ToolSelection::Serper));
    assert!(matches!(with_key[1], ToolSelection::Stock));
    assert!(matches!(with_key[2], ToolSelection::Jina));

    let without_key = resolve_tools(&names, &None, false).unwrap();
    assert_eq!(without_key.len(), 3);
    assert!(matches!(without_key[0], ToolSelection::DuckDuckGo));
    assert!(matches!(without_key[1], ToolSelection::Stock));
    assert!(matches!(without_key[2], ToolSelection::Jina));
}

#[test]
fn unknown_tool_fails_resolution() {
    let names = vec!["time_machine".to_owned()];
    assert!(resolve_tools(&names, &None, false).is_err());
}

#[test]
fn custom_tools_are_appended() {
    let names = vec!["jina".to_owned()];
    let templates = Some(vec![CustomToolTemplate {
        name: "mine".to_owned(),
        description: "does things".to_owned(),
        mode: CustomToolModeTemplate::Custom {
            parameters: "{\"type\":\"object\"}".to_owned(),
        },
    }]);
    let tools = resolve_tools(&names, &templates, false).unwrap();
    assert_eq!(tools.len(), 2);
    match &tools[1] {
        ToolSelection::Custom(ct) => {
            assert_eq!(ct.name, "mine");
            assert_eq!(ct.parameters(), "{\"type\":\"object\"}");
        }
        _ => panic!("expected the user-defined tool"),
    }
}

#[test]
fn http_tool_builds_schema_from_body() {
    let tool = CustomTool::new_from_template(CustomToolTemplate {
        name: "poster".to_owned(),
        description: "posts".to_owned(),
        mode: CustomToolModeTemplate::HttpRequest {
            url: "https://api.example.com".to_owned(),
            method: "POST".to_owned(),
            headers: Vec::new(),
            body: vec![
                ("city".to_owned(), String::new()),
                ("unit".to_owned(), String::new()),
            ],
        },
    });
    assert!(matches!(tool.mode, CustomToolMode::HttpRequest { .. }));
    let schema = tool.parameters();
    assert_eq!(
        schema,
        "{\"type\":\"object\",\"properties\":{\"city\":{\"description\":\"The value for city\",\"type\":\"string\"},\"unit\":{\"description\":\"The value for unit\",\"type\":\"string\"}},\"required\":[\"city\",\"unit\"]}"
    );
}

#[test]
fn jina_declares_itself() {
    let jina = Jina {};
    assert_eq!(jina.name(), "jina_web_scraper");
    assert!(jina.description().contains("Jina"));
    assert!(jina.parameters().contains("\"website\""));
    assert!(matches!(get_tool_by_name("jina"), ToolSelection::Jina));
    assert!(matches!(get_tool_by_name("nonsense"), ToolSelection::Scraper));
}

#[test]
fn tool_names_normalize() {
    assert_eq!(normalize_tool_name("My Fancy Tool"), "my_fancy_tool");
    assert_eq!(normalize_tool_name("stock"), "stock");
}

#[test]
fn search_results_render_as_json() {
    let results = vec![SearchResult {
        title: "A \"title\"".to_owned(),
        link: "https://a".to_owned(),
        snippet: "text".to_owned(),
    }];
    assert_eq!(
        render_search_results(&results),
        "[{\"title\":\"A \\\"title\\\"\",\"link\":\"https://a\",\"snippet\":\"text\"}]"
    );
    assert_eq!(render_search_results(&Vec::new()), "[]");
}

#[test]
fn expressions_compare_texts() {
    assert!(Expression::Equal.evaluate("yes", "yes"));
    assert!(!Expression::Equal.evaluate("yes", "no"));
    assert!(Expression::NotEqual.evaluate("yes", "no"));
    assert!(Expression::Contains.evaluate("hello world", "lo wo"));
    assert!(Expression::NotContains.evaluate("hello", "xyz"));
}

#[test]
fn expressions_compare_numerals() {
    assert!(Expression::GreaterThan.evaluate("10", "9.5"));
    assert!(Expression::LessThan.evaluate("-2", "-1.5"));
    assert!(Expression::GreaterThanOrEqual.evaluate("0.95", "0.95"));
    assert!(Expression::LessThanOrEqual.evaluate("+1.50", "1.5"));
    assert!(!Expression::GreaterThan.evaluate("abc", "1"));
    assert!(!Expression::LessThan.evaluate("1", ""));
    assert!(Expression::GreaterThan.evaluate("0.3", "0.25"));
    assert!(!Expression::GreaterThan.evaluate("-0", "0"));
    assert!(Expression::GreaterThanOrEqual.evaluate("-0.0", "0"));
}

#[test]
fn schema_decoding_round_trip() {
    // "eyJ0eXBlIjoib2JqZWN0In0=" is the standard base64 of {"type":"object"}
    let decoded = ollama_workflows::executor::decode_schema("eyJ0eXBlIjoib2JqZWN0In0=");
    assert_eq!(decoded.unwrap(), "{\"type\":\"object\"}");
    assert!(ollama_workflows::executor::decode_schema("!!!not base64!!!").is_none());
}

#[test]
fn template_fill_substitutes_every_occurrence() {
    let pairs = vec![("name".to_owned(), "hi".to_owned())];
    let filled = ollama_workflows::executor::fill_one("Say {name} and {name}!", &pairs);
    assert_eq!(filled, "Say hi and hi!");
    assert!(!filled.contains("{name}"));
    // substituting again changes nothing
    assert_eq!(ollama_workflows::executor::fill_one(filled.as_str(), &pairs), filled);
}
