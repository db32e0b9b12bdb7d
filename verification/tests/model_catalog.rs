use ollama_workflows::models::{Model, ModelProvider};

const MODEL_NAME: &str = "phi3:3.8b";

#[test]
fn test_model_string_conversion() {
    let model = Model::Phi3_5Mini;

    // convert to string
    let model_str: String = model.name();
    assert_eq!(model_str, MODEL_NAME);

    // (try) convert from string
    let model_from = Model::try_from_name(model_str.as_str()).expect("should convert");
    assert_eq!(model_from, model);

    // (try) convert from string
    let model = Model::try_from_name("this-model-does-not-will-not-exist");
    assert!(model.is_none());
}

#[test]
fn provider_follows_model() {
    assert_eq!(Model::GPT4o.provider(), ModelProvider::OpenAI);
    assert_eq!(Model::Phi3_5Mini.provider(), ModelProvider::Ollama);
    assert_eq!(Model::Gemini15Flash.provider(), ModelProvider::Gemini);
    assert_eq!(Model::ORR1.provider(), ModelProvider::OpenRouter);
}

#[test]
fn provider_names_and_keys() {
    assert_eq!(ModelProvider::OpenAI.name(), "openai");
    assert_eq!(ModelProvider::Ollama.name(), "ollama");
    assert_eq!(ModelProvider::OpenAI.api_key_var(), "OPENAI_API_KEY");
    assert_eq!(ModelProvider::Gemini.api_key_var(), "GEMINI_API_KEY");
    assert_eq!(ModelProvider::OpenRouter.api_key_var(), "OPENROUTER_API_KEY");
    assert_eq!(ModelProvider::Ollama.api_key_var(), "");
}

#[test]
fn tool_calling_support_is_per_model() {
    assert!(Model::GPT4o.supports_tool_calling());
    assert!(Model::Llama3_1_8B.supports_tool_calling());
    assert!(!Model::O1Mini.supports_tool_calling());
    assert!(!Model::NousTheta.supports_tool_calling());
}

#[test]
fn reasoning_wrap_uses_think_tags() {
    let wrapped = ollama_workflows::executor::wrap_reasoning("step one", "Hi!");
    assert_eq!(wrapped, "<think>\nstep one\n</think>\n\nHi!");
    assert!(wrapped.contains("<think>") && wrapped.contains("</think>"));
    assert!(Model::ORR1.has_reasoning());
    assert!(!Model::GPT4o.has_reasoning());
}
