//! The closed set of recognized models, each with a stable canonical string,
//! and the provider category that hosts it.

use vstd::prelude::*;
use vstd::string::StringExecFns;
use crate::strings::str_eq;

verus! {

/// A recognized model.
#[derive(Debug, Clone, Copy, PartialEq, Eq, Structural)]
pub enum Model {
    NousTheta,
    Phi3Medium,
    Phi3Medium128k,
    Phi3_5Mini,
    Phi3_5MiniFp16,
    Gemma2_9B,
    Gemma2_9BFp16,
    Llama3_1_8B,
    Llama3_1_8Bq8,
    Llama3_1_8Bf16,
    Llama3_1_70B,
    Llama3_1_70Bq8,
    Llama3_2_3B,
    Qwen2_5_7B,
    Qwen2_5_7Bf16,
    Qwen2_5_32Bf16,
    GPT4Turbo,
    GPT4o,
    GPT4oMini,
    O1Mini,
    O1Preview,
    Gemini15Flash,
    Gemini15Pro,
    ORR1,
}

/// The service hosting a model: local Ollama, or a remote API.
#[derive(Debug, Clone, Copy, PartialEq, Eq, Structural)]
pub enum ModelProvider {
    Ollama,
    OpenAI,
    Gemini,
    OpenRouter,
}

/// The canonical string of each model; deserialization accepts exactly these.
pub open spec fn model_name_spec(m: Model) -> Seq<char> {
    match m {
        Model::NousTheta => "adrienbrault/nous-hermes2theta-llama3-8b:q8_0"@,
        Model::Phi3Medium => "phi3:14b-medium-4k-instruct-q4_1"@,
        Model::Phi3Medium128k => "phi3:14b-medium-128k-instruct-q4_1"@,
        Model::Phi3_5Mini => "phi3:3.8b"@,
        Model::Phi3_5MiniFp16 => "phi3.5:3.8b-mini-instruct-fp16"@,
        Model::Gemma2_9B => "gemma2:9b-instruct-q8_0"@,
        Model::Gemma2_9BFp16 => "gemma2:9b-instruct-fp16"@,
        Model::Llama3_1_8B => "llama3.1:latest"@,
        Model::Llama3_1_8Bq8 => "llama3.1:8b-instruct-q8_0"@,
        Model::Llama3_1_8Bf16 => "llama3.1:8b-instruct-fp16"@,
        Model::Llama3_1_70B => "llama3.1:70b-instruct-q4_0"@,
        Model::Llama3_1_70Bq8 => "llama3.1:70b-instruct-q8_0"@,
        Model::Llama3_2_3B => "llama3.2:3b"@,
        Model::Qwen2_5_7B => "qwen2.5:7b-instruct-q5_0"@,
        Model::Qwen2_5_7Bf16 => "qwen2.5:7b-instruct-fp16"@,
        Model::Qwen2_5_32Bf16 => "qwen2.5:32b-instruct-fp16"@,
        Model::GPT4Turbo => "gpt-4-turbo"@,
        Model::GPT4o => "gpt-4o"@,
        Model::GPT4oMini => "gpt-4o-mini"@,
        Model::O1Mini => "o1-mini"@,
        Model::O1Preview => "o1-preview"@,
        Model::Gemini15Flash => "gemini-1.5-flash"@,
        Model::Gemini15Pro => "gemini-1.5-pro"@,
        Model::ORR1 => "deepseek/deepseek-r1"@,
    }
}

/// The provider category of each model.
pub open spec fn provider_of(m: Model) -> ModelProvider {
    match m {
        Model::GPT4Turbo => ModelProvider::OpenAI,
        Model::GPT4o => ModelProvider::OpenAI,
        Model::GPT4oMini => ModelProvider::OpenAI,
        Model::O1Mini => ModelProvider::OpenAI,
        Model::O1Preview => ModelProvider::OpenAI,
        Model::Gemini15Flash => ModelProvider::Gemini,
        Model::Gemini15Pro => ModelProvider::Gemini,
        Model::ORR1 => ModelProvider::OpenRouter,
        _ => ModelProvider::Ollama,
    }
}

/// Whether the model can drive tool calls.
pub open spec fn supports_tool_calling_spec(m: Model) -> bool {
    match m {
        Model::GPT4Turbo => true,
        Model::GPT4o => true,
        Model::GPT4oMini => true,
        Model::Llama3_1_8B => true,
        Model::Llama3_1_8Bq8 => true,
        Model::Llama3_1_8Bf16 => true,
        Model::Phi3Medium => true,
        Model::Phi3Medium128k => true,
        Model::Gemma2_9BFp16 => true,
        Model::Qwen2_5_7B => true,
        Model::Qwen2_5_7Bf16 => true,
        Model::Qwen2_5_32Bf16 => true,
        Model::Gemini15Flash => true,
        Model::Gemini15Pro => true,
        Model::ORR1 => true,
        _ => false,
    }
}

/// Whether the model returns separate reasoning tokens.
pub open spec fn has_reasoning_spec(m: Model) -> bool {
    m is ORR1
}

/// The environment variable carrying the provider's credential; empty for
/// the local provider, which needs none.
pub open spec fn api_key_var_spec(p: ModelProvider) -> Seq<char> {
    match p {
        ModelProvider::Ollama => ""@,
        ModelProvider::OpenAI => "OPENAI_API_KEY"@,
        ModelProvider::Gemini => "GEMINI_API_KEY"@,
        ModelProvider::OpenRouter => "OPENROUTER_API_KEY"@,
    }
}

impl Model {
    /// The canonical model string.
    pub fn name(&self) -> (r: String)
        ensures
            r@ == model_name_spec(*self),
    {
        match self {
            Model::NousTheta => "adrienbrault/nous-hermes2theta-llama3-8b:q8_0".to_owned(),
            Model::Phi3Medium => "phi3:14b-medium-4k-instruct-q4_1".to_owned(),
            Model::Phi3Medium128k => "phi3:14b-medium-128k-instruct-q4_1".to_owned(),
            Model::Phi3_5Mini => "phi3:3.8b".to_owned(),
            Model::Phi3_5MiniFp16 => "phi3.5:3.8b-mini-instruct-fp16".to_owned(),
            Model::Gemma2_9B => "gemma2:9b-instruct-q8_0".to_owned(),
            Model::Gemma2_9BFp16 => "gemma2:9b-instruct-fp16".to_owned(),
            Model::Llama3_1_8B => "llama3.1:latest".to_owned(),
            Model::Llama3_1_8Bq8 => "llama3.1:8b-instruct-q8_0".to_owned(),
            Model::Llama3_1_8Bf16 => "llama3.1:8b-instruct-fp16".to_owned(),
            Model::Llama3_1_70B => "llama3.1:70b-instruct-q4_0".to_owned(),
            Model::Llama3_1_70Bq8 => "llama3.1:70b-instruct-q8_0".to_owned(),
            Model::Llama3_2_3B => "llama3.2:3b".to_owned(),
            Model::Qwen2_5_7B => "qwen2.5:7b-instruct-q5_0".to_owned(),
            Model::Qwen2_5_7Bf16 => "qwen2.5:7b-instruct-fp16".to_owned(),
            Model::Qwen2_5_32Bf16 => "qwen2.5:32b-instruct-fp16".to_owned(),
            Model::GPT4Turbo => "gpt-4-turbo".to_owned(),
            Model::GPT4o => "gpt-4o".to_owned(),
            Model::GPT4oMini => "gpt-4o-mini".to_owned(),
            Model::O1Mini => "o1-mini".to_owned(),
            Model::O1Preview => "o1-preview".to_owned(),
            Model::Gemini15Flash => "gemini-1.5-flash".to_owned(),
            Model::Gemini15Pro => "gemini-1.5-pro".to_owned(),
            Model::ORR1 => "deepseek/deepseek-r1".to_owned(),
        }
    }

    /// The model with the given canonical string, if any.
    pub fn try_from_name(s: &str) -> (r: Option<Model>)
        ensures
            match r {
                Some(m) => model_name_spec(m) == s@,
                None => forall|m: Model| model_name_spec(m) != s@,
            },
    {
        if str_eq(s, "adrienbrault/nous-hermes2theta-llama3-8b:q8_0") {
            Some(Model::NousTheta)
        } else if str_eq(s, "phi3:14b-medium-4k-instruct-q4_1") {
            Some(Model::Phi3Medium)
        } else if str_eq(s, "phi3:14b-medium-128k-instruct-q4_1") {
            Some(Model::Phi3Medium128k)
        } else if str_eq(s, "phi3:3.8b") {
            Some(Model::Phi3_5Mini)
        } else if str_eq(s, "phi3.5:3.8b-mini-instruct-fp16") {
            Some(Model::Phi3_5MiniFp16)
        } else if str_eq(s, "gemma2:9b-instruct-q8_0") {
            Some(Model::Gemma2_9B)
        } else if str_eq(s, "gemma2:9b-instruct-fp16") {
            Some(Model::Gemma2_9BFp16)
        } else if str_eq(s, "llama3.1:latest") {
            Some(Model::Llama3_1_8B)
        } else if str_eq(s, "llama3.1:8b-instruct-q8_0") {
            Some(Model::Llama3_1_8Bq8)
        } else if str_eq(s, "llama3.1:8b-instruct-fp16") {
            Some(Model::Llama3_1_8Bf16)
        } else if str_eq(s, "llama3.1:70b-instruct-q4_0") {
            Some(Model::Llama3_1_70B)
        } else if str_eq(s, "llama3.1:70b-instruct-q8_0") {
            Some(Model::Llama3_1_70Bq8)
        } else if str_eq(s, "llama3.2:3b") {
            Some(Model::Llama3_2_3B)
        } else if str_eq(s, "qwen2.5:7b-instruct-q5_0") {
            Some(Model::Qwen2_5_7B)
        } else if str_eq(s, "qwen2.5:7b-instruct-fp16") {
            Some(Model::Qwen2_5_7Bf16)
        } else if str_eq(s, "qwen2.5:32b-instruct-fp16") {
            Some(Model::Qwen2_5_32Bf16)
        } else if str_eq(s, "gpt-4-turbo") {
            Some(Model::GPT4Turbo)
        } else if str_eq(s, "gpt-4o") {
            Some(Model::GPT4o)
        } else if str_eq(s, "gpt-4o-mini") {
            Some(Model::GPT4oMini)
        } else if str_eq(s, "o1-mini") {
            Some(Model::O1Mini)
        } else if str_eq(s, "o1-preview") {
            Some(Model::O1Preview)
        } else if str_eq(s, "gemini-1.5-flash") {
            Some(Model::Gemini15Flash)
        } else if str_eq(s, "gemini-1.5-pro") {
            Some(Model::Gemini15Pro)
        } else if str_eq(s, "deepseek/deepseek-r1") {
            Some(Model::ORR1)
        } else {
            proof {
                assert forall|m: Model| model_name_spec(m) != s@ by {
                    match m {
                        Model::NousTheta => {},
                        Model::Phi3Medium => {},
                        Model::Phi3Medium128k => {},
                        Model::Phi3_5Mini => {},
                        Model::Phi3_5MiniFp16 => {},
                        Model::Gemma2_9B => {},
                        Model::Gemma2_9BFp16 => {},
                        Model::Llama3_1_8B => {},
                        Model::Llama3_1_8Bq8 => {},
                        Model::Llama3_1_8Bf16 => {},
                        Model::Llama3_1_70B => {},
                        Model::Llama3_1_70Bq8 => {},
                        Model::Llama3_2_3B => {},
                        Model::Qwen2_5_7B => {},
                        Model::Qwen2_5_7Bf16 => {},
                        Model::Qwen2_5_32Bf16 => {},
                        Model::GPT4Turbo => {},
                        Model::GPT4o => {},
                        Model::GPT4oMini => {},
                        Model::O1Mini => {},
                        Model::O1Preview => {},
                        Model::Gemini15Flash => {},
                        Model::Gemini15Pro => {},
                        Model::ORR1 => {},
                    }
                }
            }
            None
        }
    }

    /// The provider category hosting this model.
    pub fn provider(&self) -> (r: ModelProvider)
        ensures
            r == provider_of(*self),
    {
        match self {
            Model::GPT4Turbo => ModelProvider::OpenAI,
            Model::GPT4o => ModelProvider::OpenAI,
            Model::GPT4oMini => ModelProvider::OpenAI,
            Model::O1Mini => ModelProvider::OpenAI,
            Model::O1Preview => ModelProvider::OpenAI,
            Model::Gemini15Flash => ModelProvider::Gemini,
            Model::Gemini15Pro => ModelProvider::Gemini,
            Model::ORR1 => ModelProvider::OpenRouter,
            _ => ModelProvider::Ollama,
        }
    }

    /// Whether the model can drive tool calls.
    pub fn supports_tool_calling(&self) -> (r: bool)
        ensures
            r == supports_tool_calling_spec(*self),
    {
        match self {
            Model::GPT4Turbo => true,
            Model::GPT4o => true,
            Model::GPT4oMini => true,
            Model::Llama3_1_8B => true,
            Model::Llama3_1_8Bq8 => true,
            Model::Llama3_1_8Bf16 => true,
            Model::Phi3Medium => true,
            Model::Phi3Medium128k => true,
            Model::Gemma2_9BFp16 => true,
            Model::Qwen2_5_7B => true,
            Model::Qwen2_5_7Bf16 => true,
            Model::Qwen2_5_32Bf16 => true,
            Model::Gemini15Flash => true,
            Model::Gemini15Pro => true,
            Model::ORR1 => true,
            _ => false,
        }
    }

    /// Whether the model returns separate reasoning tokens.
    pub fn has_reasoning(&self) -> (r: bool)
        ensures
            r == has_reasoning_spec(*self),
    {
        match self {
            Model::ORR1 => true,
            _ => false,
        }
    }
}

impl ModelProvider {
    /// The canonical provider string.
    pub fn name(&self) -> (r: String)
        ensures
            r@ == match *self {
                ModelProvider::Ollama => "ollama"@,
                ModelProvider::OpenAI => "openai"@,
                ModelProvider::Gemini => "gemini"@,
                ModelProvider::OpenRouter => "openrouter"@,
            },
    {
        match self {
            ModelProvider::Ollama => "ollama".to_owned(),
            ModelProvider::OpenAI => "openai".to_owned(),
            ModelProvider::Gemini => "gemini".to_owned(),
            ModelProvider::OpenRouter => "openrouter".to_owned(),
        }
    }

    /// The environment variable carrying this provider's credential; empty
    /// for the local provider.
    pub fn api_key_var(&self) -> (r: &'static str)
        ensures
            r@ == api_key_var_spec(*self),
    {
        match self {
            ModelProvider::Ollama => "",
            ModelProvider::OpenAI => "OPENAI_API_KEY",
            ModelProvider::Gemini => "GEMINI_API_KEY",
            ModelProvider::OpenRouter => "OPENROUTER_API_KEY",
        }
    }
}

} // verus!
