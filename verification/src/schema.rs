//! Data schema for the remote inference client: model identifiers, chat
//! prompts, and the response shapes. Parsing between the wire names and
//! the enumerations is exact; the HTTP transport around these types is not
//! part of the library.

use vstd::prelude::*;
use vstd::string::StringExecFns;
use vstd::string::StrSliceExecFns;

verus! {

/// An inference-layer error.
#[derive(Debug, Clone)]
pub enum LlmError {
    ModelNotSupported,
    RuntimeError(String),
    InvalidInput(String),
}

/// LLM model
#[derive(Clone, Copy, Debug, PartialEq, Eq, Structural)]
pub enum Model {
    GPT5,
    GPT5Mini,
    GPT5Nano,
    GPT5Chat,
    GPT45,
    GPT41,
    GPT41Mini,
    GPT41Nano,
    GPT4,
    GPT4o,
    GPT4oMini,
    O4Mini,
    O3,
    O1,
}

/// The wire name of each model.
pub open spec fn model_name(m: Model) -> Seq<char> {
    match m {
        Model::GPT5 => "gpt-5"@,
        Model::GPT5Mini => "gpt-5-mini"@,
        Model::GPT5Nano => "gpt-5-nano"@,
        Model::GPT5Chat => "gpt-5-chat"@,
        Model::GPT45 => "gpt-4.5"@,
        Model::GPT41 => "gpt-4.1"@,
        Model::GPT41Mini => "gpt-4.1-mini"@,
        Model::GPT41Nano => "gpt-4.1-nano"@,
        Model::GPT4 => "gpt-4"@,
        Model::GPT4o => "gpt-4o"@,
        Model::GPT4oMini => "gpt-4o-mini"@,
        Model::O4Mini => "o4-mini"@,
        Model::O3 => "o3"@,
        Model::O1 => "o1"@,
    }
}

impl Model {
    /// Reads a model from its wire name; any other text is invalid input.
    pub fn try_from(value: &str) -> (r: Result<Model, LlmError>)
        ensures
            (r matches Ok(m) ==> model_name(m) == value@),
            (r matches Err(_) ==> forall|m: Model| model_name(m) != value@),
    {
        if crate::text::str_eq(value, "gpt-5") {
            Ok(Model::GPT5)
        } else if crate::text::str_eq(value, "gpt-5-mini") {
            Ok(Model::GPT5Mini)
        } else if crate::text::str_eq(value, "gpt-5-nano") {
            Ok(Model::GPT5Nano)
        } else if crate::text::str_eq(value, "gpt-5-chat") {
            Ok(Model::GPT5Chat)
        } else if crate::text::str_eq(value, "gpt-4.5") {
            Ok(Model::GPT45)
        } else if crate::text::str_eq(value, "gpt-4.1") {
            Ok(Model::GPT41)
        } else if crate::text::str_eq(value, "gpt-4.1-mini") {
            Ok(Model::GPT41Mini)
        } else if crate::text::str_eq(value, "gpt-4.1-nano") {
            Ok(Model::GPT41Nano)
        } else if crate::text::str_eq(value, "gpt-4") {
            Ok(Model::GPT4)
        } else if crate::text::str_eq(value, "gpt-4o") {
            Ok(Model::GPT4o)
        } else if crate::text::str_eq(value, "gpt-4o-mini") {
            Ok(Model::GPT4oMini)
        } else if crate::text::str_eq(value, "o4-mini") {
            Ok(Model::O4Mini)
        } else if crate::text::str_eq(value, "o3") {
            Ok(Model::O3)
        } else if crate::text::str_eq(value, "o1") {
            Ok(Model::O1)
        } else {
            Err(LlmError::InvalidInput(crate::text::describe_invalid(value, "is not a valid model name")))
        }
    }

    /// The model's wire name.
    pub fn as_str(&self) -> (r: &'static str)
        ensures
            r@ == model_name(*self),
    {
        match self {
            Model::GPT5 => "gpt-5",
            Model::GPT5Mini => "gpt-5-mini",
            Model::GPT5Nano => "gpt-5-nano",
            Model::GPT5Chat => "gpt-5-chat",
            Model::GPT45 => "gpt-4.5",
            Model::GPT41 => "gpt-4.1",
            Model::GPT41Mini => "gpt-4.1-mini",
            Model::GPT41Nano => "gpt-4.1-nano",
            Model::GPT4 => "gpt-4",
            Model::GPT4o => "gpt-4o",
            Model::GPT4oMini => "gpt-4o-mini",
            Model::O4Mini => "o4-mini",
            Model::O3 => "o3",
            Model::O1 => "o1",
        }
    }
}

/// The author of a chat message.
#[derive(Clone, Copy, Debug, PartialEq, Eq, Structural)]
pub enum Role {
    System,
    User,
    Assistant,
    Tool,
}

/// The wire name of each role.
pub open spec fn role_name(r: Role) -> Seq<char> {
    match r {
        Role::System => "system"@,
        Role::User => "user"@,
        Role::Assistant => "assistant"@,
        Role::Tool => "tool"@,
    }
}

impl Role {
    /// Reads a role from its wire name.
    pub fn try_from(value: &str) -> (r: Result<Role, LlmError>)
        ensures
            (r matches Ok(m) ==> role_name(m) == value@),
            (r matches Err(_) ==> forall|m: Role| role_name(m) != value@),
    {
        if crate::text::str_eq(value, "system") {
            Ok(Role::System)
        } else if crate::text::str_eq(value, "user") {
            Ok(Role::User)
        } else if crate::text::str_eq(value, "assistant") {
            Ok(Role::Assistant)
        } else if crate::text::str_eq(value, "tool") {
            Ok(Role::Tool)
        } else {
            Err(LlmError::InvalidInput(crate::text::describe_invalid(value, "not a valid role")))
        }
    }

    /// The role's wire name.
    pub fn as_str(&self) -> (r: &'static str)
        ensures
            r@ == role_name(*self),
    {
        match self {
            Role::System => "system",
            Role::User => "user",
            Role::Assistant => "assistant",
            Role::Tool => "tool",
        }
    }
}

/// How embedding vectors are encoded on the wire.
#[derive(Clone, Copy, Debug, PartialEq, Eq, Structural)]
pub enum EncodingFormat {
    Float,
    Base64,
}

/// The wire name of each encoding format.
pub open spec fn encoding_format_name(f: EncodingFormat) -> Seq<char> {
    match f {
        EncodingFormat::Float => "float"@,
        EncodingFormat::Base64 => "base64"@,
    }
}

impl EncodingFormat {
    /// Reads an encoding format from its wire name.
    pub fn try_from(value: &str) -> (r: Result<EncodingFormat, LlmError>)
        ensures
            (r matches Ok(m) ==> encoding_format_name(m) == value@),
            (r matches Err(_) ==> forall|m: EncodingFormat| encoding_format_name(m) != value@),
    {
        if crate::text::str_eq(value, "float") {
            Ok(EncodingFormat::Float)
        } else if crate::text::str_eq(value, "base64") {
            Ok(EncodingFormat::Base64)
        } else {
            Err(
                LlmError::InvalidInput(
                    crate::text::describe_invalid(value, "not a valid encoding format"),
                ),
            )
        }
    }

    /// The format's wire name.
    pub fn as_str(&self) -> (r: &'static str)
        ensures
            r@ == encoding_format_name(*self),
    {
        match self {
            EncodingFormat::Float => "float",
            EncodingFormat::Base64 => "base64",
        }
    }
}

/// An embedding model: one of the known names, or any custom name.
#[derive(Debug)]
pub enum EmbeddingModels {
    TextEmbeddingAda002,
    TextEmbedding3Small,
    TextEmbedding3Large,
    Custom(String),
}

/// The wire name of an embedding model.
pub open spec fn embedding_model_name(m: EmbeddingModels) -> Seq<char> {
    match m {
        EmbeddingModels::TextEmbeddingAda002 => "text-embedding-ada-002"@,
        EmbeddingModels::TextEmbedding3Small => "text-embedding-3-small"@,
        EmbeddingModels::TextEmbedding3Large => "text-embedding-3-large"@,
        EmbeddingModels::Custom(s) => s@,
    }
}

impl EmbeddingModels {
    /// Reads an embedding model from its wire name; an unknown name is a
    /// custom model, never an error.
    pub fn try_from(value: &str) -> (r: Result<EmbeddingModels, LlmError>)
        ensures
            r matches Ok(m) && embedding_model_name(m) == value@,
    {
        if crate::text::str_eq(value, "text-embedding-ada-002") {
            Ok(EmbeddingModels::TextEmbeddingAda002)
        } else if crate::text::str_eq(value, "text-embedding-3-small") {
            Ok(EmbeddingModels::TextEmbedding3Small)
        } else if crate::text::str_eq(value, "text-embedding-3-large") {
            Ok(EmbeddingModels::TextEmbedding3Large)
        } else {
            Ok(EmbeddingModels::Custom(String::from_str(value)))
        }
    }

    /// The model's wire name.
    pub fn as_str(&self) -> (r: &str)
        ensures
            r@ == embedding_model_name(*self),
    {
        match self {
            EmbeddingModels::TextEmbeddingAda002 => "text-embedding-ada-002",
            EmbeddingModels::TextEmbedding3Small => "text-embedding-3-small",
            EmbeddingModels::TextEmbedding3Large => "text-embedding-3-large",
            EmbeddingModels::Custom(model) => model.as_str(),
        }
    }
}

/// How much effort the model spends reasoning before it answers.
#[derive(Clone, Copy, Debug, PartialEq, Eq, Structural)]
pub enum ReasoningEffort {
    Minimal,
    Low,
    Medium,
    High,
}

/// The wire name of each reasoning effort.
pub open spec fn reasoning_effort_name(e: ReasoningEffort) -> Seq<char> {
    match e {
        ReasoningEffort::Minimal => "minimal"@,
        ReasoningEffort::Low => "low"@,
        ReasoningEffort::Medium => "medium"@,
        ReasoningEffort::High => "high"@,
    }
}

impl ReasoningEffort {
    /// Reads a reasoning effort from its wire name.
    pub fn try_from(value: &str) -> (r: Result<ReasoningEffort, LlmError>)
        ensures
            (r matches Ok(m) ==> reasoning_effort_name(m) == value@),
            (r matches Err(_) ==> forall|m: ReasoningEffort| reasoning_effort_name(m) != value@),
    {
        if crate::text::str_eq(value, "minimal") {
            Ok(ReasoningEffort::Minimal)
        } else if crate::text::str_eq(value, "low") {
            Ok(ReasoningEffort::Low)
        } else if crate::text::str_eq(value, "medium") {
            Ok(ReasoningEffort::Medium)
        } else if crate::text::str_eq(value, "high") {
            Ok(ReasoningEffort::High)
        } else {
            Err(
                LlmError::InvalidInput(
                    crate::text::describe_invalid(value, "not a recognized reasoning effort"),
                ),
            )
        }
    }

    /// The effort's wire name.
    pub fn as_str(&self) -> (r: &'static str)
        ensures
            r@ == reasoning_effort_name(*self),
    {
        match self {
            ReasoningEffort::Minimal => "minimal",
            ReasoningEffort::Low => "low",
            ReasoningEffort::Medium => "medium",
            ReasoningEffort::High => "high",
        }
    }
}

/// How verbose the model's answer should be.
#[derive(Clone, Copy, Debug, PartialEq, Eq, Structural)]
pub enum Verbosity {
    Low,
    Medium,
    High,
}

/// The wire name of each verbosity.
pub open spec fn verbosity_name(v: Verbosity) -> Seq<char> {
    match v {
        Verbosity::Low => "low"@,
        Verbosity::Medium => "medium"@,
        Verbosity::High => "high"@,
    }
}

impl Verbosity {
    /// Reads a verbosity from its wire name.
    pub fn try_from(value: &str) -> (r: Result<Verbosity, LlmError>)
        ensures
            (r matches Ok(m) ==> verbosity_name(m) == value@),
            (r matches Err(_) ==> forall|m: Verbosity| verbosity_name(m) != value@),
    {
        if crate::text::str_eq(value, "low") {
            Ok(Verbosity::Low)
        } else if crate::text::str_eq(value, "medium") {
            Ok(Verbosity::Medium)
        } else if crate::text::str_eq(value, "high") {
            Ok(Verbosity::High)
        } else {
            Err(
                LlmError::InvalidInput(
                    crate::text::describe_invalid(value, "not a recognized verbosity"),
                ),
            )
        }
    }
}

/// One chat message: who says it, and what is said.
#[derive(Debug)]
pub struct Prompt {
    pub role: Role,
    pub content: String,
}

impl Prompt {
    /// Builds a chat message.
    pub fn new(role: Role, content: String) -> (r: Self)
        ensures
            r.role == role,
            r.content@ == content@,
    {
        Self { role, content }
    }
}

/// A request for embeddings of a batch of inputs.
#[derive(Debug)]
pub struct CreateEmbeddingRequest {
    pub input: Vec<String>,
    pub model: String,
    pub encoding_format: Option<EncodingFormat>,
    pub dimensions: Option<u32>,
    pub user: Option<String>,
}

impl CreateEmbeddingRequest {
    /// Builds an embedding request with the optional knobs unset.
    pub fn new(input: Vec<String>, model: String) -> (r: Self)
        ensures
            r.input@ == input@,
            r.model@ == model@,
            r.encoding_format is None,
            r.dimensions is None,
            r.user is None,
    {
        Self { input, model, encoding_format: None, dimensions: None, user: None }
    }
}

/// One choice of a chat completion response.
#[derive(Debug)]
pub struct ChatCompletionChoice {
    /// The index of the choice in the list of choices.
    pub index: u32,
    pub message: ChatCompletionResponseMessage,
    /// Why the model stopped generating tokens.
    pub finish_reason: String,
    /// Log probability information for the choice.
    pub logprobs: Option<Logprobs>,
}

/// A chat completion message generated by the model.
#[derive(Debug)]
pub struct ChatCompletionResponseMessage {
    /// The role of the author of this message.
    pub role: String,
    /// The contents of the message.
    pub content: String,
    /// The refusal message generated by the model.
    pub refusal: Option<String>,
}

/// Log probability information of a choice.
#[derive(Debug)]
pub struct Logprobs {
    /// Message content tokens with log probability information.
    pub content: Option<Vec<String>>,
    /// Message refusal tokens with log probability information.
    pub refusal: Option<Vec<String>>,
}

/// Which remote API family the engine speaks.
#[derive(Clone, Copy, Debug, PartialEq, Eq, Structural)]
pub enum CustomLlm {
    /// Compatible with OpenAI's API alongside some other LLMs.
    OpenAi,
    Default,
}

impl Default for CustomLlm {
    /// The plain HTTP API is assumed where none is named.
    fn default() -> (r: Self)
        ensures
            r == CustomLlm::Default,
    {
        CustomLlm::Default
    }
}

} // verus!
