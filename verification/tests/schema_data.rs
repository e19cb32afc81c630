//! The inference data schema: wire names round-trip through the
//! enumerations, and unknown names are rejected or fall back as specified.

use outbound_policy::schema::{
    CreateEmbeddingRequest, CustomLlm, EmbeddingModels, EncodingFormat, LlmError, Model, Prompt,
    ReasoningEffort, Role, Verbosity,
};

#[test]
fn model_names_round_trip() {
    let names = [
        "gpt-5",
        "gpt-5-mini",
        "gpt-5-nano",
        "gpt-5-chat",
        "gpt-4.5",
        "gpt-4.1",
        "gpt-4.1-mini",
        "gpt-4.1-nano",
        "gpt-4",
        "gpt-4o",
        "gpt-4o-mini",
        "o4-mini",
        "o3",
        "o1",
    ];
    for name in names {
        let model = Model::try_from(name).expect("known model name");
        assert_eq!(model.as_str(), name);
    }
    assert!(matches!(
        Model::try_from("gpt-2"),
        Err(LlmError::InvalidInput(_))
    ));
}

#[test]
fn role_names_round_trip() {
    for name in ["system", "user", "assistant", "tool"] {
        let role = Role::try_from(name).expect("known role name");
        assert_eq!(role.as_str(), name);
    }
    assert!(Role::try_from("narrator").is_err());
}

#[test]
fn encoding_format_names_round_trip() {
    assert!(matches!(
        EncodingFormat::try_from("float"),
        Ok(EncodingFormat::Float)
    ));
    assert!(matches!(
        EncodingFormat::try_from("base64"),
        Ok(EncodingFormat::Base64)
    ));
    assert_eq!(EncodingFormat::Float.as_str(), "float");
    assert_eq!(EncodingFormat::Base64.as_str(), "base64");
    assert!(EncodingFormat::try_from("utf8").is_err());
}

#[test]
fn unknown_embedding_models_become_custom() {
    assert!(matches!(
        EmbeddingModels::try_from("text-embedding-ada-002"),
        Ok(EmbeddingModels::TextEmbeddingAda002)
    ));
    let custom = EmbeddingModels::try_from("my-own-embedder").expect("never fails");
    assert_eq!(custom.as_str(), "my-own-embedder");
}

#[test]
fn reasoning_effort_and_verbosity_names_parse() {
    assert!(matches!(
        ReasoningEffort::try_from("minimal"),
        Ok(ReasoningEffort::Minimal)
    ));
    assert_eq!(ReasoningEffort::High.as_str(), "high");
    assert!(ReasoningEffort::try_from("extreme").is_err());
    assert!(matches!(Verbosity::try_from("medium"), Ok(Verbosity::Medium)));
    assert!(Verbosity::try_from("chatty").is_err());
}

#[test]
fn prompts_and_embedding_requests_carry_their_fields() {
    let prompt = Prompt::new(Role::User, "hello".to_string());
    assert!(matches!(prompt.role, Role::User));
    assert_eq!(prompt.content, "hello");

    let request = CreateEmbeddingRequest::new(
        vec!["one".to_string(), "two".to_string()],
        "text-embedding-3-small".to_string(),
    );
    assert_eq!(request.input.len(), 2);
    assert_eq!(request.model, "text-embedding-3-small");
    assert!(request.encoding_format.is_none());
    assert!(request.dimensions.is_none());
    assert!(request.user.is_none());
}

#[test]
fn the_plain_api_is_the_default() {
    assert!(matches!(CustomLlm::default(), CustomLlm::Default));
}
