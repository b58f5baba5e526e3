use elitelm::backend::create_fake_backend;
use elitelm::chat::{ChatMessage, GenerateRequest, Generation};
use elitelm::config::{AppConfig, BackendConfig, BackendMap, CoreError, FakeBackendConfig, RawAppConfig};
use elitelm::openai::{stream_body, stream_chunks, ChatCompletionChunk, ChatCompletionRequest, StreamOptions};
use elitelm::server::{
    completion_id, completion_response, model_list, new_completion_id, registry_model_name,
    model_filename, response_model, timestamp_or_zero, unix_timestamp, unlisted_registry_model, validate_chat_request, AppError,
};

fn test_config() -> AppConfig {
    let mut backends = BackendMap::new();
    backends.insert("fake".to_string(), BackendConfig::Fake(FakeBackendConfig { response_prefix: None }));
    AppConfig::from_raw(RawAppConfig { device: None, default_backend: Some("fake".to_string()), backends }).unwrap()
}

fn generate(text: &str) -> Generation {
    let mut backend = create_fake_backend("fake", &FakeBackendConfig { response_prefix: None });
    backend
        .generate(GenerateRequest {
            messages: vec![ChatMessage::new("user", text)],
            max_tokens: None,
            temperature: None,
            top_p: None,
        })
        .unwrap()
}

fn chunk_json(chunk: &ChatCompletionChunk) -> String {
    let mut root = serde_json::Map::new();
    root.insert("object".to_string(), serde_json::Value::String(chunk.object_type.clone()));
    let mut choices = Vec::new();
    for choice in &chunk.choices {
        let mut delta = serde_json::Map::new();
        if let Some(role) = &choice.delta.role {
            delta.insert("role".to_string(), serde_json::Value::String(role.clone()));
        }
        if let Some(content) = &choice.delta.content {
            delta.insert("content".to_string(), serde_json::Value::String(content.clone()));
        }
        let mut c = serde_json::Map::new();
        c.insert("delta".to_string(), serde_json::Value::Object(delta));
        choices.push(serde_json::Value::Object(c));
    }
    root.insert("choices".to_string(), serde_json::Value::Array(choices));
    if let Some(usage) = &chunk.usage {
        let mut u = serde_json::Map::new();
        u.insert("prompt_tokens".to_string(), serde_json::Value::from(usage.prompt_tokens));
        root.insert("usage".to_string(), serde_json::Value::Object(u));
    }
    serde_json::Value::Object(root).to_string()
}

#[test]
fn non_streaming_chat_completions() {
    let generation = generate("hello api");
    let response = completion_response("chatcmpl-1", 1, "fake", &generation);
    assert_eq!(response.object_type, "chat.completion");
    assert_eq!(response.choices[0].message.content, "EliteLM fake response: hello api");
}

#[test]
fn streaming_chat_completions() {
    let generation = generate("hello stream");
    let chunks = stream_chunks("chatcmpl-1", 1, "fake", &generation.pieces, generation.stats, false);
    let jsons: Vec<String> = chunks.iter().map(chunk_json).collect();
    let text = stream_body(&jsons);
    assert!(text.contains("data: {"));
    assert!(text.contains(r#""object":"chat.completion.chunk""#));
    assert!(text.contains(r#""content":"hello""#));
    assert!(text.ends_with("data: [DONE]\n\n"));
    let streamed: String = chunks
        .iter()
        .filter_map(|c| c.choices.first().and_then(|choice| choice.delta.content.clone()))
        .collect();
    assert_eq!(streamed, "EliteLM fake response: hello stream");
}

#[test]
fn streaming_chat_completions_with_usage() {
    let generation = generate("hello stream with usage");
    let chunks = stream_chunks("chatcmpl-1", 1, "fake", &generation.pieces, generation.stats, true);
    let jsons: Vec<String> = chunks.iter().map(chunk_json).collect();
    let text = stream_body(&jsons);
    assert!(text.contains(r#""delta":{"content":"","role":"assistant"}"#) || text.contains(r#""delta":{"role":"assistant","content":""}"#));
    assert!(text.contains(r#""choices":[]"#));
    assert!(text.contains(r#""usage":{"prompt_tokens":"#));
    assert!(text.ends_with("data: [DONE]\n\n"));
    assert_eq!(chunks.len(), generation.pieces.len() + 3);
}

#[test]
fn list_models() {
    let config = test_config();
    let list = model_list(&config, &vec!["fake".to_string(), "qwen2.5_0.5b".to_string()], 5);
    assert_eq!(list.object, "list");
    assert_eq!(list.data.len(), 2);
    assert_eq!(list.data[0].id, "fake");
    assert_eq!(list.data[0].object, "model");
    assert_eq!(list.data[0].owned_by, "elitelm");
    assert_eq!(list.data[0].created, 5);
    assert_eq!(list.data[1].id, "qwen2.5:0.5b");
    let only_config = model_list(&config, &vec![], 5);
    assert_eq!(only_config.data.len(), 1);
}

#[test]
fn retrieve_model() {
    let config = test_config();
    let found = elitelm::server::retrieve_model(&config, "fake", false, 7).unwrap();
    assert_eq!(found.id, "fake");
    assert_eq!(found.object, "model");
    assert_eq!(found.owned_by, "elitelm");
    let missing = elitelm::server::retrieve_model(&config, "unknown", false, 7).unwrap_err();
    assert_eq!(missing.status, 404);
    assert_eq!(missing.message, "model 'unknown' not found");
    assert!(elitelm::server::retrieve_model(&config, "downloaded", true, 7).is_ok());
}

#[test]
fn chat_completions_max_completion_tokens() {
    let request = ChatCompletionRequest {
        messages: vec![ChatMessage::new("user", "hello api")],
        model: Some("fake".to_string()),
        max_tokens: None,
        temperature: None,
        top_p: None,
        stream: false,
        stream_options: None,
    };
    assert!(validate_chat_request(&request).is_ok());
    let generate_request = request.into_generate_request();
    assert_eq!(generate_request.messages.len(), 1);
}

#[test]
fn empty_messages_are_a_bad_request() {
    let request = ChatCompletionRequest {
        messages: vec![],
        model: None,
        max_tokens: None,
        temperature: None,
        top_p: None,
        stream: true,
        stream_options: Some(StreamOptions { include_usage: true }),
    };
    assert!(request.include_usage());
    let error = validate_chat_request(&request).unwrap_err();
    assert_eq!(error, AppError { status: 400, message: "messages cannot be empty".to_string() });
}

#[test]
fn response_model_and_ids() {
    assert_eq!(response_model(&Some("a".to_string()), &Some("b".to_string()), "c"), "a");
    assert_eq!(response_model(&None, &Some("b".to_string()), "c"), "b");
    assert_eq!(response_model(&None, &None, "c"), "c");
    assert_eq!(completion_id("x"), "chatcmpl-x");
    let id = new_completion_id();
    assert!(id.starts_with("chatcmpl-"));
    assert_eq!(id.len(), "chatcmpl-".len() + 36);
    assert!(unix_timestamp() > 1_600_000_000);
    assert_eq!(registry_model_name("my_model_latest"), "my_model:latest");
    assert_eq!(registry_model_name("plain"), "plain");
}

#[test]
fn core_errors_map_to_status() {
    let unknown = AppError::from_core_error(&CoreError::UnknownBackendName { name: "x".to_string() });
    assert_eq!(unknown.status, 400);
    assert_eq!(unknown.message, "backend 'x' is not configured");
    let missing = AppError::from_core_error(&CoreError::MissingDefaultBackend);
    assert_eq!(missing.status, 500);
    assert_eq!(AppError::internal("boom").status, 500);
}

#[test]
fn registry_file_names() {
    assert_eq!(model_filename("qwen2.5:0.5b"), "qwen2.5_0.5b.gguf");
    assert_eq!(model_filename("llama3"), "llama3.gguf");
    assert_eq!(registry_model_name("qwen2.5_0.5b"), "qwen2.5:0.5b");
    let config = test_config();
    assert_eq!(unlisted_registry_model(&config, "qwen2.5_0.5b"), Some("qwen2.5:0.5b".to_string()));
    assert_eq!(unlisted_registry_model(&config, "fake"), None);
}

#[test]
fn completion_ids_hold_a_v4_uuid() {
    let id = new_completion_id();
    assert_eq!(id.len(), 45);
    assert!(id.starts_with("chatcmpl-"));
    let uuid: Vec<char> = id["chatcmpl-".len()..].chars().collect();
    for (i, c) in uuid.iter().enumerate() {
        if [8, 13, 18, 23].contains(&i) {
            assert_eq!(*c, '-');
        } else {
            assert!(c.is_ascii_hexdigit() && !c.is_ascii_uppercase());
        }
    }
    assert_eq!(uuid[14], '4');
    assert!(['8', '9', 'a', 'b'].contains(&uuid[19]));
    assert_ne!(new_completion_id(), id);
}

#[test]
fn timestamps_before_the_epoch_are_zero() {
    assert_eq!(timestamp_or_zero(Some(1_700_000_000)), 1_700_000_000);
    assert_eq!(timestamp_or_zero(None), 0);
}
