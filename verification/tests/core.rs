use elitelm::backend::create_fake_backend;
use elitelm::chat::{ChatMessage, GenerateRequest};
use elitelm::config::{
    default_dsp_arch, default_soc_model, default_use_mmap, AppConfig, BackendConfig, BackendMap,
    CoreError, FakeBackendConfig, GenieBackendConfig, LlamaCppBackendConfig, RawAppConfig,
};
use elitelm::openai::{
    sse_data_line, sse_done_line, ChatCompletionChunk, ChatCompletionResponse,
};
use elitelm::chat::GenerateStats;
use elitelm::paths::config_base_dir;

fn fake_backends() -> BackendMap {
    let mut backends = BackendMap::new();
    backends.insert(
        "fake".to_string(),
        BackendConfig::Fake(FakeBackendConfig { response_prefix: None }),
    );
    backends
}

fn fake_config() -> AppConfig {
    AppConfig::from_raw(RawAppConfig {
        device: None,
        default_backend: Some("fake".to_string()),
        backends: fake_backends(),
    })
    .unwrap()
}

fn llamacpp_defaults(model: &str) -> LlamaCppBackendConfig {
    LlamaCppBackendConfig {
        model: model.to_string(),
        n_threads: None,
        n_ctx: None,
        n_batch: None,
        use_mmap: default_use_mmap(),
    }
}

#[test]
fn config_requires_default_backend() {
    let error = AppConfig::from_raw(RawAppConfig {
        device: None,
        default_backend: None,
        backends: fake_backends(),
    })
    .unwrap_err();

    assert!(matches!(error, CoreError::MissingDefaultBackend));
}

#[test]
fn blank_default_backend_is_missing() {
    let error = AppConfig::from_raw(RawAppConfig {
        device: None,
        default_backend: Some(" \t ".to_string()),
        backends: fake_backends(),
    })
    .unwrap_err();
    assert_eq!(error, CoreError::MissingDefaultBackend);
    assert_eq!(error.message(), "config is missing default_backend");
}

#[test]
fn unconfigured_default_backend_is_unknown() {
    let error = AppConfig::from_raw(RawAppConfig {
        device: None,
        default_backend: Some("other".to_string()),
        backends: fake_backends(),
    })
    .unwrap_err();
    assert_eq!(error, CoreError::UnknownBackendName { name: "other".to_string() });
}

#[test]
fn unknown_backend_name_is_rejected() {
    let config = fake_config();
    let error = match config.backend(Some("missing")) {
        Ok(_) => panic!("expected missing backend to fail"),
        Err(error) => error,
    };

    assert!(matches!(error, CoreError::UnknownBackendName { .. }));
    assert_eq!(error.message(), "backend 'missing' is not configured");
}

#[test]
fn parses_llamacpp_backend_defaults() {
    let mut backends = BackendMap::new();
    backends.insert(
        "llamacpp_cpu".to_string(),
        BackendConfig::LlamaCpp(Box::new(llamacpp_defaults("./models/llama.gguf"))),
    );
    let config = AppConfig::from_raw(RawAppConfig {
        device: None,
        default_backend: Some("llamacpp_cpu".to_string()),
        backends,
    })
    .unwrap();

    let (name, backend) = config.backend(None).unwrap();
    assert_eq!(name, "llamacpp_cpu");
    let BackendConfig::LlamaCpp(llama) = backend else {
        panic!("expected llamacpp backend");
    };
    assert_eq!(llama.model, "./models/llama.gguf");
    assert!(llama.use_mmap);
    assert!(llama.n_threads.is_none());
    assert!(llama.n_ctx.is_none());
    assert!(llama.n_batch.is_none());
}

#[test]
fn llamacpp_model_path_is_resolved_relative_to_config_dir() {
    let dir = tempfile::tempdir().unwrap();
    let config_path = dir.path().join("elitelm.yaml");
    let mut backends = BackendMap::new();
    backends.insert(
        "llamacpp_cpu".to_string(),
        BackendConfig::LlamaCpp(Box::new(llamacpp_defaults("./models/llama.gguf"))),
    );
    let config = elitelm::config::config_from_file(
        config_path.to_str().unwrap(),
        RawAppConfig { device: None, default_backend: Some("llamacpp_cpu".to_string()), backends },
    )
    .unwrap();
    assert_eq!(config_base_dir(config_path.to_str().unwrap()), dir.path().to_str().unwrap());

    let (_, backend) = config.backend(None).unwrap();
    let BackendConfig::LlamaCpp(llama) = backend else {
        panic!("expected llamacpp backend");
    };
    let model = std::path::Path::new(&llama.model);
    assert!(model.is_absolute());
    assert!(model.ends_with("models/llama.gguf"));
}

#[test]
fn absolute_paths_are_kept() {
    let mut backends = BackendMap::new();
    backends.insert(
        "cpu".to_string(),
        BackendConfig::LlamaCpp(Box::new(llamacpp_defaults("/srv/models/a.gguf"))),
    );
    let mut config = AppConfig::from_raw(RawAppConfig {
        device: None,
        default_backend: Some("cpu".to_string()),
        backends,
    })
    .unwrap();
    config.resolve_paths_relative_to("/etc/elitelm");
    let (_, backend) = config.backend(None).unwrap();
    let BackendConfig::LlamaCpp(llama) = backend else {
        panic!("expected llamacpp backend");
    };
    assert_eq!(llama.model, "/srv/models/a.gguf");
}

#[test]
fn parses_genie_backend_defaults() {
    let genie = GenieBackendConfig {
        bundle_dir: "./bundle".to_string(),
        genie_config: "./bundle/genie_config.json".to_string(),
        htp_config: "./bundle/htp_backend_ext_config.json".to_string(),
        qnn_sdk_root: "./qairt/2.37.0".to_string(),
        tokenizer_path: "./bundle/tokenizer.json".to_string(),
        genie_config_template: "./configs/genie.json".to_string(),
        htp_config_template: "./configs/htp.json.template".to_string(),
        soc_model: default_soc_model(),
        dsp_arch: default_dsp_arch(),
        genie_executable: None,
    };
    let mut backends = BackendMap::new();
    backends.insert("genie_npu".to_string(), BackendConfig::Genie(Box::new(genie)));
    let config = AppConfig::from_raw(RawAppConfig {
        device: None,
        default_backend: Some("genie_npu".to_string()),
        backends,
    })
    .unwrap();

    let (_, backend) = config.backend(None).unwrap();
    let BackendConfig::Genie(genie) = backend else {
        panic!("expected genie backend");
    };

    assert_eq!(genie.soc_model, 60);
    assert_eq!(genie.dsp_arch, "v73");
    assert_eq!(genie.genie_executable, None);
}

#[test]
fn backend_map_keeps_names_sorted_and_replaces() {
    let mut map = BackendMap::new();
    map.insert("zeta".to_string(), BackendConfig::Fake(FakeBackendConfig { response_prefix: None }));
    map.insert("alpha".to_string(), BackendConfig::Fake(FakeBackendConfig { response_prefix: None }));
    map.insert(
        "mid".to_string(),
        BackendConfig::Fake(FakeBackendConfig { response_prefix: Some("x".to_string()) }),
    );
    map.insert(
        "alpha".to_string(),
        BackendConfig::Fake(FakeBackendConfig { response_prefix: Some("second".to_string()) }),
    );
    assert_eq!(map.len(), 3);
    assert_eq!(map.keys(), vec!["alpha".to_string(), "mid".to_string(), "zeta".to_string()]);
    assert_eq!(
        map.get("alpha"),
        Some(&BackendConfig::Fake(FakeBackendConfig { response_prefix: Some("second".to_string()) }))
    );
    assert!(map.get("beta").is_none());
    assert!(map.contains_key("zeta"));
}

#[test]
fn backend_kinds() {
    assert_eq!(BackendConfig::Fake(FakeBackendConfig { response_prefix: None }).kind(), "fake");
    assert_eq!(
        BackendConfig::LlamaCpp(Box::new(llamacpp_defaults("m.gguf"))).kind(),
        "llamacpp"
    );
}

#[test]
fn core_error_messages() {
    assert_eq!(
        CoreError::UnsupportedBackendKind { name: "a".to_string(), kind: "b".to_string() }.message(),
        "backend 'a' uses kind 'b', which is not supported yet"
    );
    assert_eq!(
        CoreError::ParseConfig { message: "bad".to_string() }.message(),
        "failed to parse config: bad"
    );
    assert_eq!(
        CoreError::ReadConfig { path: "x.yaml".to_string(), message: "gone".to_string() }.message(),
        "failed to read config x.yaml: gone"
    );
}

#[test]
fn fake_backend_streams_deterministic_response() {
    let config = fake_config();
    let (name, backend_config) = config.backend(None).unwrap();
    let BackendConfig::Fake(fake_config) = backend_config else {
        panic!("expected fake backend");
    };
    let mut backend = create_fake_backend(name, fake_config);
    let mut text = String::new();

    let generation = backend
        .generate(GenerateRequest {
            messages: vec![ChatMessage::new("user", "hello rust")],
            max_tokens: None,
            temperature: None,
            top_p: None,
        })
        .unwrap();
    for piece in &generation.pieces {
        text.push_str(piece);
    }

    assert_eq!(text, "EliteLM fake response: hello rust");
    assert_eq!(generation.stats.prompt_tokens, 2);
    assert_eq!(generation.stats.completion_tokens, 5);
    assert_eq!(generation.stats.total_tokens, 7);
}

#[test]
fn fake_backend_answers_last_user_message() {
    let mut backend = elitelm::chat::FakeBackend::new("f", Some("> "));
    let request = GenerateRequest {
        messages: vec![
            ChatMessage::new("user", "first"),
            ChatMessage::new("assistant", "reply"),
            ChatMessage::new("user", "second one"),
            ChatMessage::new("system", "tail"),
        ],
        max_tokens: None,
        temperature: None,
        top_p: None,
    };
    assert_eq!(backend.response_for(&request).unwrap(), "> second one");
    let generation = backend.generate(request).unwrap();
    assert_eq!(generation.pieces, vec![">", " ", "second", " ", "one"]);
    assert_eq!(generation.stats.prompt_tokens, 5);
    assert_eq!(generation.stats.completion_tokens, 3);
}

#[test]
fn fake_backend_falls_back_to_last_message() {
    let backend = elitelm::chat::FakeBackend::new("f", None);
    let request = GenerateRequest {
        messages: vec![ChatMessage::new("system", "be brief")],
        max_tokens: None,
        temperature: None,
        top_p: None,
    };
    assert_eq!(backend.response_for(&request).unwrap(), "EliteLM fake response: be brief");
}

#[test]
fn fake_backend_rejects_empty_messages() {
    let mut backend = elitelm::chat::FakeBackend::new("f", None);
    let error = backend
        .generate(GenerateRequest { messages: vec![], max_tokens: None, temperature: None, top_p: None })
        .unwrap_err();
    assert_eq!(error.message(), "messages cannot be empty");
}

#[test]
fn serializes_openai_response() {
    let response = ChatCompletionResponse::new(
        "chatcmpl-test",
        123,
        "fake",
        "hello",
        GenerateStats { prompt_tokens: 1, completion_tokens: 1, total_tokens: 2 },
    );

    assert_eq!(response.object_type, "chat.completion");
    assert_eq!(response.choices[0].message.role, "assistant");
    assert_eq!(response.choices[0].message.content, "hello");
    assert_eq!(response.choices[0].finish_reason.as_deref(), Some("stop"));
    assert_eq!(response.usage.total_tokens, 2);
}

fn chunk_json(chunk: &ChatCompletionChunk) -> String {
    let mut root = serde_json::Map::new();
    root.insert("id".to_string(), serde_json::Value::String(chunk.id.clone()));
    root.insert("object".to_string(), serde_json::Value::String(chunk.object_type.clone()));
    root.insert("created".to_string(), serde_json::Value::from(chunk.created));
    root.insert("model".to_string(), serde_json::Value::String(chunk.model.clone()));
    let mut choices = Vec::new();
    for choice in &chunk.choices {
        let mut delta = serde_json::Map::new();
        if let Some(role) = &choice.delta.role {
            delta.insert("role".to_string(), serde_json::Value::String(role.clone()));
        }
        if let Some(content) = &choice.delta.content {
            delta.insert("content".to_string(), serde_json::Value::String(content.clone()));
        }
        let mut c = serde_json::Map::new();
        c.insert("index".to_string(), serde_json::Value::from(choice.index));
        c.insert("delta".to_string(), serde_json::Value::Object(delta));
        c.insert(
            "finish_reason".to_string(),
            match &choice.finish_reason {
                Some(r) => serde_json::Value::String(r.clone()),
                None => serde_json::Value::Null,
            },
        );
        choices.push(serde_json::Value::Object(c));
    }
    root.insert("choices".to_string(), serde_json::Value::Array(choices));
    serde_json::Value::Object(root).to_string()
}

#[test]
fn serializes_streaming_chunk_line() {
    let chunk = ChatCompletionChunk::token("chatcmpl-test", 123, "fake", "hel");
    let line = sse_data_line(&chunk_json(&chunk));

    assert!(line.starts_with("data: {"));
    assert!(line.contains(r#""object":"chat.completion.chunk""#));
    assert!(line.contains(r#""content":"hel""#));
    assert!(line.ends_with("\n\n"));
    assert_eq!(sse_done_line(), "data: [DONE]\n\n");
}

fn genie_backend(bundle: &str) -> BackendConfig {
    BackendConfig::Genie(Box::new(elitelm::config::GenieBackendConfig {
        bundle_dir: bundle.to_string(),
        genie_config: format!("{bundle}/genie_config.json"),
        htp_config: format!("{bundle}/htp.json"),
        qnn_sdk_root: "qairt".to_string(),
        tokenizer_path: format!("{bundle}/tokenizer.json"),
        genie_config_template: "configs/genie.json".to_string(),
        htp_config_template: "configs/htp.json.template".to_string(),
        soc_model: 60,
        dsp_arch: "v73".to_string(),
        genie_executable: None,
    }))
}

#[test]
fn device_genie_selects_the_npu_backend() {
    let mut backends = fake_backends();
    backends.insert("genie_npu".to_string(), genie_backend("bundle"));
    backends.insert("genie_z".to_string(), genie_backend("other"));
    let config = AppConfig::from_raw(RawAppConfig {
        device: Some("genie".to_string()),
        default_backend: Some("fake".to_string()),
        backends,
    })
    .unwrap();
    let (name, backend) = config.backend(None).unwrap();
    assert_eq!(name, "genie_npu");
    assert_eq!(backend.kind(), "genie");
    assert_eq!(config.backend(Some("fake")).unwrap().1.kind(), "fake");

    let config = AppConfig::from_raw(RawAppConfig {
        device: Some("fake".to_string()),
        default_backend: Some("fake".to_string()),
        backends: fake_backends(),
    })
    .unwrap();
    assert_eq!(config.default_name(), "fake");
}

#[test]
fn device_without_a_backend_of_its_kind_is_refused() {
    let error = AppConfig::from_raw(RawAppConfig {
        device: Some("genie".to_string()),
        default_backend: Some("fake".to_string()),
        backends: fake_backends(),
    })
    .unwrap_err();
    assert_eq!(error, CoreError::NoBackendForDevice { device: "genie".to_string() });
    assert_eq!(error.message(), "device 'genie' has no configured backend of that kind");
}

#[test]
fn config_from_file_refuses_what_from_raw_refuses() {
    let error = elitelm::config::config_from_file(
        "/etc/elitelm/elitelm.yaml",
        RawAppConfig { device: None, default_backend: Some("missing".to_string()), backends: fake_backends() },
    )
    .unwrap_err();
    assert_eq!(error, CoreError::UnknownBackendName { name: "missing".to_string() });
}
