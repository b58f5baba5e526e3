use elitelm::backend::{create_backend, Backend};
use elitelm::chat::{ChatMessage, GenerateRequest};
use elitelm::cli::{
    benchmark_targets, check_benchmark_runs, classify_chat_input, find_model_layer,
    genie_backend_config, get_blob_url, get_manifest_url, run_target, split_model_reference,
    statistics_report, user_request, backend_description, ChatAction, ChatHistory, ChatInput, CliError, RegistryLayer, RunTarget,
};
use elitelm::config::{
    AppConfig, BackendConfig, BackendMap, CoreError, FakeBackendConfig, GenieBackendConfig,
    RawAppConfig,
};

fn example_config() -> AppConfig {
    let mut backends = BackendMap::new();
    backends.insert("fake".to_string(), BackendConfig::Fake(FakeBackendConfig { response_prefix: None }));
    backends.insert(
        "genie_npu".to_string(),
        BackendConfig::Genie(Box::new(GenieBackendConfig {
            bundle_dir: "bundle".to_string(),
            genie_config: "bundle/genie_config.json".to_string(),
            htp_config: "bundle/htp.json".to_string(),
            qnn_sdk_root: "qairt".to_string(),
            tokenizer_path: "bundle/tokenizer.json".to_string(),
            genie_config_template: "configs/genie.json".to_string(),
            htp_config_template: "configs/htp.json.template".to_string(),
            soc_model: 60,
            dsp_arch: "v73".to_string(),
            genie_executable: None,
        })),
    );
    AppConfig::from_raw(RawAppConfig { device: None, default_backend: Some("fake".to_string()), backends }).unwrap()
}

#[test]
fn run_uses_fake_backend() {
    let config = example_config();
    let target = run_target(&config, Some("fake")).unwrap();
    assert_eq!(target, RunTarget::Configured("fake".to_string()));
    let RunTarget::Configured(name) = target else { unreachable!() };
    let backend = create_backend(&config, Some(&name), None).unwrap();
    let Backend::Fake(mut backend) = backend else {
        panic!("expected the fake backend");
    };
    let generation = backend
        .generate(GenerateRequest {
            messages: vec![ChatMessage::new("user", "smoke test")],
            max_tokens: None,
            temperature: None,
            top_p: None,
        })
        .unwrap();
    let mut stdout = generation.pieces.concat();
    stdout.push('\n');
    for line in statistics_report(generation.stats) {
        stdout.push_str(&line);
        stdout.push('\n');
    }

    assert!(stdout.contains("EliteLM fake response: smoke test"));
    assert!(stdout.contains("Inference Statistics:"));
    assert!(stdout.contains("Prompt tokens:     2"));
    assert!(stdout.contains("Completion tokens: 5"));
}

#[test]
fn run_targets() {
    let config = example_config();
    assert_eq!(run_target(&config, None).unwrap(), RunTarget::Configured("fake".to_string()));
    assert_eq!(
        run_target(&config, Some("qwen2.5:0.5b")).unwrap(),
        RunTarget::Registry("qwen2.5:0.5b".to_string())
    );
}

#[test]
fn backend_selection() {
    let config = example_config();
    let backend = create_backend(&config, None, None).unwrap();
    assert_eq!(backend.name(), "fake");
    let error = create_backend(&config, Some("missing"), None).unwrap_err();
    assert_eq!(
        error,
        elitelm::backend::BackendInitError::Config(CoreError::UnknownBackendName { name: "missing".to_string() })
    );
    let error = create_backend(&config, Some("missing"), Some("/nonexistent/m.gguf".to_string())).unwrap_err();
    assert!(matches!(error, elitelm::backend::BackendInitError::LlamaCpp(_)));
}

#[test]
fn prepare_needs_a_genie_backend() {
    let config = example_config();
    assert_eq!(genie_backend_config(&config, "genie_npu").unwrap().dsp_arch, "v73");
    let error = genie_backend_config(&config, "fake").unwrap_err();
    assert_eq!(error.message(), "backend 'fake' uses kind 'fake', expected genie");
    let error = genie_backend_config(&config, "nope").unwrap_err();
    assert_eq!(error.message(), "backend 'nope' is not configured");
}

#[test]
fn benchmark_arguments() {
    let config = example_config();
    assert_eq!(check_benchmark_runs(0).unwrap_err(), CliError::NoRuns);
    assert_eq!(CliError::NoRuns.message(), "Number of runs must be greater than 0");
    assert!(check_benchmark_runs(3).is_ok());
    assert_eq!(benchmark_targets(&config, None).unwrap(), vec!["fake".to_string(), "genie_npu".to_string()]);
    assert_eq!(benchmark_targets(&config, Some("x")).unwrap(), vec!["x".to_string()]);
}

#[test]
fn registry_urls() {
    assert_eq!(
        get_manifest_url("qwen2.5", "0.5b"),
        "https://registry.ollama.ai/v2/library/qwen2.5/manifests/0.5b"
    );
    assert_eq!(
        get_manifest_url("someone/model", "latest"),
        "https://registry.ollama.ai/v2/someone/model/manifests/latest"
    );
    assert_eq!(
        get_blob_url("qwen2.5", "sha256:abc"),
        "https://registry.ollama.ai/v2/library/qwen2.5/blobs/sha256:abc"
    );
    assert_eq!(split_model_reference("qwen2.5:0.5b"), ("qwen2.5".to_string(), "0.5b".to_string()));
    assert_eq!(split_model_reference("llama3"), ("llama3".to_string(), "latest".to_string()));
    assert_eq!(split_model_reference("a:b:c"), ("a".to_string(), "b:c".to_string()));
}

#[test]
fn finds_model_weights_layer() {
    let layer = |media: &str| RegistryLayer { media_type: media.to_string(), digest: "d".to_string(), size: 1 };
    let layers = vec![
        layer("application/vnd.ollama.image.template"),
        layer("application/vnd.ollama.image.model"),
        layer("application/vnd.ollama.image.model"),
    ];
    assert_eq!(find_model_layer(&layers), Some(1));
    assert_eq!(find_model_layer(&layers[..1].to_vec()), None);
}

#[test]
fn chat_input_commands() {
    assert_eq!(classify_chat_input("  \n"), ChatInput::Empty);
    assert_eq!(classify_chat_input("/bye\n"), ChatInput::Quit);
    assert_eq!(classify_chat_input(" /exit "), ChatInput::Quit);
    assert_eq!(classify_chat_input("/quit"), ChatInput::Quit);
    assert_eq!(classify_chat_input("/help\n"), ChatInput::Help);
    assert_eq!(classify_chat_input("  hi there \n"), ChatInput::Message("hi there".to_string()));
}

#[test]
fn chat_history_turns() {
    let mut history = ChatHistory::new();
    history.push_user("hi");
    history.push_assistant("hello");
    history.push_user("again");
    history.pop();
    assert_eq!(
        history.messages(),
        &vec![ChatMessage::new("user", "hi"), ChatMessage::new("assistant", "hello")]
    );
    let request = history.request();
    assert_eq!(request.messages.len(), 2);
    assert!(request.max_tokens.is_none());
}

#[test]
fn chat_session_turns() {
    let mut history = ChatHistory::new();
    assert!(matches!(history.on_input("   \n"), ChatAction::Skip));
    assert!(matches!(history.on_input("/help"), ChatAction::Help));
    assert!(history.messages().is_empty());
    let ChatAction::Generate(request) = history.on_input("  hello there \n") else {
        panic!("expected a generation");
    };
    assert_eq!(request.messages, vec![ChatMessage::new("user", "hello there")]);
    history.on_reply(Some("hi!"));
    assert_eq!(
        history.messages(),
        &vec![ChatMessage::new("user", "hello there"), ChatMessage::new("assistant", "hi!")]
    );
    let ChatAction::Generate(request) = history.on_input("fail please") else {
        panic!("expected a generation");
    };
    assert_eq!(request.messages.len(), 3);
    history.on_reply(None);
    assert_eq!(history.messages().len(), 2);
    assert!(matches!(history.on_input("/exit"), ChatAction::Quit));
    assert_eq!(history.messages().len(), 2);
}

#[test]
fn single_prompt_request() {
    let request = user_request("smoke test");
    assert_eq!(request.messages, vec![ChatMessage::new("user", "smoke test")]);
    assert!(request.max_tokens.is_none() && request.temperature.is_none() && request.top_p.is_none());
}

#[test]
fn configured_fake_backend_is_always_built() {
    let config = example_config();
    let backend = create_backend(&config, Some("fake"), Some("/ignored.gguf".to_string())).unwrap();
    assert!(matches!(backend, Backend::Fake(_)));
}

#[test]
fn backend_descriptions() {
    let config = example_config();
    let (name, fake) = config.backend(Some("fake")).unwrap();
    assert_eq!(
        backend_description(name, fake),
        vec!["Model: fake", "Kind:  fake", "Response prefix: \"None\""]
    );
    let (name, genie) = config.backend(Some("genie_npu")).unwrap();
    let lines = backend_description(name, genie);
    assert_eq!(lines.len(), 11);
    assert_eq!(lines[1], "Kind:  genie");
    assert_eq!(lines[9], "SoC model:          60");
    assert_eq!(lines[10], "DSP arch:           v73");
    let llama = BackendConfig::LlamaCpp(Box::new(elitelm::config::LlamaCppBackendConfig {
        model: "m.gguf".to_string(),
        n_threads: Some(4),
        n_ctx: None,
        n_batch: Some(512),
        use_mmap: false,
    }));
    assert_eq!(
        backend_description("cpu", &llama),
        vec![
            "Model: cpu",
            "Kind:  llamacpp",
            "Model path:         m.gguf",
            "Threads:            4",
            "Batch size:         512",
            "Use mmap:           false",
        ]
    );
}
