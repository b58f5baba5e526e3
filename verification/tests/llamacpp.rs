use std::io::Write;

use elitelm::chat::{ChatMessage, GenerateRequest};
use elitelm::config::LlamaCppBackendConfig;
use elitelm::llamacpp::{
    check_decode, tokenized_prompt_len, TokenLoop, TokenStep,
    choose_sampler, max_new_tokens, tokenize_buffer_len, ContextSettings, LlamaCppBackend,
    LlamaCppError, SamplerChoice,
};

/// Confirms that the backend validates a non-existent model path without panicking.
#[test]
fn rejects_missing_model() {
    let config = LlamaCppBackendConfig {
        model: "/nonexistent/path/model.gguf".to_string(),
        n_threads: None,
        n_ctx: None,
        n_batch: None,
        use_mmap: true,
    };
    let result = LlamaCppBackend::new("test", config);
    assert!(result.is_err());
    let err = match result {
        Ok(_) => unreachable!(),
        Err(e) => e,
    };
    let msg = err.message();
    assert!(msg.contains("does not exist"), "unexpected error: {msg}");
}

#[test]
fn accepts_existing_model_file() {
    let dir = tempfile::tempdir().unwrap();
    let model = dir.path().join("m.gguf");
    let mut file = tempfile::NamedTempFile::new_in(dir.path()).unwrap();
    file.write_all(b"gguf").unwrap();
    file.persist(&model).unwrap();
    let config = LlamaCppBackendConfig {
        model: model.to_string_lossy().into_owned(),
        n_threads: Some(4),
        n_ctx: Some(512),
        n_batch: Some(512),
        use_mmap: true,
    };
    let backend = LlamaCppBackend::new("llamacpp", config).unwrap();
    assert_eq!(backend.name(), "llamacpp");
}

#[test]
fn builds_chat_prompt() {
    let request = GenerateRequest {
        messages: vec![
            ChatMessage::new("system", "be brief"),
            ChatMessage::new("user", "hi"),
            ChatMessage::new("assistant", "hello"),
            ChatMessage::new("tool", "42"),
        ],
        max_tokens: None,
        temperature: None,
        top_p: None,
    };
    assert_eq!(
        LlamaCppBackend::build_prompt(&request),
        "<|system|>\nbe brief<|end|>\n<|user|>\nhi<|end|>\n<|assistant|>\nhello<|end|>\ntool: 42\n<|assistant|>\n"
    );
}

#[test]
fn plan_refuses_empty_messages_and_applies_settings() {
    let dir = tempfile::tempdir().unwrap();
    let model = dir.path().join("m.gguf");
    let mut file = tempfile::NamedTempFile::new_in(dir.path()).unwrap();
    file.write_all(b"gguf").unwrap();
    file.persist(&model).unwrap();
    let backend = LlamaCppBackend::new(
        "cpu",
        LlamaCppBackendConfig {
            model: model.to_string_lossy().into_owned(),
            n_threads: Some(4),
            n_ctx: Some(512),
            n_batch: None,
            use_mmap: false,
        },
    )
    .unwrap();
    let defaults = ContextSettings { n_ctx: 4096, n_batch: 2048, n_threads: 8, n_threads_batch: 8 };
    let empty = GenerateRequest { messages: vec![], max_tokens: None, temperature: None, top_p: None };
    assert_eq!(backend.plan(&empty, defaults).unwrap_err(), LlamaCppError::EmptyMessages);
    let request = GenerateRequest {
        messages: vec![ChatMessage::new("user", "Say hello in one word.")],
        max_tokens: Some(20),
        temperature: Some(0.7f32.to_bits()),
        top_p: None,
    };
    let plan = backend.plan(&request, defaults).unwrap();
    assert_eq!(plan.context, ContextSettings { n_ctx: 512, n_batch: 2048, n_threads: 4, n_threads_batch: 4 });
    assert!(!plan.use_mmap);
    assert_eq!(plan.n_gpu_layers, 0);
    assert_eq!(
        plan.sampler,
        SamplerChoice::TopPTemperature { top_p: 0.9f32.to_bits(), temperature: 0.7f32.to_bits() }
    );
}

#[test]
fn sampler_is_greedy_unless_temperature_is_positive() {
    for t in [0.0f32, -0.0, -1.0, f32::NAN] {
        assert_eq!(choose_sampler(Some(t.to_bits()), None), SamplerChoice::Greedy, "{t}");
    }
    for t in [0.1f32, 1.0, f32::INFINITY, f32::MIN_POSITIVE] {
        assert!(t > 0.0);
        assert!(matches!(choose_sampler(Some(t.to_bits()), Some(0.5f32.to_bits())), SamplerChoice::TopPTemperature { .. }));
    }
    assert_eq!(choose_sampler(None, Some(1)), SamplerChoice::Greedy);
}

#[test]
fn token_budgets() {
    assert_eq!(tokenize_buffer_len(512), 2048);
    assert_eq!(tokenize_buffer_len(4096), 4096);
    assert_eq!(max_new_tokens(Some(20), 512, 100), 20);
    assert_eq!(max_new_tokens(None, 512, 100), 412);
    assert_eq!(max_new_tokens(None, 8192, 100), 2048);
    assert_eq!(max_new_tokens(None, 50, 100), 0);
}

#[test]
fn llama_error_messages() {
    assert_eq!(LlamaCppError::DecodeFailed(-3).message(), "llama_decode failed: return code -3");
    assert_eq!(LlamaCppError::TokenizeFailed(7).message(), "tokenization failed: return code 7");
    assert_eq!(LlamaCppError::EmptyMessages.message(), "messages cannot be empty");
}

#[test]
fn tokenize_outcomes() {
    assert_eq!(tokenized_prompt_len(-5, 2048), Err(LlamaCppError::TokenizeFailed(-5)));
    assert_eq!(tokenized_prompt_len(12, 2048), Ok(12));
    assert_eq!(tokenized_prompt_len(3000, 2048), Ok(2048));
    assert_eq!(check_decode(0), Ok(()));
    assert_eq!(check_decode(1), Err(LlamaCppError::DecodeFailed(1)));
}

#[test]
fn token_loop_stops_at_budget_or_end_of_generation() {
    let mut lp = TokenLoop::new(4, 3);
    assert!(lp.wants_token());
    assert_eq!(lp.on_sampled(false, 5), TokenStep::EmitAndFeed);
    assert_eq!(lp.on_sampled(false, 0), TokenStep::Feed);
    assert_eq!(lp.on_sampled(false, 2), TokenStep::EmitAndFeed);
    assert!(!lp.wants_token());
    assert!(lp.total_fits());
    let stats = lp.stats();
    assert_eq!((stats.prompt_tokens, stats.completion_tokens, stats.total_tokens), (4, 2, 6));

    let mut lp = TokenLoop::new(1, 10);
    assert_eq!(lp.on_sampled(false, 1), TokenStep::EmitAndFeed);
    assert_eq!(lp.on_sampled(true, 1), TokenStep::Stop);
    assert!(!lp.wants_token());
    assert_eq!(lp.stats().total_tokens, 2);

    let lp = TokenLoop::new(u32::MAX, 0);
    assert!(!lp.wants_token());
    assert!(lp.total_fits());
}

#[test]
fn model_check_decides_setup() {
    let config = LlamaCppBackendConfig {
        model: "/nonexistent/path/model.gguf".to_string(),
        n_threads: None,
        n_ctx: None,
        n_batch: None,
        use_mmap: true,
    };
    let err = LlamaCppBackend::from_model_check("test", config.clone(), false).unwrap_err();
    assert_eq!(err.message(), "model file does not exist: /nonexistent/path/model.gguf");
    let backend = LlamaCppBackend::from_model_check("test", config, true).unwrap();
    assert_eq!(backend.name(), "test");
}
