use vstd::prelude::*;

use crate::chat::{stats_of, ChatMessage, GenerateRequest, GenerateStats};
use crate::config::LlamaCppBackendConfig;
use crate::order::str_eq;
use crate::paths::path_exists;
use crate::text::decimal;

verus! {

/// Errors of the llama.cpp backend.
#[derive(Debug, Clone, PartialEq, Eq)]
pub enum LlamaCppError {
    MissingModel { path: String },
    LoadFailed { path: String },
    ContextFailed,
    TokenizeFailed(i32),
    DecodeFailed(i32),
    EmptyMessages,
}

/// The decimal form of a signed return code.
pub open spec fn signed_decimal(n: i32) -> Seq<char> {
    if n < 0 {
        "-"@ + decimal((-(n as int)) as nat)
    } else {
        decimal(n as nat)
    }
}

/// The text that describes a llama.cpp error.
pub open spec fn llama_error_text(e: LlamaCppError) -> Seq<char> {
    match e {
        LlamaCppError::MissingModel { path } => "model file does not exist: "@ + path@,
        LlamaCppError::LoadFailed { path } => "llama_model_load_from_file returned null for "@ + path@,
        LlamaCppError::ContextFailed => "llama_init_from_model returned null"@,
        LlamaCppError::TokenizeFailed(code) => "tokenization failed: return code "@ + signed_decimal(code),
        LlamaCppError::DecodeFailed(code) => "llama_decode failed: return code "@ + signed_decimal(code),
        LlamaCppError::EmptyMessages => "messages cannot be empty"@,
    }
}

fn signed_decimal_string(n: i32) -> (r: String)
    ensures
        r@ == signed_decimal(n),
{
    if n < 0 {
        let magnitude: u64 = (0i64 - n as i64) as u64;
        let mut s = "-".to_owned();
        s.append(crate::text::decimal_string(magnitude).as_str());
        s
    } else {
        crate::text::decimal_string(n as u64)
    }
}

impl LlamaCppError {
    /// The message that describes the error.
    pub fn message(&self) -> (r: String)
        ensures
            r@ == llama_error_text(*self),
    {
        match self {
            LlamaCppError::MissingModel { path } => {
                let mut s = "model file does not exist: ".to_owned();
                s.append(path.as_str());
                s
            },
            LlamaCppError::LoadFailed { path } => {
                let mut s = "llama_model_load_from_file returned null for ".to_owned();
                s.append(path.as_str());
                s
            },
            LlamaCppError::ContextFailed => "llama_init_from_model returned null".to_owned(),
            LlamaCppError::TokenizeFailed(code) => {
                let mut s = "tokenization failed: return code ".to_owned();
                s.append(signed_decimal_string(*code).as_str());
                s
            },
            LlamaCppError::DecodeFailed(code) => {
                let mut s = "llama_decode failed: return code ".to_owned();
                s.append(signed_decimal_string(*code).as_str());
                s
            },
            LlamaCppError::EmptyMessages => "messages cannot be empty".to_owned(),
        }
    }
}

/// The text of one message in the chat prompt.
pub open spec fn formatted_message(m: ChatMessage) -> Seq<char> {
    if m.role@ == "system"@ {
        "<|system|>\n"@ + m.content@ + "<|end|>\n"@
    } else if m.role@ == "user"@ {
        "<|user|>\n"@ + m.content@ + "<|end|>\n"@
    } else if m.role@ == "assistant"@ {
        "<|assistant|>\n"@ + m.content@ + "<|end|>\n"@
    } else {
        m.role@ + ": "@ + m.content@ + "\n"@
    }
}

/// The texts of the first messages, one after the other.
pub open spec fn formatted_messages(msgs: Seq<ChatMessage>) -> Seq<char>
    decreases msgs.len(),
{
    if msgs.len() == 0 {
        Seq::empty()
    } else {
        formatted_messages(msgs.drop_last()) + formatted_message(msgs.last())
    }
}

/// The prompt given to the model: every message in turn, then the opening
/// of the assistant's answer.
pub open spec fn chat_prompt(msgs: Seq<ChatMessage>) -> Seq<char> {
    formatted_messages(msgs) + "<|assistant|>\n"@
}

fn format_message(m: &ChatMessage) -> (r: String)
    ensures
        r@ == formatted_message(*m),
{
    let role = m.role.as_str();
    let mut s: String;
    if str_eq(role, "system") {
        s = "<|system|>\n".to_owned();
        s.append(m.content.as_str());
        s.append("<|end|>\n");
    } else if str_eq(role, "user") {
        s = "<|user|>\n".to_owned();
        s.append(m.content.as_str());
        s.append("<|end|>\n");
    } else if str_eq(role, "assistant") {
        s = "<|assistant|>\n".to_owned();
        s.append(m.content.as_str());
        s.append("<|end|>\n");
    } else {
        s = m.role.clone();
        s.append(": ");
        s.append(m.content.as_str());
        s.append("\n");
    }
    s
}

/// How a token is sampled: the most likely one, or with top-p and
/// temperature (both as IEEE-754 `f32` bit patterns).
#[derive(Debug, Clone, Copy, PartialEq, Eq)]
pub enum SamplerChoice {
    Greedy,
    TopPTemperature { top_p: u32, temperature: u32 },
}

/// The bit pattern of the `f32` value 0.9, the default top-p.
pub open spec fn default_top_p_bits() -> u32 {
    0x3f66_6666
}

/// Whether the `f32` with these bits is greater than zero: a positive
/// number or positive infinity (IEEE-754: sign bit clear, not zero, not NaN).
pub open spec fn f32_bits_positive(bits: u32) -> bool {
    0 < bits && bits <= 0x7f80_0000
}

/// The context settings of a llama.cpp context.
#[derive(Debug, Clone, Copy, PartialEq, Eq)]
pub struct ContextSettings {
    pub n_ctx: u32,
    pub n_batch: u32,
    pub n_threads: i32,
    pub n_threads_batch: i32,
}

/// What a generation with llama.cpp is to do, decided before the model is run.
#[derive(Debug, Clone, PartialEq, Eq)]
pub struct LlamaPlan {
    pub prompt: String,
    pub sampler: SamplerChoice,
    pub context: ContextSettings,
    pub use_mmap: bool,
    pub n_gpu_layers: i32,
}

/// The context settings: the defaults, overridden by what the configuration sets.
pub open spec fn context_of(config: LlamaCppBackendConfig, defaults: ContextSettings) -> ContextSettings {
    ContextSettings {
        n_ctx: match config.n_ctx {
            Some(n) => n,
            None => defaults.n_ctx,
        },
        n_batch: match config.n_batch {
            Some(n) => n,
            None => defaults.n_batch,
        },
        n_threads: match config.n_threads {
            Some(n) => n as i32,
            None => defaults.n_threads,
        },
        n_threads_batch: match config.n_threads {
            Some(n) => n as i32,
            None => defaults.n_threads_batch,
        },
    }
}

/// The sampler a request asks for: top-p and temperature when the
/// temperature is above zero (top-p 0.9 unless given), greedy otherwise.
pub open spec fn sampler_for(temperature: Option<u32>, top_p: Option<u32>) -> SamplerChoice {
    match temperature {
        Some(t) => if f32_bits_positive(t) {
            SamplerChoice::TopPTemperature {
                top_p: match top_p {
                    Some(p) => p,
                    None => default_top_p_bits(),
                },
                temperature: t,
            }
        } else {
            SamplerChoice::Greedy
        },
        None => SamplerChoice::Greedy,
    }
}

/// The sampler a request asks for.
pub fn choose_sampler(temperature: Option<u32>, top_p: Option<u32>) -> (r: SamplerChoice)
    ensures
        r == sampler_for(temperature, top_p),
        temperature is Some && 0 < temperature->0 <= 0x7f80_0000 && top_p is Some ==> r
            == (SamplerChoice::TopPTemperature { top_p: top_p->0, temperature: temperature->0 }),
        temperature is Some && 0 < temperature->0 <= 0x7f80_0000 && top_p is None ==> r
            == (SamplerChoice::TopPTemperature { top_p: 0x3f66_6666, temperature: temperature->0 }),
        !(temperature is Some && 0 < temperature->0 <= 0x7f80_0000) ==> r == SamplerChoice::Greedy,
{
    match temperature {
        Some(t) => if 0 < t && t <= 0x7f80_0000 {
            let p = match top_p {
                Some(p) => p,
                None => 0x3f66_6666,
            };
            SamplerChoice::TopPTemperature { top_p: p, temperature: t }
        } else {
            SamplerChoice::Greedy
        },
        None => SamplerChoice::Greedy,
    }
}

/// The context settings for a configuration, starting from llama.cpp's defaults.
pub fn context_settings(config: &LlamaCppBackendConfig, defaults: ContextSettings) -> (r:
    ContextSettings)
    ensures
        r == context_of(*config, defaults),
{
    let mut s = defaults;
    if let Some(n) = config.n_ctx {
        s.n_ctx = n;
    }
    if let Some(n) = config.n_batch {
        s.n_batch = n;
    }
    if let Some(n) = config.n_threads {
        s.n_threads = n as i32;
        s.n_threads_batch = n as i32;
    }
    s
}

/// The number of token slots reserved for tokenizing the prompt: the
/// context size, and at least 2048.
pub fn tokenize_buffer_len(n_ctx: u32) -> (r: usize)
    ensures
        r == if n_ctx < 2048 {
            2048
        } else {
            n_ctx
        },
{
    if n_ctx < 2048 {
        2048
    } else {
        n_ctx as usize
    }
}

/// The most tokens to generate: the requested maximum, or else what is left
/// of the context after the prompt, at most 2048.
pub fn max_new_tokens(max_tokens: Option<u32>, n_ctx: u32, prompt_tokens: usize) -> (r: usize)
    ensures
        r == match max_tokens {
            Some(m) => m as int,
            None => {
                let left = if n_ctx >= prompt_tokens {
                    n_ctx - prompt_tokens
                } else {
                    0
                };
                if left < 2048 {
                    left
                } else {
                    2048
                }
            },
        },
{
    match max_tokens {
        Some(m) => m as usize,
        None => {
            let n = n_ctx as usize;
            let left = if n >= prompt_tokens {
                n - prompt_tokens
            } else {
                0
            };
            if left < 2048 {
                left
            } else {
                2048
            }
        },
    }
}

/// The number of prompt tokens after tokenizing into a buffer of
/// `buffer_len` slots: a negative return code is a failure, a count larger
/// than the buffer keeps the buffer's length.
pub fn tokenized_prompt_len(n_tokens: i32, buffer_len: usize) -> (r: Result<u32, LlamaCppError>)
    requires
        buffer_len <= u32::MAX,
    ensures
        n_tokens < 0 ==> r == Err::<u32, LlamaCppError>(LlamaCppError::TokenizeFailed(n_tokens)),
        n_tokens >= 0 ==> r == Ok::<u32, LlamaCppError>(
            if n_tokens as int <= buffer_len as int {
                n_tokens as u32
            } else {
                buffer_len as u32
            },
        ),
{
    if n_tokens < 0 {
        return Err(LlamaCppError::TokenizeFailed(n_tokens));
    }
    let n = n_tokens as usize;
    if n <= buffer_len {
        Ok(n as u32)
    } else {
        Ok(buffer_len as u32)
    }
}

/// The outcome of a `llama_decode` call: any return code but zero is a failure.
pub fn check_decode(rc: i32) -> (r: Result<(), LlamaCppError>)
    ensures
        rc == 0 ==> r is Ok,
        rc != 0 ==> r == Err::<(), LlamaCppError>(LlamaCppError::DecodeFailed(rc)),
{
    if rc == 0 {
        Ok(())
    } else {
        Err(LlamaCppError::DecodeFailed(rc))
    }
}

/// What the token loop does with a sampled token.
#[derive(Debug, Clone, Copy, PartialEq, Eq)]
pub enum TokenStep {
    /// The token ends the generation.
    Stop,
    /// The token's text is handed on, then the token is fed back.
    EmitAndFeed,
    /// The token has no text; it is only fed back.
    Feed,
}

/// The counters of the token loop, as numbers.
pub struct TokenLoopView {
    pub prompt_tokens: u32,
    pub max_new: nat,
    pub steps: nat,
    pub completion_tokens: nat,
    pub stopped: bool,
}

/// The token loop of a generation: at most `max_new` tokens are sampled,
/// an end-of-generation token stops it, and every token with text counts
/// as a completion token.
#[derive(Debug)]
pub struct TokenLoop {
    prompt_tokens: u32,
    max_new: usize,
    steps: usize,
    completion_tokens: u32,
    stopped: bool,
}

impl View for TokenLoop {
    type V = TokenLoopView;

    closed spec fn view(&self) -> TokenLoopView {
        TokenLoopView {
            prompt_tokens: self.prompt_tokens,
            max_new: self.max_new as nat,
            steps: self.steps as nat,
            completion_tokens: self.completion_tokens as nat,
            stopped: self.stopped,
        }
    }
}

impl TokenLoop {
    #[verifier::type_invariant]
    closed spec fn counts_bounded(&self) -> bool {
        &&& self.completion_tokens <= self.steps
        &&& self.steps <= self.max_new
        &&& self.max_new <= u32::MAX
    }

    /// Whether another token is to be sampled.
    pub open spec fn wants_more(v: TokenLoopView) -> bool {
        !v.stopped && v.steps < v.max_new
    }

    /// A loop that has sampled nothing yet.
    pub fn new(prompt_tokens: u32, max_new: usize) -> (r: TokenLoop)
        requires
            max_new <= u32::MAX,
        ensures
            r@ == (TokenLoopView {
                prompt_tokens,
                max_new: max_new as nat,
                steps: 0,
                completion_tokens: 0,
                stopped: false,
            }),
    {
        TokenLoop { prompt_tokens, max_new, steps: 0, completion_tokens: 0, stopped: false }
    }

    /// Whether another token is to be sampled. The loop never counts more
    /// completion tokens than it sampled, nor samples more than its maximum.
    pub fn wants_token(&self) -> (r: bool)
        ensures
            r == Self::wants_more(self@),
            self@.completion_tokens <= self@.steps <= self@.max_new,
    {
        proof {
            use_type_invariant(self);
        }
        !self.stopped && self.steps < self.max_new
    }

    /// Takes in a sampled token: whether it ends the generation, and how
    /// many bytes of text it gave.
    pub fn on_sampled(&mut self, is_eog: bool, n_written: i32) -> (r: TokenStep)
        requires
            Self::wants_more(old(self)@),
        ensures
            is_eog ==> r == TokenStep::Stop && final(self)@ == (TokenLoopView {
                stopped: true,
                ..old(self)@
            }),
            !is_eog && n_written > 0 ==> r == TokenStep::EmitAndFeed && final(self)@ == (
            TokenLoopView {
                steps: old(self)@.steps + 1,
                completion_tokens: old(self)@.completion_tokens + 1,
                ..old(self)@
            }),
            !is_eog && n_written <= 0 ==> r == TokenStep::Feed && final(self)@ == (TokenLoopView {
                steps: old(self)@.steps + 1,
                ..old(self)@
            }),
    {
        proof {
            use_type_invariant(&*self);
        }
        if is_eog {
            self.stopped = true;
            return TokenStep::Stop;
        }
        self.steps = self.steps + 1;
        if n_written > 0 {
            self.completion_tokens = self.completion_tokens + 1;
            TokenStep::EmitAndFeed
        } else {
            TokenStep::Feed
        }
    }

    /// Whether the prompt and completion counts add up within `u32`.
    pub fn total_fits(&self) -> (r: bool)
        ensures
            r == (self@.prompt_tokens + self@.completion_tokens <= u32::MAX),
    {
        self.completion_tokens <= u32::MAX - self.prompt_tokens
    }

    /// The statistics of the generation so far.
    pub fn stats(&self) -> (r: GenerateStats)
        requires
            self@.prompt_tokens + self@.completion_tokens <= u32::MAX,
        ensures
            r == stats_of(self@.prompt_tokens, self@.completion_tokens as u32),
    {
        GenerateStats {
            prompt_tokens: self.prompt_tokens,
            completion_tokens: self.completion_tokens,
            total_tokens: self.prompt_tokens + self.completion_tokens,
        }
    }
}


/// A backend that runs a GGUF model with llama.cpp on the CPU.
#[derive(Debug, Clone)]
pub struct LlamaCppBackend {
    name: String,
    config: LlamaCppBackendConfig,
}

impl LlamaCppBackend {
    /// The backend's name.
    pub closed spec fn name_view(&self) -> Seq<char> {
        self.name@
    }

    /// The backend's configuration.
    pub closed spec fn config_view(&self) -> LlamaCppBackendConfig {
        self.config
    }

    /// A backend for `config`, given whether its model file exists: refused
    /// with `MissingModel` exactly when it does not.
    pub fn from_model_check(name: &str, config: LlamaCppBackendConfig, model_exists: bool) -> (r:
        Result<LlamaCppBackend, LlamaCppError>)
        ensures
            r is Ok <==> model_exists,
            r matches Ok(b) ==> b.name_view() == name@ && b.config_view() == config,
            r matches Err(e) ==> e == (LlamaCppError::MissingModel { path: config.model }),
    {
        if !model_exists {
            return Err(LlamaCppError::MissingModel { path: config.model });
        }
        Ok(LlamaCppBackend { name: name.to_owned(), config })
    }

    /// A backend for `config`, once its model file is found on disk (whether
    /// it is depends on the file system; see `from_model_check`).
    pub fn new(name: &str, config: LlamaCppBackendConfig) -> (r: Result<
        LlamaCppBackend,
        LlamaCppError,
    >)
        ensures
            r matches Ok(b) ==> b.name_view() == name@ && b.config_view() == config,
            r matches Err(e) ==> e == (LlamaCppError::MissingModel { path: config.model }),
    {
        let exists = path_exists(config.model.as_str());
        Self::from_model_check(name, config, exists)
    }

    /// The backend's name.
    pub fn name(&self) -> (r: &str)
        ensures
            r@ == self.name_view(),
    {
        self.name.as_str()
    }

    /// The backend's configuration.
    pub fn config(&self) -> (r: &LlamaCppBackendConfig)
        ensures
            *r == self.config_view(),
    {
        &self.config
    }

    /// The chat prompt of a request.
    pub fn build_prompt(request: &GenerateRequest) -> (r: String)
        ensures
            r@ == chat_prompt(request.messages@),
    {
        let mut prompt = String::new();
        let mut i: usize = 0;
        while i < request.messages.len()
            invariant
                i <= request.messages@.len(),
                prompt@ == formatted_messages(request.messages@.take(i as int)),
            decreases request.messages.len() - i,
        {
            let part = format_message(&request.messages[i]);
            assert(request.messages@.take(i + 1).drop_last() == request.messages@.take(i as int));
            prompt.append(part.as_str());
            i += 1;
        }
        assert(request.messages@.take(request.messages@.len() as int) == request.messages@);
        prompt.append("<|assistant|>\n");
        prompt
    }

    /// What to run for `request`, given llama.cpp's default context settings:
    /// the prompt, the sampler, the context settings, memory mapping as
    /// configured and no GPU layers. A request without messages is refused.
    pub fn plan(&self, request: &GenerateRequest, defaults: ContextSettings) -> (r: Result<
        LlamaPlan,
        LlamaCppError,
    >)
        ensures
            request.messages@.len() == 0 ==> r == Err::<LlamaPlan, LlamaCppError>(
                LlamaCppError::EmptyMessages,
            ),
            request.messages@.len() > 0 ==> (r matches Ok(p) && p.prompt@ == chat_prompt(
                request.messages@,
            ) && p.sampler == sampler_for(request.temperature, request.top_p) && p.context
                == context_of(self.config_view(), defaults) && p.use_mmap
                == self.config_view().use_mmap && p.n_gpu_layers == 0),
    {
        if request.messages.len() == 0 {
            return Err(LlamaCppError::EmptyMessages);
        }
        Ok(
            LlamaPlan {
                prompt: Self::build_prompt(request),
                sampler: choose_sampler(request.temperature, request.top_p),
                context: context_settings(&self.config, defaults),
                use_mmap: self.config.use_mmap,
                n_gpu_layers: 0,
            },
        )
    }
}


/// A positive temperature samples with top-p and that temperature, keeping
/// the client's top-p (0.9 only when none is given); any other temperature
/// samples greedily.
pub proof fn lemma_sampler_keeps_request_settings(t: u32, p: Option<u32>)
    ensures
        0 < t <= 0x7f80_0000 ==> sampler_for(Some(t), p) == (SamplerChoice::TopPTemperature {
            top_p: match p {
                Some(x) => x,
                None => 0x3f66_6666u32,
            },
            temperature: t,
        }),
        !(0 < t <= 0x7f80_0000) ==> sampler_for(Some(t), p) == SamplerChoice::Greedy,
        sampler_for(None, p) == SamplerChoice::Greedy,
{
}

} // verus!
