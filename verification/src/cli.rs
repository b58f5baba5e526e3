use vstd::prelude::*;

use crate::chat::{ChatMessage, GenerateRequest, GenerateStats};
use crate::config::{
    core_error_text, lookup, requested_name, AppConfig, BackendConfig, CoreError,
    GenieBackendConfig,
};
use crate::order::str_eq;
use crate::text::{chars_of, decimal, decimal_string, string_from_range, trim, trimmed, views};

verus! {

/// Whether `c` occurs in `s`.
pub open spec fn has_char(s: Seq<char>, c: char) -> bool {
    exists|i: int| 0 <= i < s.len() && s[i] == c
}

fn contains_char(s: &str, c: char) -> (r: bool)
    ensures
        r == has_char(s@, c),
{
    let cs = chars_of(s);
    let mut i: usize = 0;
    while i < cs.len()
        invariant
            cs@ == s@,
            i <= cs@.len(),
            forall|k: int| 0 <= k < i ==> s@[k] != c,
        decreases cs.len() - i,
    {
        if cs[i] == c {
            return true;
        }
        i += 1;
    }
    false
}

/// The registry path of a model: as given when it names its namespace,
/// else under `library/`.
pub open spec fn registry_path(model: Seq<char>) -> Seq<char> {
    if has_char(model, '/') {
        model
    } else {
        "library/"@ + model
    }
}

fn registry_path_string(model: &str) -> (r: String)
    ensures
        r@ == registry_path(model@),
{
    if contains_char(model, '/') {
        model.to_owned()
    } else {
        let mut s = "library/".to_owned();
        s.append(model);
        s
    }
}

/// The URL of a model's manifest in the Ollama registry.
pub fn get_manifest_url(model: &str, tag: &str) -> (r: String)
    ensures
        r@ == "https://registry.ollama.ai/v2/"@ + registry_path(model@) + "/manifests/"@ + tag@,
{
    let mut url = "https://registry.ollama.ai/v2/".to_owned();
    url.append(registry_path_string(model).as_str());
    url.append("/manifests/");
    url.append(tag);
    url
}

/// The URL of a blob of a model in the Ollama registry.
pub fn get_blob_url(model: &str, digest: &str) -> (r: String)
    ensures
        r@ == "https://registry.ollama.ai/v2/"@ + registry_path(model@) + "/blobs/"@ + digest@,
{
    let mut url = "https://registry.ollama.ai/v2/".to_owned();
    url.append(registry_path_string(model).as_str());
    url.append("/blobs/");
    url.append(digest);
    url
}

/// The index of the first occurrence of `c` in `s`.
pub open spec fn first_index_of(s: Seq<char>, c: char) -> Option<int>
    decreases s.len(),
{
    if s.len() == 0 {
        None
    } else if s[0] == c {
        Some(0)
    } else {
        match first_index_of(s.drop_first(), c) {
            Some(i) => Some(i + 1),
            None => None,
        }
    }
}

/// A model reference split at its first `:` into name and tag; the tag is
/// `latest` when there is no `:`.
pub open spec fn split_reference(reference: Seq<char>) -> (Seq<char>, Seq<char>) {
    match first_index_of(reference, ':') {
        Some(i) => (reference.take(i), reference.skip(i + 1)),
        None => (reference, "latest"@),
    }
}

proof fn lemma_first_index(s: Seq<char>, c: char, k: int)
    requires
        0 <= k <= s.len(),
        forall|j: int| 0 <= j < k ==> s[j] != c,
    ensures
        first_index_of(s, c) == match first_index_of(s.skip(k), c) {
            Some(i) => Some(i + k),
            None => None::<int>,
        },
    decreases k,
{
    if k > 0 {
        assert(s.drop_first().skip(k - 1) == s.skip(k));
        lemma_first_index(s.drop_first(), c, k - 1);
    } else {
        assert(s.skip(0) == s);
    }
}

/// Splits a model reference like `qwen2.5:0.5b` into name and tag.
pub fn split_model_reference(reference: &str) -> (r: (String, String))
    ensures
        r.0@ == split_reference(reference@).0,
        r.1@ == split_reference(reference@).1,
{
    let cs = chars_of(reference);
    let mut i: usize = 0;
    while i < cs.len()
        invariant
            cs@ == reference@,
            i <= cs@.len(),
            forall|j: int| 0 <= j < i ==> reference@[j] != ':',
        decreases cs.len() - i,
    {
        if cs[i] == ':' {
            proof {
                lemma_first_index(reference@, ':', i as int);
            }
            let name = string_from_range(&cs, 0, i);
            let tag = string_from_range(&cs, i + 1, cs.len());
            assert(reference@.subrange(0, i as int) == reference@.take(i as int));
            assert(reference@.subrange(i + 1, cs@.len() as int) == reference@.skip(i + 1));
            return (name, tag);
        }
        i += 1;
    }
    proof {
        lemma_first_index(reference@, ':', cs@.len() as int);
        assert(reference@.skip(cs@.len() as int) =~= Seq::<char>::empty());
    }
    (reference.to_owned(), "latest".to_owned())
}

/// One layer of a registry manifest.
#[derive(Debug, Clone, PartialEq, Eq)]
pub struct RegistryLayer {
    pub media_type: String,
    pub digest: String,
    pub size: u64,
}

/// The media type of the layer that holds a model's weights.
pub open spec fn model_media_type() -> Seq<char> {
    "application/vnd.ollama.image.model"@
}

/// The index of the first layer that holds the model weights.
pub fn find_model_layer(layers: &Vec<RegistryLayer>) -> (r: Option<usize>)
    ensures
        r matches Some(i) ==> i < layers@.len() && layers@[i as int].media_type@ == model_media_type()
            && forall|j: int| 0 <= j < i ==> (#[trigger] layers@[j]).media_type@ != model_media_type(),
        r is None ==> forall|j: int| 0 <= j < layers@.len() ==> (#[trigger] layers@[j]).media_type@
            != model_media_type(),
{
    let mut i: usize = 0;
    while i < layers.len()
        invariant
            i <= layers@.len(),
            forall|j: int| 0 <= j < i ==> (#[trigger] layers@[j]).media_type@ != model_media_type(),
        decreases layers.len() - i,
    {
        if str_eq(layers[i].media_type.as_str(), "application/vnd.ollama.image.model") {
            return Some(i);
        }
        i += 1;
    }
    None
}

/// What a line typed in the interactive chat asks for.
#[derive(Debug, Clone, PartialEq, Eq)]
pub enum ChatInput {
    Empty,
    Quit,
    Help,
    Message(String),
}

/// Classifies a line typed in the interactive chat: nothing when blank, the
/// quit and help commands, or else a message (the trimmed line).
pub fn classify_chat_input(line: &str) -> (r: ChatInput)
    ensures
        ({
            let t = trimmed(line@);
            if t.len() == 0 {
                r == ChatInput::Empty
            } else if t == "/bye"@ || t == "/exit"@ || t == "/quit"@ {
                r == ChatInput::Quit
            } else if t == "/help"@ {
                r == ChatInput::Help
            } else {
                r matches ChatInput::Message(m) && m@ == t
            }
        }),
{
    let t = trim(line);
    if t.as_str().is_empty() {
        ChatInput::Empty
    } else if str_eq(t.as_str(), "/bye") || str_eq(t.as_str(), "/exit") || str_eq(t.as_str(), "/quit") {
        ChatInput::Quit
    } else if str_eq(t.as_str(), "/help") {
        ChatInput::Help
    } else {
        ChatInput::Message(t)
    }
}

/// The messages of an interactive chat so far.
#[derive(Debug, Clone)]
pub struct ChatHistory {
    messages: Vec<ChatMessage>,
}

impl View for ChatHistory {
    type V = Seq<ChatMessage>;

    closed spec fn view(&self) -> Seq<ChatMessage> {
        self.messages@
    }
}

/// A user message with the given text.
pub open spec fn is_message(m: ChatMessage, role: Seq<char>, content: Seq<char>) -> bool {
    m.role@ == role && m.content@ == content
}

impl ChatHistory {
    /// An empty chat.
    pub fn new() -> (r: ChatHistory)
        ensures
            r@ == Seq::<ChatMessage>::empty(),
    {
        ChatHistory { messages: Vec::new() }
    }

    /// The messages so far.
    pub fn messages(&self) -> (r: &Vec<ChatMessage>)
        ensures
            r@ == self@,
    {
        &self.messages
    }

    /// Adds what the user typed.
    pub fn push_user(&mut self, text: &str)
        ensures
            final(self)@.len() == old(self)@.len() + 1,
            final(self)@.drop_last() == old(self)@,
            is_message(final(self)@.last(), "user"@, text@),
    {
        self.messages.push(ChatMessage::new("user", text));
        assert(self@.drop_last() =~= old(self)@);
    }

    /// Adds the assistant's reply.
    pub fn push_assistant(&mut self, reply: &str)
        ensures
            final(self)@.len() == old(self)@.len() + 1,
            final(self)@.drop_last() == old(self)@,
            is_message(final(self)@.last(), "assistant"@, reply@),
    {
        self.messages.push(ChatMessage::new("assistant", reply));
        assert(self@.drop_last() =~= old(self)@);
    }

    /// Takes back the last message (the user's, when the reply failed).
    pub fn pop(&mut self)
        ensures
            final(self)@ == if old(self)@.len() > 0 {
                old(self)@.drop_last()
            } else {
                old(self)@
            },
    {
        let _ = self.messages.pop();
    }

    /// The request for the next reply: the whole chat, default settings.
    pub fn request(&self) -> (r: GenerateRequest)
        ensures
            r.messages@ == self@,
            r.max_tokens is None,
            r.temperature is None,
            r.top_p is None,
    {
        GenerateRequest {
            messages: self.messages.clone(),
            max_tokens: None,
            temperature: None,
            top_p: None,
        }
    }
}

/// The request for a single prompt: one user message, default settings.
pub fn user_request(prompt: &str) -> (r: GenerateRequest)
    ensures
        r.messages@.len() == 1,
        is_message(r.messages@[0], "user"@, prompt@),
        r.max_tokens is None,
        r.temperature is None,
        r.top_p is None,
{
    let mut messages: Vec<ChatMessage> = Vec::new();
    messages.push(ChatMessage::new("user", prompt));
    GenerateRequest { messages, max_tokens: None, temperature: None, top_p: None }
}

/// What the interactive chat does with a typed line.
#[derive(Debug)]
pub enum ChatAction {
    /// Nothing: the line was blank.
    Skip,
    /// End the session.
    Quit,
    /// Show the list of commands.
    Help,
    /// Ask the backend for the next reply.
    Generate(GenerateRequest),
}

/// How a typed line changes the chat: a message adds the trimmed line as a
/// user message; blank lines and commands leave it as it was.
pub open spec fn input_effect(old: Seq<ChatMessage>, new: Seq<ChatMessage>, line: Seq<char>) -> bool {
    let t = trimmed(line);
    if is_chat_message(t) {
        &&& new.len() == old.len() + 1
        &&& new.drop_last() == old
        &&& is_message(new.last(), "user"@, t)
    } else {
        new == old
    }
}

/// Whether a trimmed line is a message rather than a blank line or a command.
pub open spec fn is_chat_message(t: Seq<char>) -> bool {
    t.len() > 0 && t != "/bye"@ && t != "/exit"@ && t != "/quit"@ && t != "/help"@
}

/// How the outcome of a generation changes the chat: a reply is added as an
/// assistant message; a failure takes back the last (user) message.
pub open spec fn reply_effect(
    old: Seq<ChatMessage>,
    new: Seq<ChatMessage>,
    reply: Option<Seq<char>>,
) -> bool {
    match reply {
        Some(text) => {
            &&& new.len() == old.len() + 1
            &&& new.drop_last() == old
            &&& is_message(new.last(), "assistant"@, text)
        },
        None => new == if old.len() > 0 {
            old.drop_last()
        } else {
            old
        },
    }
}

impl ChatHistory {
    /// Takes in a typed line: classifies it, adds a message to the chat, and
    /// says what to do next.
    pub fn on_input(&mut self, line: &str) -> (r: ChatAction)
        ensures
            input_effect(old(self)@, final(self)@, line@),
            ({
                let t = trimmed(line@);
                if t.len() == 0 {
                    r is Skip
                } else if t == "/bye"@ || t == "/exit"@ || t == "/quit"@ {
                    r is Quit
                } else if t == "/help"@ {
                    r is Help
                } else {
                    r matches ChatAction::Generate(req) && req.messages@ == final(self)@
                        && req.max_tokens is None && req.temperature is None && req.top_p is None
                }
            }),
    {
        match classify_chat_input(line) {
            ChatInput::Empty => ChatAction::Skip,
            ChatInput::Quit => ChatAction::Quit,
            ChatInput::Help => ChatAction::Help,
            ChatInput::Message(text) => {
                self.push_user(text.as_str());
                ChatAction::Generate(self.request())
            },
        }
    }

    /// Takes in the outcome of a generation: the reply's text, or `None`
    /// when it failed.
    pub fn on_reply(&mut self, reply: Option<&str>)
        ensures
            reply_effect(
                old(self)@,
                final(self)@,
                match reply {
                    Some(t) => Some(t@),
                    None => None,
                },
            ),
    {
        match reply {
            Some(text) => self.push_assistant(text),
            None => self.pop(),
        }
    }
}

/// Errors of the command-line tool's own checks.
#[derive(Debug, PartialEq, Eq)]
pub enum CliError {
    Config(CoreError),
    NotGenie { name: String, kind: String },
    NoRuns,
    NoBackends,
}

/// The text that describes a command-line error.
pub open spec fn cli_error_text(e: CliError) -> Seq<char> {
    match e {
        CliError::Config(c) => core_error_text(c),
        CliError::NotGenie { name, kind } => "backend '"@ + name@ + "' uses kind '"@ + kind@
            + "', expected genie"@,
        CliError::NoRuns => "Number of runs must be greater than 0"@,
        CliError::NoBackends => "No backends found to benchmark"@,
    }
}

impl CliError {
    /// The message that describes the error.
    pub fn message(&self) -> (r: String)
        ensures
            r@ == cli_error_text(*self),
    {
        match self {
            CliError::Config(c) => c.message(),
            CliError::NotGenie { name, kind } => {
                let mut s = "backend '".to_owned();
                s.append(name.as_str());
                s.append("' uses kind '");
                s.append(kind.as_str());
                s.append("', expected genie");
                s
            },
            CliError::NoRuns => "Number of runs must be greater than 0".to_owned(),
            CliError::NoBackends => "No backends found to benchmark".to_owned(),
        }
    }
}

/// The Genie settings of the named backend, for preparing its bundle.
pub fn genie_backend_config<'a>(config: &'a AppConfig, name: &str) -> (r: Result<
    &'a GenieBackendConfig,
    CliError,
>)
    ensures
        match lookup(config.backends@, name@) {
            None => r matches Err(CliError::Config(CoreError::UnknownBackendName { name: n }))
                && n@ == name@,
            Some(BackendConfig::Genie(g)) => r matches Ok(c) && *c == *g,
            Some(b) => r matches Err(CliError::NotGenie { name: n, kind }) && n@ == name@ && kind@
                == b.kind_name(),
        },
{
    match config.backend(Some(name)) {
        Err(e) => Err(CliError::Config(e)),
        Ok((_, BackendConfig::Genie(g))) => Ok(&**g),
        Ok((_, b)) => Err(CliError::NotGenie { name: name.to_owned(), kind: b.kind().to_owned() }),
    }
}

/// Refuses a benchmark of zero runs.
pub fn check_benchmark_runs(runs: u32) -> (r: Result<(), CliError>)
    ensures
        runs == 0 ==> r == Err::<(), CliError>(CliError::NoRuns),
        runs > 0 ==> r is Ok,
{
    if runs == 0 {
        Err(CliError::NoRuns)
    } else {
        Ok(())
    }
}

/// The backends to benchmark: the one asked for, or every configured one
/// in name order; none at all is refused.
pub fn benchmark_targets(config: &AppConfig, backend: Option<&str>) -> (r: Result<
    Vec<String>,
    CliError,
>)
    ensures
        backend matches Some(b) ==> (r matches Ok(v) && v@.len() == 1 && v@[0]@ == b@),
        backend is None && config.backends@.len() == 0 ==> r == Err::<Vec<String>, CliError>(
            CliError::NoBackends,
        ),
        backend is None && config.backends@.len() > 0 ==> (r matches Ok(v) && v@.len()
            == config.backends@.len() && forall|i: int|
            0 <= i < v@.len() ==> (#[trigger] v@[i])@ == config.backends@[i].0),
{
    let targets = match backend {
        Some(b) => {
            let mut v: Vec<String> = Vec::new();
            v.push(b.to_owned());
            v
        },
        None => config.backends.keys(),
    };
    if targets.len() == 0 {
        return Err(CliError::NoBackends);
    }
    Ok(targets)
}

/// What `run` talks to: a configured backend, or a registry model by name.
#[derive(Debug, Clone, PartialEq, Eq)]
pub enum RunTarget {
    Configured(String),
    Registry(String),
}

/// The target of `run`: the configured backend of the given name, a
/// registry model when the configuration does not name it, or the default.
pub fn run_target(config: &AppConfig, requested: Option<&str>) -> (r: Result<RunTarget, CoreError>)
    ensures
        match requested {
            Some(n) => if lookup(config.backends@, n@) is Some {
                r matches Ok(RunTarget::Configured(m)) && m@ == n@
            } else {
                r matches Ok(RunTarget::Registry(m)) && m@ == n@
            },
            None => if lookup(config.backends@, requested_name(*config, None)) is Some {
                r matches Ok(RunTarget::Configured(m)) && m@ == requested_name(*config, None)
            } else {
                r matches Err(CoreError::UnknownBackendName { name }) && name@ == requested_name(
                    *config,
                    None,
                )
            },
        },
{
    match requested {
        Some(name) => {
            if config.backends.contains_key(name) {
                let resolved = config.resolve_backend_name(Some(name))?;
                Ok(RunTarget::Configured(resolved.to_owned()))
            } else {
                Ok(RunTarget::Registry(name.to_owned()))
            }
        },
        None => {
            let resolved = config.resolve_backend_name(None)?;
            Ok(RunTarget::Configured(resolved.to_owned()))
        },
    }
}


fn labelled_count(label: &str, n: u32) -> (r: String)
    ensures
        r@ == label@ + decimal(n as nat),
{
    let mut s = label.to_owned();
    s.append(decimal_string(n as u64).as_str());
    s
}

/// The text `{:?}` writes for a string: quoted, with escapes.
pub uninterp spec fn debug_text(s: Seq<char>) -> Seq<char>;

/// Formats a string with `<str as Debug>::fmt` (`{:?}`); the result is
/// named by `debug_text`.
#[verifier::external_body]
fn debug_quoted(s: &str) -> (r: String)
    ensures
        r@ == debug_text(s@),
{
    format!("{:?}", s)
}

/// The text of a boolean as `{}` writes it.
pub open spec fn bool_text(b: bool) -> Seq<char> {
    if b {
        "true"@
    } else {
        "false"@
    }
}

/// A labelled line for an optional number: none when it is absent.
pub open spec fn optional_count_line(label: Seq<char>, n: Option<u32>) -> Seq<Seq<char>> {
    match n {
        Some(v) => seq![label + decimal(v as nat)],
        None => Seq::empty(),
    }
}

/// The lines `show` prints for a configured backend: its name and kind,
/// then its settings.
pub open spec fn backend_lines(name: Seq<char>, backend: BackendConfig) -> Seq<Seq<char>> {
    seq!["Model: "@ + name, "Kind:  "@ + backend.kind_name()] + match backend {
        BackendConfig::Fake(f) => seq![
            "Response prefix: "@ + debug_text(
                match f.response_prefix {
                    Some(p) => p@,
                    None => "None"@,
                },
            ),
        ],
        BackendConfig::Genie(g) => seq![
            "Bundle directory:   "@ + g.bundle_dir@,
            "Genie config:       "@ + g.genie_config@,
            "HTP config:         "@ + g.htp_config@,
            "QNN SDK root:       "@ + g.qnn_sdk_root@,
            "Tokenizer path:     "@ + g.tokenizer_path@,
            "Genie template:     "@ + g.genie_config_template@,
            "HTP template:       "@ + g.htp_config_template@,
            "SoC model:          "@ + decimal(g.soc_model as nat),
            "DSP arch:           "@ + g.dsp_arch@,
        ] + match g.genie_executable {
            Some(e) => seq!["Genie executable:   "@ + e@],
            None => Seq::empty(),
        },
        BackendConfig::LlamaCpp(l) => seq!["Model path:         "@ + l.model@]
            + optional_count_line("Threads:            "@, l.n_threads) + optional_count_line(
            "Context size:       "@,
            l.n_ctx,
        ) + optional_count_line("Batch size:         "@, l.n_batch) + seq![
            "Use mmap:           "@ + bool_text(l.use_mmap),
        ],
    }
}

fn labelled(label: &str, text: &str) -> (r: String)
    ensures
        r@ == label@ + text@,
{
    let mut s = label.to_owned();
    s.append(text);
    s
}

fn push_optional_count(lines: &mut Vec<String>, label: &str, n: Option<u32>)
    ensures
        views(final(lines)@) == views(old(lines)@) + optional_count_line(label@, n),
{
    match n {
        Some(v) => {
            let ghost before = views(lines@);
            lines.push(labelled_count(label, v));
            assert(views(lines@) =~= before + seq![label@ + decimal(v as nat)]);
        },
        None => {
            assert(views(lines@) =~= views(lines@) + Seq::<Seq<char>>::empty());
        },
    }
}

/// The lines that describe a configured backend, as `show` prints them.
pub fn backend_description(name: &str, backend: &BackendConfig) -> (r: Vec<String>)
    ensures
        views(r@) == backend_lines(name@, *backend),
        r@.len() >= 2,
        r@[0]@ == "Model: "@ + name@,
        r@[1]@ == "Kind:  "@ + backend.kind_name(),
        *backend matches BackendConfig::Genie(g) ==> {
            &&& r@.len() >= 11
            &&& r@[2]@ == "Bundle directory:   "@ + g.bundle_dir@
            &&& r@[3]@ == "Genie config:       "@ + g.genie_config@
            &&& r@[4]@ == "HTP config:         "@ + g.htp_config@
            &&& r@[5]@ == "QNN SDK root:       "@ + g.qnn_sdk_root@
            &&& r@[6]@ == "Tokenizer path:     "@ + g.tokenizer_path@
            &&& r@[7]@ == "Genie template:     "@ + g.genie_config_template@
            &&& r@[8]@ == "HTP template:       "@ + g.htp_config_template@
            &&& r@[9]@ == "SoC model:          "@ + decimal(g.soc_model as nat)
            &&& r@[10]@ == "DSP arch:           "@ + g.dsp_arch@
        },
        *backend matches BackendConfig::LlamaCpp(l) ==> {
            &&& r@.len() >= 4
            &&& r@[2]@ == "Model path:         "@ + l.model@
            &&& r@.last()@ == "Use mmap:           "@ + bool_text(l.use_mmap)
        },
{
    let mut lines: Vec<String> = Vec::new();
    lines.push(labelled("Model: ", name));
    lines.push(labelled("Kind:  ", backend.kind()));
    let ghost head = views(lines@);
    assert(head =~= seq!["Model: "@ + name@, "Kind:  "@ + backend.kind_name()]);
    match backend {
        BackendConfig::Fake(f) => {
            let shown = match &f.response_prefix {
                Some(p) => debug_quoted(p.as_str()),
                None => debug_quoted("None"),
            };
            lines.push(labelled("Response prefix: ", shown.as_str()));
            assert(views(lines@) =~= head + seq!["Response prefix: "@ + shown@]);
        },
        BackendConfig::Genie(g) => {
            lines.push(labelled("Bundle directory:   ", g.bundle_dir.as_str()));
            lines.push(labelled("Genie config:       ", g.genie_config.as_str()));
            lines.push(labelled("HTP config:         ", g.htp_config.as_str()));
            lines.push(labelled("QNN SDK root:       ", g.qnn_sdk_root.as_str()));
            lines.push(labelled("Tokenizer path:     ", g.tokenizer_path.as_str()));
            lines.push(labelled("Genie template:     ", g.genie_config_template.as_str()));
            lines.push(labelled("HTP template:       ", g.htp_config_template.as_str()));
            lines.push(labelled_count("SoC model:          ", g.soc_model));
            lines.push(labelled("DSP arch:           ", g.dsp_arch.as_str()));
            let ghost middle = views(lines@);
            assert(middle =~= head + seq![
                "Bundle directory:   "@ + g.bundle_dir@,
                "Genie config:       "@ + g.genie_config@,
                "HTP config:         "@ + g.htp_config@,
                "QNN SDK root:       "@ + g.qnn_sdk_root@,
                "Tokenizer path:     "@ + g.tokenizer_path@,
                "Genie template:     "@ + g.genie_config_template@,
                "HTP template:       "@ + g.htp_config_template@,
                "SoC model:          "@ + decimal(g.soc_model as nat),
                "DSP arch:           "@ + g.dsp_arch@,
            ]);
            match &g.genie_executable {
                Some(e) => {
                    lines.push(labelled("Genie executable:   ", e.as_str()));
                    assert(views(lines@) =~= middle + seq!["Genie executable:   "@ + e@]);
                },
                None => {
                    assert(views(lines@) =~= middle + Seq::<Seq<char>>::empty());
                },
            }
        },
        BackendConfig::LlamaCpp(l) => {
            lines.push(labelled("Model path:         ", l.model.as_str()));
            assert(views(lines@) =~= head + seq!["Model path:         "@ + l.model@]);
            push_optional_count(&mut lines, "Threads:            ", l.n_threads);
            push_optional_count(&mut lines, "Context size:       ", l.n_ctx);
            push_optional_count(&mut lines, "Batch size:         ", l.n_batch);
            let flag = if l.use_mmap {
                "true"
            } else {
                "false"
            };
            let ghost before = views(lines@);
            lines.push(labelled("Use mmap:           ", flag));
            assert(views(lines@) =~= before + seq!["Use mmap:           "@ + bool_text(l.use_mmap)]);
        },
    }
    assert(views(lines@) =~= backend_lines(name@, *backend));
    proof {
        lemma_backend_lines_pair_labels(name@, *backend);
        assert(forall|k: int| 0 <= k < lines@.len() ==> #[trigger] views(lines@)[k] == lines@[k]@);
        assert(views(lines@).last() == lines@.last()@);
    }
    lines
}

/// The lines `run` prints after a generation: a blank line, a title, and
/// the prompt, completion and total token counts.
pub fn statistics_report(stats: GenerateStats) -> (r: Vec<String>)
    ensures
        views(r@) == seq![
            Seq::<char>::empty(),
            "Inference Statistics:"@,
            "  Prompt tokens:     "@ + decimal(stats.prompt_tokens as nat),
            "  Completion tokens: "@ + decimal(stats.completion_tokens as nat),
            "  Total tokens:      "@ + decimal(stats.total_tokens as nat),
        ],
{
    let mut lines: Vec<String> = Vec::new();
    lines.push(String::new());
    lines.push("Inference Statistics:".to_owned());
    lines.push(labelled_count("  Prompt tokens:     ", stats.prompt_tokens));
    lines.push(labelled_count("  Completion tokens: ", stats.completion_tokens));
    lines.push(labelled_count("  Total tokens:      ", stats.total_tokens));
    assert(views(lines@) =~= seq![
        Seq::<char>::empty(),
        "Inference Statistics:"@,
        "  Prompt tokens:     "@ + decimal(stats.prompt_tokens as nat),
        "  Completion tokens: "@ + decimal(stats.completion_tokens as nat),
        "  Total tokens:      "@ + decimal(stats.total_tokens as nat),
    ]);
    lines
}

/// A turn whose reply failed leaves the chat as it was: the user message
/// a typed line added is taken back.
pub proof fn lemma_failed_turn_restores_history(
    before: Seq<ChatMessage>,
    line: Seq<char>,
    with_user: Seq<ChatMessage>,
    after: Seq<ChatMessage>,
)
    requires
        is_chat_message(trimmed(line)),
        input_effect(before, with_user, line),
        reply_effect(with_user, after, None),
    ensures
        after == before,
{
}

/// A successful turn adds exactly the user's trimmed line and then the reply.
pub proof fn lemma_turn_appends_exchange(
    before: Seq<ChatMessage>,
    line: Seq<char>,
    with_user: Seq<ChatMessage>,
    reply: Seq<char>,
    after: Seq<ChatMessage>,
)
    requires
        is_chat_message(trimmed(line)),
        input_effect(before, with_user, line),
        reply_effect(with_user, after, Some(reply)),
    ensures
        after.len() == before.len() + 2,
        after.take(before.len() as int) == before,
        is_message(after[before.len() as int], "user"@, trimmed(line)),
        is_message(after[before.len() as int + 1], "assistant"@, reply),
{
    assert(after.take(before.len() as int) =~= before) by {
        assert forall|i: int| 0 <= i < before.len() implies after[i] == before[i] by {
            assert(after[i] == with_user[i]);
            assert(with_user[i] == before[i]);
        }
    }
    assert(after[before.len() as int] == with_user[before.len() as int]);
}


/// What `show` prints for a backend names it and its kind, then pairs each
/// setting's label with that setting: for a Genie backend the bundle
/// directory, Genie configuration, HTP configuration, SDK root, tokenizer,
/// the two templates, SoC model and DSP architecture in that order; for a
/// llama.cpp backend the model path first and memory mapping last.
pub proof fn lemma_backend_lines_pair_labels(name: Seq<char>, backend: BackendConfig)
    ensures
        backend_lines(name, backend).len() >= 2,
        backend_lines(name, backend)[0] == "Model: "@ + name,
        backend_lines(name, backend)[1] == "Kind:  "@ + backend.kind_name(),
        backend matches BackendConfig::Genie(g) ==> {
            let lines = backend_lines(name, backend);
            &&& lines.len() >= 11
            &&& lines[2] == "Bundle directory:   "@ + g.bundle_dir@
            &&& lines[3] == "Genie config:       "@ + g.genie_config@
            &&& lines[4] == "HTP config:         "@ + g.htp_config@
            &&& lines[5] == "QNN SDK root:       "@ + g.qnn_sdk_root@
            &&& lines[6] == "Tokenizer path:     "@ + g.tokenizer_path@
            &&& lines[7] == "Genie template:     "@ + g.genie_config_template@
            &&& lines[8] == "HTP template:       "@ + g.htp_config_template@
            &&& lines[9] == "SoC model:          "@ + decimal(g.soc_model as nat)
            &&& lines[10] == "DSP arch:           "@ + g.dsp_arch@
        },
        backend matches BackendConfig::LlamaCpp(l) ==> {
            let lines = backend_lines(name, backend);
            &&& lines.len() >= 4
            &&& lines[2] == "Model path:         "@ + l.model@
            &&& lines.last() == "Use mmap:           "@ + bool_text(l.use_mmap)
        },
{
    if let BackendConfig::LlamaCpp(l) = backend {
        let lines = backend_lines(name, backend);
        assert(lines.last() == "Use mmap:           "@ + bool_text(l.use_mmap));
    }
}

} // verus!
