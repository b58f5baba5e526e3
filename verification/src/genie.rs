use vstd::prelude::*;

use crate::chat::{
    prompt_index, select_prompt, stats_of, GenerateError, GenerateRequest,
    GenerateStats, Generation,
};
use crate::config::GenieBackendConfig;
use crate::json::{
    array_strings, is_string_array, lemma_replaced_implies, lemma_replaced_other, lemma_replaced_value, paths_diverge,
    replace_at_path, replaced_at, string_array, value_at, value_at_path, JsonValue,
};
use crate::paths::{
    escape_backslashes, extends_with, is_plain_name, is_separator, lemma_join_injective,
    lemma_join_keeps_base, path_for_json, starts_like_verbatim,
};
use crate::paths::{joined_path, path_exists, path_is_dir, path_is_file, path_join};
use crate::text::{
    count_tokens, decimal, decimal_string, decode_utf8_lossy, lossy_utf8, replace, replace_all,
    token_count, trim, trimmed, views,
};

verus! {

/// Errors of the Genie backend and of preparing its bundle.
#[derive(Debug, Clone, PartialEq, Eq)]
pub enum GenieError {
    MissingPath { label: &'static str, path: String },
    NotFile { label: &'static str, path: String },
    NotDirectory { label: &'static str, path: String },
    ParseGenieConfig { path: String, message: String },
    MissingCtxBins,
    CtxBinsNotStrings,
    MissingTemplateField { field: &'static str },
    ProcessFailed { status: String, stderr: String },
}

/// The text that describes a Genie error.
pub open spec fn genie_error_text(e: GenieError) -> Seq<char> {
    match e {
        GenieError::MissingPath { label, path } => label@ + " does not exist: "@ + path@,
        GenieError::NotFile { label, path } => label@ + " is not a file: "@ + path@,
        GenieError::NotDirectory { label, path } => label@ + " is not a directory: "@ + path@,
        GenieError::ParseGenieConfig { path, message } => "failed to parse Genie config template "@
            + path@ + ": "@ + message@,
        GenieError::MissingCtxBins => "Genie config template is missing dialog.engine.model.binary.ctx-bins"@,
        GenieError::CtxBinsNotStrings => "ctx-bins must contain only strings"@,
        GenieError::MissingTemplateField { field } => "Genie config template is missing "@ + field@,
        GenieError::ProcessFailed { status, stderr } => "Genie exited with status "@ + status@
            + ": "@ + stderr@,
    }
}

impl GenieError {
    /// The message that describes the error.
    pub fn message(&self) -> (r: String)
        ensures
            r@ == genie_error_text(*self),
    {
        match self {
            GenieError::MissingPath { label, path } => {
                let mut s = (*label).to_owned();
                s.append(" does not exist: ");
                s.append(path.as_str());
                s
            },
            GenieError::NotFile { label, path } => {
                let mut s = (*label).to_owned();
                s.append(" is not a file: ");
                s.append(path.as_str());
                s
            },
            GenieError::NotDirectory { label, path } => {
                let mut s = (*label).to_owned();
                s.append(" is not a directory: ");
                s.append(path.as_str());
                s
            },
            GenieError::ParseGenieConfig { path, message } => {
                let mut s = "failed to parse Genie config template ".to_owned();
                s.append(path.as_str());
                s.append(": ");
                s.append(message.as_str());
                s
            },
            GenieError::MissingCtxBins => "Genie config template is missing dialog.engine.model.binary.ctx-bins".to_owned(),
            GenieError::CtxBinsNotStrings => "ctx-bins must contain only strings".to_owned(),
            GenieError::MissingTemplateField { field } => {
                let mut s = "Genie config template is missing ".to_owned();
                s.append(*field);
                s
            },
            GenieError::ProcessFailed { status, stderr } => {
                let mut s = "Genie exited with status ".to_owned();
                s.append(status.as_str());
                s.append(": ");
                s.append(stderr.as_str());
                s
            },
        }
    }
}

/// `e` reports that the check of `path` as `label` failed.
pub open spec fn check_failed(e: GenieError, label: Seq<char>, path: Seq<char>) -> bool {
    ||| e matches GenieError::MissingPath { label: l, path: p } && l@ == label && p@ == path
    ||| e matches GenieError::NotFile { label: l, path: p } && l@ == label && p@ == path
    ||| e matches GenieError::NotDirectory { label: l, path: p } && l@ == label && p@ == path
}

/// The outcome of checking that `path` names an existing regular file.
pub fn check_file(label: &'static str, path: &str, exists: bool, is_file: bool) -> (r: Result<
    (),
    GenieError,
>)
    ensures
        !exists ==> (r matches Err(GenieError::MissingPath { label: l, path: p }) && l == label
            && p@ == path@),
        exists && !is_file ==> (r matches Err(GenieError::NotFile { label: l, path: p }) && l
            == label && p@ == path@),
        exists && is_file ==> r is Ok,
{
    if !exists {
        Err(GenieError::MissingPath { label, path: path.to_owned() })
    } else if !is_file {
        Err(GenieError::NotFile { label, path: path.to_owned() })
    } else {
        Ok(())
    }
}

/// The outcome of checking that `path` names an existing directory.
pub fn check_dir(label: &'static str, path: &str, exists: bool, is_dir: bool) -> (r: Result<
    (),
    GenieError,
>)
    ensures
        !exists ==> (r matches Err(GenieError::MissingPath { label: l, path: p }) && l == label
            && p@ == path@),
        exists && !is_dir ==> (r matches Err(GenieError::NotDirectory { label: l, path: p }) && l
            == label && p@ == path@),
        exists && is_dir ==> r is Ok,
{
    if !exists {
        Err(GenieError::MissingPath { label, path: path.to_owned() })
    } else if !is_dir {
        Err(GenieError::NotDirectory { label, path: path.to_owned() })
    } else {
        Ok(())
    }
}

/// Checks on disk that `path` is an existing regular file.
pub fn validate_file(label: &'static str, path: &str) -> (r: Result<(), GenieError>)
    ensures
        r matches Err(e) ==> check_failed(e, label@, path@),
{
    let exists = path_exists(path);
    let is_file = if exists {
        path_is_file(path)
    } else {
        false
    };
    check_file(label, path, exists, is_file)
}

/// Checks on disk that `path` is an existing directory.
pub fn validate_dir(label: &'static str, path: &str) -> (r: Result<(), GenieError>)
    ensures
        r matches Err(e) ==> check_failed(e, label@, path@),
{
    let exists = path_exists(path);
    let is_dir = if exists {
        path_is_dir(path)
    } else {
        false
    };
    check_dir(label, path, exists, is_dir)
}

/// The first failed check of a series, in order; `None` when all passed.
pub open spec fn first_failure(checks: Seq<Result<(), GenieError>>) -> Option<GenieError>
    decreases checks.len(),
{
    if checks.len() == 0 {
        None
    } else {
        match checks[0] {
            Err(e) => Some(e),
            Ok(_) => first_failure(checks.drop_first()),
        }
    }
}

/// The outcome of a series of checks: the first failure, or success.
pub open spec fn outcome_of(checks: Seq<Result<(), GenieError>>) -> Result<(), GenieError> {
    match first_failure(checks) {
        Some(e) => Err(e),
        None => Ok(()),
    }
}

/// `c` is the outcome of checking `path` as `label`: success, or an error
/// about that path.
pub open spec fn check_of(c: Result<(), GenieError>, label: Seq<char>, path: Seq<char>) -> bool {
    c matches Err(e) ==> check_failed(e, label, path)
}

/// The outcome of checks made in order: the first failure, or success when
/// every check passed.
pub fn first_failed_check(checks: Vec<Result<(), GenieError>>) -> (r: Result<(), GenieError>)
    ensures
        r == outcome_of(checks@),
        r is Ok <==> forall|i: int| 0 <= i < checks@.len() ==> (#[trigger] checks@[i]) is Ok,
{
    let n = checks.len();
    let mut i: usize = 0;
    assert(checks@.skip(0) == checks@);
    while i < n
        invariant
            n == checks@.len(),
            i <= n,
            forall|k: int| 0 <= k < i ==> (#[trigger] checks@[k]) is Ok,
            first_failure(checks@) == first_failure(checks@.skip(i as int)),
        decreases n - i,
    {
        assert(checks@.skip(i as int)[0] == checks@[i as int]);
        let failed = match &checks[i] {
            Err(_) => true,
            Ok(_) => false,
        };
        if failed {
            let mut checks = checks;
            return checks.remove(i);
        }
        assert(checks@.skip(i as int).drop_first() == checks@.skip(i + 1));
        i += 1;
    }
    assert(checks@.skip(n as int).len() == 0);
    Ok(())
}

/// The Genie executable a configuration runs: the configured one, or
/// `genie-t2t-run.exe` in the bundle directory.
pub open spec fn genie_executable_of(config: GenieBackendConfig) -> Seq<char> {
    match config.genie_executable {
        Some(path) => path@,
        None => joined_path(config.bundle_dir@, "genie-t2t-run.exe"@),
    }
}

/// The Genie executable a configuration runs.
pub fn effective_genie_executable(config: &GenieBackendConfig) -> (r: String)
    ensures
        r@ == genie_executable_of(*config),
        config.genie_executable matches Some(p) ==> r@ == p@,
        config.genie_executable is None ==> r@ == joined_path(
            config.bundle_dir@,
            "genie-t2t-run.exe"@,
        ),
{
    match &config.genie_executable {
        Some(path) => path.clone(),
        None => path_join(config.bundle_dir.as_str(), "genie-t2t-run.exe"),
    }
}

/// How to run Genie for one prompt.
#[derive(Debug, Clone, PartialEq, Eq)]
pub struct GenieInvocation {
    pub program: String,
    pub current_dir: String,
    pub args: Vec<String>,
    pub env_key: String,
    pub env_value: String,
}

/// What a run of Genie produced.
#[derive(Debug, Clone, PartialEq, Eq)]
pub struct ProcessOutcome {
    pub success: bool,
    pub status: String,
    pub stdout: Vec<u8>,
    pub stderr: Vec<u8>,
}

/// What preparing a bundle produced: the two generated configuration files,
/// the runtime files copied into the bundle, and the checked context binaries.
#[derive(Debug, Clone, PartialEq, Eq)]
pub struct PreparedGenieBundle {
    pub genie_config: String,
    pub htp_config: String,
    pub copied_files: Vec<String>,
    pub context_bins: Vec<String>,
}

impl PreparedGenieBundle {
    /// The record of a bundle prepared for `config`.
    pub fn new(config: &GenieBackendConfig, copied_files: Vec<String>, context_bins: Vec<String>) -> (r:
        PreparedGenieBundle)
        ensures
            r.genie_config@ == config.genie_config@,
            r.htp_config@ == config.htp_config@,
            r.copied_files == copied_files,
            r.context_bins == context_bins,
    {
        PreparedGenieBundle {
            genie_config: config.genie_config.clone(),
            htp_config: config.htp_config.clone(),
            copied_files,
            context_bins,
        }
    }
}

/// The checks a Genie backend is set up after, in order: the Genie
/// configuration file, the bundle directory, the executable.
pub open spec fn is_backend_checks(checks: Seq<Result<(), GenieError>>, config: GenieBackendConfig) -> bool {
    &&& checks.len() == 3
    &&& check_of(checks[0], "Genie config"@, config.genie_config@)
    &&& check_of(checks[1], "Genie bundle directory"@, config.bundle_dir@)
    &&& check_of(checks[2], "Genie executable"@, genie_executable_of(config))
}

/// A backend that runs the Genie command-line tool on the NPU.
#[derive(Debug, Clone)]
pub struct GenieBackend {
    name: String,
    config: GenieBackendConfig,
}

impl GenieBackend {
    /// The backend's name.
    pub closed spec fn name_view(&self) -> Seq<char> {
        self.name@
    }

    /// The backend's configuration.
    pub closed spec fn config_view(&self) -> GenieBackendConfig {
        self.config
    }

    /// A backend for `config`, once its Genie configuration file, bundle
    /// directory and executable are found on disk. The three checks are
    /// made in that order and the first failure is the error.
    pub fn new(name: &str, config: GenieBackendConfig) -> (r: Result<GenieBackend, GenieError>)
        ensures
            exists|checks: Seq<Result<(), GenieError>>|
                #[trigger] is_backend_checks(checks, config) && (r is Ok <==> outcome_of(checks)
                    is Ok) && (r matches Err(e) ==> outcome_of(checks) == Err::<(), GenieError>(e)),
            r matches Ok(b) ==> b.name_view() == name@ && b.config_view() == config,
    {
        let executable = effective_genie_executable(&config);
        let mut checks: Vec<Result<(), GenieError>> = Vec::new();
        checks.push(validate_file("Genie config", config.genie_config.as_str()));
        checks.push(validate_dir("Genie bundle directory", config.bundle_dir.as_str()));
        checks.push(validate_file("Genie executable", executable.as_str()));
        let ghost cs = checks@;
        assert(is_backend_checks(cs, config));
        first_failed_check(checks)?;
        Ok(GenieBackend { name: name.to_owned(), config })
    }

    /// The backend's name.
    pub fn name(&self) -> (r: &str)
        ensures
            r@ == self.name_view(),
    {
        self.name.as_str()
    }

    /// The backend's configuration.
    pub fn config(&self) -> (r: &GenieBackendConfig)
        ensures
            *r == self.config_view(),
    {
        &self.config
    }

    /// The prompt sent to Genie: the last user message, or else the last one.
    pub fn prompt_from(request: &GenerateRequest) -> (r: Result<String, GenerateError>)
        ensures
            match prompt_index(request.messages@) {
                Some(i) => r matches Ok(p) && p@ == request.messages@[i].content@,
                None => r == Err::<String, GenerateError>(GenerateError::EmptyMessages),
            },
    {
        match select_prompt(&request.messages) {
            Some(message) => Ok(message.content.clone()),
            None => Err(GenerateError::EmptyMessages),
        }
    }

    /// The command that answers `prompt`: the Genie executable, run in the
    /// bundle directory with `-c <genie config> -p <prompt>` and
    /// `ADSP_LIBRARY_PATH` set to the bundle directory.
    pub fn invocation(&self, prompt: &str) -> (r: GenieInvocation)
        ensures
            r.program@ == genie_executable_of(self.config_view()),
            self.config_view().genie_executable matches Some(p) ==> r.program@ == p@,
            self.config_view().genie_executable is None ==> r.program@ == joined_path(
                self.config_view().bundle_dir@,
                "genie-t2t-run.exe"@,
            ),
            r.current_dir@ == self.config_view().bundle_dir@,
            views(r.args@) == seq!["-c"@, self.config_view().genie_config@, "-p"@, prompt@],
            r.env_key@ == "ADSP_LIBRARY_PATH"@,
            r.env_value@ == self.config_view().bundle_dir@,
    {
        let mut args: Vec<String> = Vec::new();
        args.push("-c".to_owned());
        args.push(self.config.genie_config.clone());
        args.push("-p".to_owned());
        args.push(prompt.to_owned());
        assert(views(args@) =~= seq!["-c"@, self.config.genie_config@, "-p"@, prompt@]);
        GenieInvocation {
            program: effective_genie_executable(&self.config),
            current_dir: self.config.bundle_dir.clone(),
            args,
            env_key: "ADSP_LIBRARY_PATH".to_owned(),
            env_value: self.config.bundle_dir.clone(),
        }
    }

    /// Whether the token counts of a run fit in `u32`.
    pub open spec fn counts_fit(prompt: Seq<char>, stdout: Seq<u8>) -> bool {
        token_count(prompt) + token_count(lossy_utf8(stdout)) <= u32::MAX
    }

    /// Whether the token counts of a run with this prompt and standard
    /// output fit in `u32`.
    pub fn can_count(prompt: &str, stdout: &Vec<u8>) -> (r: bool)
        ensures
            r == Self::counts_fit(prompt@, stdout@),
    {
        let text = decode_utf8_lossy(stdout.as_slice());
        let p = count_tokens(prompt);
        let c = count_tokens(text.as_str());
        c <= u32::MAX - p
    }

    /// The answer of a finished run: Genie's standard output as one piece,
    /// or the failure with the trimmed standard error.
    pub fn finish(prompt: &str, outcome: ProcessOutcome) -> (r: Result<Generation, GenieError>)
        requires
            outcome.success ==> Self::counts_fit(prompt@, outcome.stdout@),
        ensures
            !outcome.success ==> (r matches Err(GenieError::ProcessFailed { status, stderr })
                && status == outcome.status && stderr@ == trimmed(lossy_utf8(outcome.stderr@))),
            outcome.success ==> (r matches Ok(g) && views(g.pieces@) == seq![
                lossy_utf8(outcome.stdout@),
            ] && g.stats == stats_of(
                token_count(prompt@),
                token_count(lossy_utf8(outcome.stdout@)),
            )),
    {
        if !outcome.success {
            let stderr_text = decode_utf8_lossy(outcome.stderr.as_slice());
            let stderr = trim(stderr_text.as_str());
            return Err(GenieError::ProcessFailed { status: outcome.status, stderr });
        }
        let text = decode_utf8_lossy(outcome.stdout.as_slice());
        let prompt_tokens = count_tokens(prompt);
        let completion_tokens = count_tokens(text.as_str());
        let mut pieces: Vec<String> = Vec::new();
        pieces.push(text);
        assert(views(pieces@) =~= seq![lossy_utf8(outcome.stdout@)]);
        Ok(
            Generation {
                pieces,
                stats: GenerateStats {
                    prompt_tokens,
                    completion_tokens,
                    total_tokens: prompt_tokens + completion_tokens,
                },
            },
        )
    }
}

/// The platform directory of the QNN SDK's binaries and libraries.
pub open spec fn sdk_arch() -> Seq<char> {
    "aarch64-windows-msvc"@
}

/// The names of the runtime files a bundle needs, for a DSP architecture.
pub open spec fn runtime_file_names(dsp: Seq<char>) -> Seq<Seq<char>> {
    seq![
        "genie-t2t-run.exe"@,
        "qnn-platform-validator.exe"@,
        "Genie.dll"@,
        "PlatformValidatorShared.dll"@,
        "QnnGenAiTransformer.dll"@,
        "QnnGenAiTransformerModel.dll"@,
        "QnnHtp.dll"@,
        "QnnHtpNetRunExtensions.dll"@,
        "QnnHtpPrepare.dll"@,
        "QnnHtp"@ + dsp + "Stub.dll"@,
        "QnnHtp"@ + dsp + "CalculatorStub.dll"@,
        "QnnSystem.dll"@,
        "libCalculator_skel.so"@,
        "libQnnHtp"@ + dsp + ".cat"@,
        "libQnnHtp"@ + dsp + "Skel.so"@,
    ]
}

/// A part of a file name that has no separator.
pub open spec fn is_plain_part(s: Seq<char>) -> bool {
    forall|i: int| 0 <= i < s.len() ==> !is_separator(#[trigger] s[i])
}

proof fn lemma_plain_concat(a: Seq<char>, b: Seq<char>)
    requires
        is_plain_part(a),
        is_plain_part(b),
    ensures
        is_plain_part(a + b),
        a.len() >= 2 ==> (a + b)[0] == a[0] && (a + b)[1] == a[1],
{
    assert forall|i: int| 0 <= i < (a + b).len() implies !is_separator(#[trigger] (a + b)[i]) by {
        if i < a.len() {
            assert((a + b)[i] == a[i]);
        } else {
            assert((a + b)[i] == b[i - a.len()]);
        }
    }
}

/// With a plain DSP architecture name, every runtime file name is a plain
/// name, and no two of them are the same.
pub proof fn lemma_runtime_file_names(dsp: Seq<char>)
    requires
        is_plain_part(dsp),
    ensures
        forall|i: int|
            0 <= i < 15 ==> is_plain_name(#[trigger] runtime_file_names(dsp)[i])
                && runtime_file_names(dsp)[i][0] != '?',
        forall|i: int, j: int|
            0 <= i < j < 15 ==> #[trigger] runtime_file_names(dsp)[i] != #[trigger] runtime_file_names(
                dsp,
            )[j],
{
    reveal_strlit("genie-t2t-run.exe");
    reveal_strlit("qnn-platform-validator.exe");
    reveal_strlit("Genie.dll");
    reveal_strlit("PlatformValidatorShared.dll");
    reveal_strlit("QnnGenAiTransformer.dll");
    reveal_strlit("QnnGenAiTransformerModel.dll");
    reveal_strlit("QnnHtp.dll");
    reveal_strlit("QnnHtpNetRunExtensions.dll");
    reveal_strlit("QnnHtpPrepare.dll");
    reveal_strlit("QnnHtp");
    reveal_strlit("Stub.dll");
    reveal_strlit("CalculatorStub.dll");
    reveal_strlit("QnnSystem.dll");
    reveal_strlit("libCalculator_skel.so");
    reveal_strlit("libQnnHtp");
    reveal_strlit(".cat");
    reveal_strlit("Skel.so");
    let names = runtime_file_names(dsp);
    lemma_plain_concat("QnnHtp"@, dsp);
    lemma_plain_concat("QnnHtp"@ + dsp, "Stub.dll"@);
    lemma_plain_concat("QnnHtp"@ + dsp, "CalculatorStub.dll"@);
    lemma_plain_concat("libQnnHtp"@, dsp);
    lemma_plain_concat("libQnnHtp"@ + dsp, ".cat"@);
    lemma_plain_concat("libQnnHtp"@ + dsp, "Skel.so"@);
    assert forall|i: int| 0 <= i < 15 implies is_plain_name(#[trigger] names[i]) && names[i][0]
        != '?' by {
        assert(is_plain_part(names[i]));
        assert(names[i].len() >= 2 && names[i][1] != ':' && names[i][0] != '?');
    }
    // Each name is told apart by its last character, the character five
    // from the end, and its first character; the two stub libraries, which
    // agree on those, differ in length.
    let sig = |s: Seq<char>| (s[s.len() - 1], s[s.len() - 5], s[0], s[3]);
    assert(sig(names[0]) == ('e', 'n', 'g', 'i'));
    assert(sig(names[1]) == ('e', 'r', 'q', '-'));
    assert(sig(names[2]) == ('l', 'e', 'G', 'i'));
    assert(sig(names[3]) == ('l', 'd', 'P', 't'));
    assert(sig(names[4]) == ('l', 'r', 'Q', 'G'));
    assert(sig(names[5]) == ('l', 'l', 'Q', 'G'));
    assert(sig(names[6]) == ('l', 'p', 'Q', 'H'));
    assert(sig(names[7]) == ('l', 's', 'Q', 'H'));
    assert(sig(names[8]) == ('l', 'e', 'Q', 'H'));
    assert(sig(names[9]) == ('l', 'b', 'Q', 'H'));
    assert(sig(names[10]) == ('l', 'b', 'Q', 'H'));
    assert(names[10].len() == names[9].len() + 10);
    assert(sig(names[11]) == ('l', 'm', 'Q', 'S'));
    assert(sig(names[12]) == ('o', 'e', 'l', 'C'));
    assert(names[13][names[13].len() - 1] == 't');
    assert(sig(names[14]) == ('o', 'e', 'l', 'Q'));
    assert forall|i: int, j: int| 0 <= i < j < 15 implies #[trigger] names[i] != #[trigger] names[j] by {
        if names[i] == names[j] {
            assert(sig(names[i]) == sig(names[j]));
        }
    }
}

/// The SDK directory the `i`-th runtime file comes from: the binaries for
/// the first two, the platform libraries up to the twelfth, then the
/// Hexagon libraries.
pub open spec fn runtime_source_dir(sdk: Seq<char>, dsp: Seq<char>, i: int) -> Seq<char> {
    if i < 2 {
        joined_path(joined_path(sdk, "bin"@), sdk_arch())
    } else if i < 12 {
        joined_path(joined_path(sdk, "lib"@), sdk_arch())
    } else {
        joined_path(joined_path(joined_path(sdk, "lib"@), "hexagon-"@ + dsp), "unsigned"@)
    }
}

/// The `(source, destination)` pairs are the runtime files copied from the
/// SDK into the bundle.
pub open spec fn is_runtime_file_list(files: Seq<(String, String)>, config: GenieBackendConfig) -> bool {
    let names = runtime_file_names(config.dsp_arch@);
    &&& files.len() == 15
    &&& forall|i: int|
        0 <= i < 15 ==> (#[trigger] files[i]).0@ == joined_path(
            runtime_source_dir(config.qnn_sdk_root@, config.dsp_arch@, i),
            names[i],
        ) && files[i].1@ == joined_path(config.bundle_dir@, names[i])
}

fn concat3(a: &str, b: &str, c: &str) -> (r: String)
    ensures
        r@ == a@ + b@ + c@,
{
    let mut s = a.to_owned();
    s.append(b);
    s.append(c);
    s
}

fn runtime_file_name_list(dsp: &str) -> (r: Vec<String>)
    ensures
        views(r@) == runtime_file_names(dsp@),
{
    let mut v: Vec<String> = Vec::new();
    v.push("genie-t2t-run.exe".to_owned());
    v.push("qnn-platform-validator.exe".to_owned());
    v.push("Genie.dll".to_owned());
    v.push("PlatformValidatorShared.dll".to_owned());
    v.push("QnnGenAiTransformer.dll".to_owned());
    v.push("QnnGenAiTransformerModel.dll".to_owned());
    v.push("QnnHtp.dll".to_owned());
    v.push("QnnHtpNetRunExtensions.dll".to_owned());
    v.push("QnnHtpPrepare.dll".to_owned());
    v.push(concat3("QnnHtp", dsp, "Stub.dll"));
    v.push(concat3("QnnHtp", dsp, "CalculatorStub.dll"));
    v.push("QnnSystem.dll".to_owned());
    v.push("libCalculator_skel.so".to_owned());
    v.push(concat3("libQnnHtp", dsp, ".cat"));
    v.push(concat3("libQnnHtp", dsp, "Skel.so"));
    assert(views(v@) =~= runtime_file_names(dsp@));
    v
}

/// Inputs under which the runtime file paths can be told apart: a DSP
/// architecture name without separators, and SDK and bundle directories
/// that do not start like Windows verbatim paths (`\\?\`), which joining
/// rewrites.
pub open spec fn plain_layout_inputs(config: GenieBackendConfig) -> bool {
    &&& is_plain_part(config.dsp_arch@)
    &&& !starts_like_verbatim(config.qnn_sdk_root@)
    &&& !starts_like_verbatim(config.bundle_dir@)
}

/// `path` starts with `base` and does not start like a verbatim path.
pub open spec fn under(path: Seq<char>, base: Seq<char>) -> bool {
    &&& path.len() >= base.len()
    &&& path.take(base.len() as int) == base
    &&& !starts_like_verbatim(path)
}

/// `path` ends with `name`.
pub open spec fn ends_with(path: Seq<char>, name: Seq<char>) -> bool {
    path.len() >= name.len() && path.skip(path.len() - name.len()) == name
}

/// Every source lies under the SDK root and every destination under the
/// bundle directory, each ending with its file's name, and no two files
/// are copied to the same destination.
pub open spec fn runtime_files_laid_out(files: Seq<(String, String)>, config: GenieBackendConfig) -> bool {
    let names = runtime_file_names(config.dsp_arch@);
    &&& forall|k: int|
        0 <= k < 15 ==> under((#[trigger] files[k]).0@, config.qnn_sdk_root@) && ends_with(
            files[k].0@,
            names[k],
        ) && under(files[k].1@, config.bundle_dir@) && ends_with(files[k].1@, names[k])
    &&& forall|a: int, b: int|
        0 <= a < 15 && 0 <= b < 15 && a != b ==> (#[trigger] files[a]).1@ != (#[trigger] files[b]).1@
}

proof fn lemma_under_join(dir: Seq<char>, base: Seq<char>, name: Seq<char>, r: Seq<char>)
    requires
        under(dir, base),
        is_plain_name(name),
        name[0] != '?',
        extends_with(dir, name, r),
    ensures
        under(r, base),
        ends_with(r, name),
{
    lemma_join_keeps_base(dir, name, r);
    assert(r.take(base.len() as int) =~= dir.take(base.len() as int));
}

/// The runtime files a bundle needs: each SDK source path with the bundle
/// path it is copied to. With plain inputs the sources lie under the SDK
/// root, the destinations under the bundle directory, and the destinations
/// are all different.
pub fn required_runtime_files(config: &GenieBackendConfig) -> (r: Vec<(String, String)>)
    ensures
        is_runtime_file_list(r@, *config),
        r@.len() == 15,
        forall|k: int|
            0 <= k < 2 ==> (#[trigger] r@[k]).0@ == joined_path(
                joined_path(joined_path(config.qnn_sdk_root@, "bin"@), "aarch64-windows-msvc"@),
                runtime_file_names(config.dsp_arch@)[k],
            ),
        forall|k: int|
            2 <= k < 12 ==> (#[trigger] r@[k]).0@ == joined_path(
                joined_path(joined_path(config.qnn_sdk_root@, "lib"@), "aarch64-windows-msvc"@),
                runtime_file_names(config.dsp_arch@)[k],
            ),
        forall|k: int|
            12 <= k < 15 ==> (#[trigger] r@[k]).0@ == joined_path(
                joined_path(
                    joined_path(joined_path(config.qnn_sdk_root@, "lib"@), "hexagon-"@ + config.dsp_arch@),
                    "unsigned"@,
                ),
                runtime_file_names(config.dsp_arch@)[k],
            ),
        forall|k: int|
            0 <= k < 15 ==> (#[trigger] r@[k]).1@ == joined_path(
                config.bundle_dir@,
                runtime_file_names(config.dsp_arch@)[k],
            ),
        r@[14].0@ == joined_path(
            joined_path(
                joined_path(joined_path(config.qnn_sdk_root@, "lib"@), "hexagon-"@ + config.dsp_arch@),
                "unsigned"@,
            ),
            "libQnnHtp"@ + config.dsp_arch@ + "Skel.so"@,
        ),
        r@[13].0@ == joined_path(
            joined_path(
                joined_path(joined_path(config.qnn_sdk_root@, "lib"@), "hexagon-"@ + config.dsp_arch@),
                "unsigned"@,
            ),
            "libQnnHtp"@ + config.dsp_arch@ + ".cat"@,
        ),
        r@[12].0@ == joined_path(
            joined_path(
                joined_path(joined_path(config.qnn_sdk_root@, "lib"@), "hexagon-"@ + config.dsp_arch@),
                "unsigned"@,
            ),
            "libCalculator_skel.so"@,
        ),
        r@[0].0@ == joined_path(
            joined_path(joined_path(config.qnn_sdk_root@, "bin"@), "aarch64-windows-msvc"@),
            "genie-t2t-run.exe"@,
        ),
        r@[0].1@ == joined_path(config.bundle_dir@, "genie-t2t-run.exe"@),
        plain_layout_inputs(*config) ==> runtime_files_laid_out(r@, *config),
{
    let sdk = config.qnn_sdk_root.as_str();
    let bundle = config.bundle_dir.as_str();
    let names = runtime_file_name_list(config.dsp_arch.as_str());
    let bin_root = path_join(sdk, "bin");
    let bin_dir = path_join(bin_root.as_str(), "aarch64-windows-msvc");
    let lib_root = path_join(sdk, "lib");
    let lib_dir = path_join(lib_root.as_str(), "aarch64-windows-msvc");
    let mut hexagon_name = "hexagon-".to_owned();
    hexagon_name.append(config.dsp_arch.as_str());
    let hexagon_root = path_join(lib_root.as_str(), hexagon_name.as_str());
    let hexagon_dir = path_join(hexagon_root.as_str(), "unsigned");
    let ghost good = plain_layout_inputs(*config);
    let ghost dsp = config.dsp_arch@;
    proof {
        if good {
            reveal_strlit("bin");
            reveal_strlit("lib");
            reveal_strlit("aarch64-windows-msvc");
            reveal_strlit("unsigned");
            reveal_strlit("hexagon-");
            assert(is_plain_name("bin"@));
            assert(is_plain_name("lib"@));
            assert(is_plain_name("aarch64-windows-msvc"@));
            assert(is_plain_name("unsigned"@));
            lemma_plain_concat("hexagon-"@, dsp);
            assert(is_plain_name(hexagon_name@));
            assert(under(sdk@, sdk@)) by {
                assert(sdk@.take(sdk@.len() as int) =~= sdk@);
            }
            lemma_under_join(sdk@, sdk@, "bin"@, bin_root@);
            lemma_under_join(bin_root@, sdk@, "aarch64-windows-msvc"@, bin_dir@);
            lemma_under_join(sdk@, sdk@, "lib"@, lib_root@);
            lemma_under_join(lib_root@, sdk@, "aarch64-windows-msvc"@, lib_dir@);
            lemma_under_join(lib_root@, sdk@, hexagon_name@, hexagon_root@);
            lemma_under_join(hexagon_root@, sdk@, "unsigned"@, hexagon_dir@);
            assert(under(bundle@, bundle@)) by {
                assert(bundle@.take(bundle@.len() as int) =~= bundle@);
            }
            lemma_runtime_file_names(dsp);
        }
    }
    let mut files: Vec<(String, String)> = Vec::new();
    let mut i: usize = 0;
    assert(views(names@).len() == names@.len());
    while i < 15
        invariant
            names@.len() == 15,
            views(names@) == runtime_file_names(config.dsp_arch@),
            bin_dir@ == runtime_source_dir(config.qnn_sdk_root@, config.dsp_arch@, 0),
            lib_dir@ == runtime_source_dir(config.qnn_sdk_root@, config.dsp_arch@, 2),
            hexagon_dir@ == runtime_source_dir(config.qnn_sdk_root@, config.dsp_arch@, 12),
            sdk@ == config.qnn_sdk_root@,
            bundle@ == config.bundle_dir@,
            dsp == config.dsp_arch@,
            i <= 15,
            files@.len() == i,
            forall|k: int|
                0 <= k < i ==> (#[trigger] files@[k]).0@ == joined_path(
                    runtime_source_dir(config.qnn_sdk_root@, config.dsp_arch@, k),
                    runtime_file_names(config.dsp_arch@)[k],
                ) && files@[k].1@ == joined_path(
                    config.bundle_dir@,
                    runtime_file_names(config.dsp_arch@)[k],
                ),
            good == plain_layout_inputs(*config),
            good ==> under(bin_dir@, sdk@) && under(lib_dir@, sdk@) && under(hexagon_dir@, sdk@)
                && under(bundle@, bundle@),
            good ==> forall|k: int|
                0 <= k < 15 ==> is_plain_name(#[trigger] runtime_file_names(dsp)[k])
                    && runtime_file_names(dsp)[k][0] != '?',
            good ==> forall|a: int, b: int|
                0 <= a < b < 15 ==> #[trigger] runtime_file_names(dsp)[a]
                    != #[trigger] runtime_file_names(dsp)[b],
            good ==> forall|k: int|
                0 <= k < i ==> under((#[trigger] files@[k]).0@, sdk@) && ends_with(
                    files@[k].0@,
                    runtime_file_names(dsp)[k],
                ) && under(files@[k].1@, bundle@) && ends_with(
                    files@[k].1@,
                    runtime_file_names(dsp)[k],
                ) && extends_with(bundle@, runtime_file_names(dsp)[k], files@[k].1@),
            good ==> forall|a: int, b: int|
                0 <= a < i && 0 <= b < i && a != b ==> (#[trigger] files@[a]).1@
                    != (#[trigger] files@[b]).1@,
        decreases 15 - i,
    {
        let name = names[i].as_str();
        assert(name@ == runtime_file_names(config.dsp_arch@)[i as int]);
        let dir: &str = if i < 2 {
            bin_dir.as_str()
        } else if i < 12 {
            lib_dir.as_str()
        } else {
            hexagon_dir.as_str()
        };
        let source = path_join(dir, name);
        let destination = path_join(bundle, name);
        proof {
            if good {
                assert(is_plain_name(name@) && name@[0] != '?');
                lemma_under_join(dir@, sdk@, name@, source@);
                lemma_under_join(bundle@, bundle@, name@, destination@);
                assert forall|k: int| 0 <= k < i implies files@[k].1@ != destination@ by {
                    lemma_join_injective(
                        bundle@,
                        runtime_file_names(dsp)[k],
                        files@[k].1@,
                        name@,
                        destination@,
                    );
                }
            }
        }
        let ghost before = files@;
        files.push((source, destination));
        proof {
            if good {
                assert forall|a: int, b: int|
                    0 <= a < i + 1 && 0 <= b < i + 1 && a != b implies (#[trigger] files@[a]).1@
                    != (#[trigger] files@[b]).1@ by {
                    if a < i {
                        assert(files@[a] == before[a]);
                    }
                    if b < i {
                        assert(files@[b] == before[b]);
                    }
                }
            }
        }
        i += 1;
    }
    files
}

/// What the `k`-th check of preparing a bundle checks: its label.
pub open spec fn prepare_check_label(k: int) -> Seq<char> {
    if k == 0 {
        "QNN SDK root"@
    } else if k == 1 {
        "Genie bundle directory"@
    } else if k == 2 {
        "Genie config template"@
    } else if k == 3 {
        "HTP config template"@
    } else if k == 4 {
        "Tokenizer"@
    } else {
        "QNN/Genie runtime file"@
    }
}

/// What the `k`-th check of preparing a bundle checks: its path. The first
/// five are the SDK root, the bundle directory, the two templates and the
/// tokenizer; the rest are the runtime files' sources, in order.
pub open spec fn prepare_check_path(config: GenieBackendConfig, k: int) -> Seq<char> {
    if k == 0 {
        config.qnn_sdk_root@
    } else if k == 1 {
        config.bundle_dir@
    } else if k == 2 {
        config.genie_config_template@
    } else if k == 3 {
        config.htp_config_template@
    } else if k == 4 {
        config.tokenizer_path@
    } else {
        joined_path(
            runtime_source_dir(config.qnn_sdk_root@, config.dsp_arch@, k - 5),
            runtime_file_names(config.dsp_arch@)[k - 5],
        )
    }
}

/// The outcomes of the checks of preparing a bundle, in order.
pub open spec fn is_prepare_checks(checks: Seq<Result<(), GenieError>>, config: GenieBackendConfig) -> bool {
    &&& checks.len() == 20
    &&& forall|k: int|
        0 <= k < 20 ==> check_of(
            #[trigger] checks[k],
            prepare_check_label(k),
            prepare_check_path(config, k),
        )
}

/// Checks on disk the inputs of preparing a bundle, in order: the SDK root
/// and bundle directories, the two templates, the tokenizer, then every
/// runtime file; the first failure is the error.
pub fn validate_prepare_inputs(config: &GenieBackendConfig) -> (r: Result<(), GenieError>)
    ensures
        exists|checks: Seq<Result<(), GenieError>>|
            #[trigger] is_prepare_checks(checks, *config) && r == outcome_of(checks),
{
    let mut checks: Vec<Result<(), GenieError>> = Vec::new();
    checks.push(validate_dir("QNN SDK root", config.qnn_sdk_root.as_str()));
    checks.push(validate_dir("Genie bundle directory", config.bundle_dir.as_str()));
    checks.push(validate_file("Genie config template", config.genie_config_template.as_str()));
    checks.push(validate_file("HTP config template", config.htp_config_template.as_str()));
    checks.push(validate_file("Tokenizer", config.tokenizer_path.as_str()));
    let files = required_runtime_files(config);
    let mut i: usize = 0;
    while i < files.len()
        invariant
            is_runtime_file_list(files@, *config),
            i <= files@.len(),
            checks@.len() == 5 + i,
            forall|k: int|
                0 <= k < 5 + i ==> check_of(
                    #[trigger] checks@[k],
                    prepare_check_label(k),
                    prepare_check_path(*config, k),
                ),
        decreases files.len() - i,
    {
        let c = validate_file("QNN/Genie runtime file", files[i].0.as_str());
        assert(files@[i as int].0@ == prepare_check_path(*config, i + 5));
        checks.push(c);
        i += 1;
    }
    let ghost cs = checks@;
    assert(is_prepare_checks(cs, *config));
    first_failed_check(checks)
}

/// The outcomes of checking the context binaries, in order.
pub open spec fn is_context_bin_checks(
    checks: Seq<Result<(), GenieError>>,
    bundle_dir: Seq<char>,
    names: Seq<String>,
) -> bool {
    &&& checks.len() == names.len()
    &&& forall|k: int|
        0 <= k < names.len() ==> check_of(
            #[trigger] checks[k],
            "Genie context binary"@,
            joined_path(bundle_dir, names[k]@),
        )
}

/// The context binaries named by the template, as paths in the bundle,
/// each checked on disk to be a file, in order; the first failure is the error.
pub fn validate_context_bins(bundle_dir: &str, names: &Vec<String>) -> (r: Result<
    Vec<String>,
    GenieError,
>)
    ensures
        exists|checks: Seq<Result<(), GenieError>>|
            #[trigger] is_context_bin_checks(checks, bundle_dir@, names@) && (r is Ok <==> outcome_of(
                checks,
            ) is Ok) && (r matches Err(e) ==> outcome_of(checks) == Err::<(), GenieError>(e)),
        r matches Ok(paths) ==> paths@.len() == names@.len() && forall|i: int|
            0 <= i < names@.len() ==> (#[trigger] paths@[i])@ == joined_path(
                bundle_dir@,
                names@[i]@,
            ),
{
    let mut paths: Vec<String> = Vec::new();
    let mut checks: Vec<Result<(), GenieError>> = Vec::new();
    let mut i: usize = 0;
    while i < names.len()
        invariant
            i <= names@.len(),
            paths@.len() == i,
            checks@.len() == i,
            forall|k: int|
                0 <= k < i ==> (#[trigger] paths@[k])@ == joined_path(bundle_dir@, names@[k]@),
            forall|k: int|
                0 <= k < i ==> check_of(
                    #[trigger] checks@[k],
                    "Genie context binary"@,
                    joined_path(bundle_dir@, names@[k]@),
                ),
        decreases names.len() - i,
    {
        let path = path_join(bundle_dir, names[i].as_str());
        checks.push(validate_file("Genie context binary", path.as_str()));
        paths.push(path);
        i += 1;
    }
    let ghost cs = checks@;
    assert(is_context_bin_checks(cs, bundle_dir@, names@));
    first_failed_check(checks)?;
    Ok(paths)
}

/// The HTP configuration made from its template: the `soc_model` and
/// `dsp_arch` placeholders filled in.
pub open spec fn htp_config_text(template: Seq<char>, soc_model: u32, dsp_arch: Seq<char>) -> Seq<char> {
    replace_all(
        replace_all(template, "\"soc_model\": <TODO>"@, "\"soc_model\": "@ + decimal(soc_model as nat)),
        "\"dsp_arch\": \"<TODO>\""@,
        "\"dsp_arch\": \""@ + dsp_arch + "\""@,
    )
}

/// Fills the `soc_model` and `dsp_arch` placeholders of the HTP configuration template.
pub fn render_htp_config(template: &str, soc_model: u32, dsp_arch: &str) -> (r: String)
    ensures
        r@ == htp_config_text(template@, soc_model, dsp_arch@),
{
    let mut soc = "\"soc_model\": ".to_owned();
    let digits = decimal_string(soc_model as u64);
    soc.append(digits.as_str());
    let dsp = concat3("\"dsp_arch\": \"", dsp_arch, "\"");
    proof {
        reveal_strlit("\"soc_model\": <TODO>");
        reveal_strlit("\"dsp_arch\": \"<TODO>\"");
    }
    let first = replace(template, "\"soc_model\": <TODO>", soc.as_str());
    replace(first.as_str(), "\"dsp_arch\": \"<TODO>\"", dsp.as_str())
}


/// Where a Genie configuration lists its context binaries.
pub open spec fn ctx_bins_keys() -> Seq<Seq<char>> {
    seq!["dialog"@, "engine"@, "model"@, "binary"@, "ctx-bins"@]
}

/// Where a Genie configuration sets memory mapping of the HTP backend.
pub open spec fn use_mmap_keys() -> Seq<Seq<char>> {
    seq!["dialog"@, "engine"@, "backend"@, "QnnHtp"@, "use-mmap"@]
}

/// Where a Genie configuration names its tokenizer file.
pub open spec fn tokenizer_path_keys() -> Seq<Seq<char>> {
    seq!["dialog"@, "tokenizer"@, "path"@]
}

/// Where a Genie configuration names the HTP backend extensions file.
pub open spec fn extensions_keys() -> Seq<Seq<char>> {
    seq!["dialog"@, "engine"@, "backend"@, "extensions"@]
}

fn keys_vec(parts: &[&str]) -> (r: Vec<String>)
    ensures
        r@.len() == parts@.len(),
        forall|i: int| 0 <= i < parts@.len() ==> (#[trigger] r@[i])@ == parts@[i]@,
{
    let mut v: Vec<String> = Vec::new();
    let mut i: usize = 0;
    while i < parts.len()
        invariant
            i <= parts@.len(),
            v@.len() == i,
            forall|k: int| 0 <= k < i ==> (#[trigger] v@[k])@ == parts@[k]@,
        decreases parts.len() - i,
    {
        v.push(parts[i].to_owned());
        i += 1;
    }
    v
}

fn ctx_bins_key_vec() -> (r: Vec<String>)
    ensures
        views(r@) == ctx_bins_keys(),
{
    let v = keys_vec(&["dialog", "engine", "model", "binary", "ctx-bins"]);
    assert(views(v@) =~= ctx_bins_keys());
    v
}

fn use_mmap_key_vec() -> (r: Vec<String>)
    ensures
        views(r@) == use_mmap_keys(),
{
    let v = keys_vec(&["dialog", "engine", "backend", "QnnHtp", "use-mmap"]);
    assert(views(v@) =~= use_mmap_keys());
    v
}

fn tokenizer_path_key_vec() -> (r: Vec<String>)
    ensures
        views(r@) == tokenizer_path_keys(),
{
    let v = keys_vec(&["dialog", "tokenizer", "path"]);
    assert(views(v@) =~= tokenizer_path_keys());
    v
}

fn extensions_key_vec() -> (r: Vec<String>)
    ensures
        views(r@) == extensions_keys(),
{
    let v = keys_vec(&["dialog", "engine", "backend", "extensions"]);
    assert(views(v@) =~= extensions_keys());
    v
}

/// The names of the context binaries a Genie configuration template lists.
pub fn context_bin_names(template: &JsonValue) -> (r: Result<Vec<String>, GenieError>)
    ensures
        match value_at(*template, ctx_bins_keys()) {
            Some(JsonValue::Array(items)) => if exists|i: int|
                0 <= i < items@.len() && !(#[trigger] items@[i] is String) {
                r == Err::<Vec<String>, GenieError>(GenieError::CtxBinsNotStrings)
            } else if items@.len() == 0 {
                r == Err::<Vec<String>, GenieError>(GenieError::MissingCtxBins)
            } else {
                r matches Ok(names) && is_string_array(JsonValue::Array(items), views(names@))
            },
            _ => r == Err::<Vec<String>, GenieError>(GenieError::MissingCtxBins),
        },
{
    let keys = ctx_bins_key_vec();
    match value_at_path(template, &keys) {
        Some(JsonValue::Array(items)) => match array_strings(items) {
            None => Err(GenieError::CtxBinsNotStrings),
            Some(names) => {
                if names.len() == 0 {
                    Err(GenieError::MissingCtxBins)
                } else {
                    Ok(names)
                }
            },
        },
        _ => Err(GenieError::MissingCtxBins),
    }
}

/// The paths, as written into the JSON configuration, of the context
/// binaries in the bundle.
pub open spec fn bundle_bin_texts(bundle_dir: Seq<char>, names: Seq<Seq<char>>) -> Seq<Seq<char>> {
    names.map_values(|n: Seq<char>| escape_backslashes(joined_path(bundle_dir, n)))
}

/// The leaf conditions of the four settings a Genie configuration gets.
pub open spec fn is_false(x: JsonValue) -> bool {
    x == JsonValue::Bool(false)
}

/// `x` is the JSON string `text`.
pub open spec fn is_json_string(x: JsonValue, text: Seq<char>) -> bool {
    x matches JsonValue::String(s) && s@ == text
}

proof fn lemma_genie_paths_diverge()
    ensures
        paths_diverge(use_mmap_keys(), tokenizer_path_keys()),
        paths_diverge(use_mmap_keys(), extensions_keys()),
        paths_diverge(use_mmap_keys(), ctx_bins_keys()),
        paths_diverge(tokenizer_path_keys(), extensions_keys()),
        paths_diverge(tokenizer_path_keys(), ctx_bins_keys()),
        paths_diverge(extensions_keys(), ctx_bins_keys()),
        paths_diverge(tokenizer_path_keys(), use_mmap_keys()),
        paths_diverge(extensions_keys(), use_mmap_keys()),
        paths_diverge(extensions_keys(), tokenizer_path_keys()),
        paths_diverge(ctx_bins_keys(), use_mmap_keys()),
        paths_diverge(ctx_bins_keys(), tokenizer_path_keys()),
        paths_diverge(ctx_bins_keys(), extensions_keys()),
{
    reveal_strlit("engine");
    reveal_strlit("tokenizer");
    reveal_strlit("backend");
    reveal_strlit("model");
    reveal_strlit("QnnHtp");
    reveal_strlit("extensions");
    let m = use_mmap_keys();
    let t = tokenizer_path_keys();
    let e = extensions_keys();
    let c = ctx_bins_keys();
    assert(m.drop_first() =~= seq!["engine"@, "backend"@, "QnnHtp"@, "use-mmap"@]);
    assert(m.drop_first().drop_first() =~= seq!["backend"@, "QnnHtp"@, "use-mmap"@]);
    assert(m.drop_first().drop_first().drop_first() =~= seq!["QnnHtp"@, "use-mmap"@]);
    assert(t.drop_first() =~= seq!["tokenizer"@, "path"@]);
    assert(e.drop_first() =~= seq!["engine"@, "backend"@, "extensions"@]);
    assert(e.drop_first().drop_first() =~= seq!["backend"@, "extensions"@]);
    assert(e.drop_first().drop_first().drop_first() =~= seq!["extensions"@]);
    assert(c.drop_first() =~= seq!["engine"@, "model"@, "binary"@, "ctx-bins"@]);
    assert(c.drop_first().drop_first() =~= seq!["model"@, "binary"@, "ctx-bins"@]);
    assert("engine"@.len() != "tokenizer"@.len());
    assert("backend"@.len() != "model"@.len());
    assert("QnnHtp"@.len() != "extensions"@.len());
    let m1 = m.drop_first();
    let m2 = m1.drop_first();
    let m3 = m2.drop_first();
    let t1 = t.drop_first();
    let e1 = e.drop_first();
    let e2 = e1.drop_first();
    let e3 = e2.drop_first();
    let c1 = c.drop_first();
    let c2 = c1.drop_first();
    assert(paths_diverge(m1, t1) && paths_diverge(t1, m1));
    assert(paths_diverge(m3, e3) && paths_diverge(e3, m3));
    assert(paths_diverge(m2, e2) && paths_diverge(e2, m2));
    assert(paths_diverge(m1, e1) && paths_diverge(e1, m1));
    assert(paths_diverge(m2, c2) && paths_diverge(c2, m2));
    assert(paths_diverge(m1, c1) && paths_diverge(c1, m1));
    assert(paths_diverge(t1, e1) && paths_diverge(e1, t1));
    assert(paths_diverge(t1, c1) && paths_diverge(c1, t1));
    assert(paths_diverge(e2, c2) && paths_diverge(c2, e2));
    assert(paths_diverge(e1, c1) && paths_diverge(c1, e1));
}

/// The four replacements that make a Genie configuration from its template,
/// through the intermediate documents `v1`, `v2` and `v3`.
pub open spec fn genie_config_steps(
    template: JsonValue,
    v1: JsonValue,
    v2: JsonValue,
    v3: JsonValue,
    v: JsonValue,
    config: GenieBackendConfig,
    names: Seq<Seq<char>>,
) -> bool {
    &&& replaced_at(template, v1, use_mmap_keys(), |x: JsonValue| is_false(x))
    &&& replaced_at(
        v1,
        v2,
        tokenizer_path_keys(),
        |x: JsonValue| is_json_string(x, escape_backslashes(config.tokenizer_path@)),
    )
    &&& replaced_at(
        v2,
        v3,
        extensions_keys(),
        |x: JsonValue| is_json_string(x, escape_backslashes(config.htp_config@)),
    )
    &&& replaced_at(
        v3,
        v,
        ctx_bins_keys(),
        |x: JsonValue| is_string_array(x, bundle_bin_texts(config.bundle_dir@, names)),
    )
}

/// The Genie configuration made from its template: memory mapping off, the
/// tokenizer and HTP extension files set, and the context binaries listed
/// by their bundle paths, with everything else as in the template.
pub fn render_genie_config(template: JsonValue, config: &GenieBackendConfig, ctx_bin_names: &Vec<String>) -> (r:
    Result<JsonValue, GenieError>)
    ensures
        value_at(template, use_mmap_keys()) is None ==> (r matches Err(
            GenieError::MissingTemplateField { field },
        ) && field@ == "QnnHtp.use-mmap"@),
        value_at(template, use_mmap_keys()) is Some && value_at(template, tokenizer_path_keys()) is None
            ==> (r matches Err(GenieError::MissingTemplateField { field }) && field@
            == "tokenizer.path"@),
        value_at(template, use_mmap_keys()) is Some && value_at(template, tokenizer_path_keys()) is Some
            && value_at(template, extensions_keys()) is None ==> (r matches Err(
            GenieError::MissingTemplateField { field },
        ) && field@ == "backend.extensions"@),
        value_at(template, use_mmap_keys()) is Some && value_at(template, tokenizer_path_keys()) is Some
            && value_at(template, extensions_keys()) is Some && !(value_at(template, ctx_bins_keys())
            matches Some(JsonValue::Array(_))) ==> r == Err::<JsonValue, GenieError>(
            GenieError::MissingCtxBins,
        ),
        value_at(template, use_mmap_keys()) is Some && value_at(template, tokenizer_path_keys()) is Some
            && value_at(template, extensions_keys()) is Some && (value_at(template, ctx_bins_keys())
            matches Some(JsonValue::Array(_))) ==> r is Ok,
        r matches Ok(v) ==> {
            &&& value_at(v, use_mmap_keys()) == Some(JsonValue::Bool(false))
            &&& value_at(v, tokenizer_path_keys()) matches Some(x) && is_json_string(
                x,
                escape_backslashes(config.tokenizer_path@),
            )
            &&& value_at(v, extensions_keys()) matches Some(x) && is_json_string(
                x,
                escape_backslashes(config.htp_config@),
            )
            &&& value_at(v, ctx_bins_keys()) matches Some(x) && is_string_array(
                x,
                bundle_bin_texts(config.bundle_dir@, views(ctx_bin_names@)),
            )
            &&& exists|v1: JsonValue, v2: JsonValue, v3: JsonValue|
                #[trigger] genie_config_steps(template, v1, v2, v3, v, *config, views(ctx_bin_names@))
        },
{
    proof {
        lemma_genie_paths_diverge();
    }
    let ghost t0 = template;
    let mmap_keys = use_mmap_key_vec();
    let v1 = match replace_at_path(template, &mmap_keys, 0, JsonValue::Bool(false)) {
        Some(v) => v,
        None => {
            assert(views(mmap_keys@).skip(0) == views(mmap_keys@));
            return Err(GenieError::MissingTemplateField { field: "QnnHtp.use-mmap" });
        },
    };
    assert(views(mmap_keys@).skip(0) == views(mmap_keys@));
    let ghost leaf1 = |x: JsonValue| is_false(x);
    assert(replaced_at(t0, v1, use_mmap_keys(), leaf1)) by {
        assert(replaced_at(t0, v1, use_mmap_keys(), |x: JsonValue| x == JsonValue::Bool(false)));
        assert(leaf1 =~= (|x: JsonValue| x == JsonValue::Bool(false)));
    }
    proof {
        lemma_replaced_other(t0, v1, use_mmap_keys(), leaf1, tokenizer_path_keys());
        lemma_replaced_other(t0, v1, use_mmap_keys(), leaf1, extensions_keys());
        lemma_replaced_other(t0, v1, use_mmap_keys(), leaf1, ctx_bins_keys());
    }
    let tok_keys = tokenizer_path_key_vec();
    let tok_text = path_for_json(config.tokenizer_path.as_str());
    let ghost tok_value = JsonValue::String(tok_text);
    let v2 = match replace_at_path(v1, &tok_keys, 0, JsonValue::String(tok_text)) {
        Some(v) => v,
        None => {
            assert(views(tok_keys@).skip(0) == views(tok_keys@));
            return Err(GenieError::MissingTemplateField { field: "tokenizer.path" });
        },
    };
    assert(views(tok_keys@).skip(0) == views(tok_keys@));
    let ghost leaf2 = |x: JsonValue| is_json_string(x, escape_backslashes(config.tokenizer_path@));
    proof {
        assert(replaced_at(v1, v2, tokenizer_path_keys(), |x: JsonValue| x == tok_value));
        assert((|x: JsonValue| x == tok_value) =~= (|x: JsonValue| x == tok_value));
        lemma_replaced_implies(v1, v2, tokenizer_path_keys(), |x: JsonValue| x == tok_value, leaf2);
        lemma_replaced_other(v1, v2, tokenizer_path_keys(), leaf2, use_mmap_keys());
        lemma_replaced_other(v1, v2, tokenizer_path_keys(), leaf2, extensions_keys());
        lemma_replaced_other(v1, v2, tokenizer_path_keys(), leaf2, ctx_bins_keys());
        lemma_replaced_value(t0, v1, use_mmap_keys(), leaf1);
    }
    let ext_keys = extensions_key_vec();
    let ext_text = path_for_json(config.htp_config.as_str());
    let ghost ext_value = JsonValue::String(ext_text);
    let v3 = match replace_at_path(v2, &ext_keys, 0, JsonValue::String(ext_text)) {
        Some(v) => v,
        None => {
            assert(views(ext_keys@).skip(0) == views(ext_keys@));
            return Err(GenieError::MissingTemplateField { field: "backend.extensions" });
        },
    };
    assert(views(ext_keys@).skip(0) == views(ext_keys@));
    let ghost leaf3 = |x: JsonValue| is_json_string(x, escape_backslashes(config.htp_config@));
    proof {
        lemma_replaced_implies(v2, v3, extensions_keys(), |x: JsonValue| x == ext_value, leaf3);
        lemma_replaced_other(v2, v3, extensions_keys(), leaf3, use_mmap_keys());
        lemma_replaced_other(v2, v3, extensions_keys(), leaf3, tokenizer_path_keys());
        lemma_replaced_other(v2, v3, extensions_keys(), leaf3, ctx_bins_keys());
        lemma_replaced_value(v1, v2, tokenizer_path_keys(), leaf2);
    }
    let bin_keys = ctx_bins_key_vec();
    let is_array = match value_at_path(&v3, &bin_keys) {
        Some(JsonValue::Array(_)) => true,
        _ => false,
    };
    if !is_array {
        return Err(GenieError::MissingCtxBins);
    }
    let mut texts: Vec<String> = Vec::new();
    let mut i: usize = 0;
    while i < ctx_bin_names.len()
        invariant
            i <= ctx_bin_names@.len(),
            texts@.len() == i,
            forall|k: int|
                0 <= k < i ==> (#[trigger] texts@[k])@ == escape_backslashes(
                    joined_path(config.bundle_dir@, ctx_bin_names@[k]@),
                ),
        decreases ctx_bin_names.len() - i,
    {
        let joined = path_join(config.bundle_dir.as_str(), ctx_bin_names[i].as_str());
        texts.push(path_for_json(joined.as_str()));
        i += 1;
    }
    assert(views(texts@) =~= bundle_bin_texts(config.bundle_dir@, views(ctx_bin_names@)));
    let bins = string_array(&texts);
    let ghost bins_value = bins;
    let ghost leaf4 = |x: JsonValue| is_string_array(x, bundle_bin_texts(config.bundle_dir@, views(ctx_bin_names@)));
    let v4 = match replace_at_path(v3, &bin_keys, 0, bins) {
        Some(v) => v,
        None => {
            assert(views(bin_keys@).skip(0) == views(bin_keys@));
            return Err(GenieError::MissingCtxBins);
        },
    };
    assert(views(bin_keys@).skip(0) == views(bin_keys@));
    proof {
        lemma_replaced_implies(v3, v4, ctx_bins_keys(), |x: JsonValue| x == bins_value, leaf4);
        lemma_replaced_other(v3, v4, ctx_bins_keys(), leaf4, use_mmap_keys());
        lemma_replaced_other(v3, v4, ctx_bins_keys(), leaf4, tokenizer_path_keys());
        lemma_replaced_other(v3, v4, ctx_bins_keys(), leaf4, extensions_keys());
        lemma_replaced_value(v2, v3, extensions_keys(), leaf3);
        lemma_replaced_value(v3, v4, ctx_bins_keys(), leaf4);
        assert(genie_config_steps(t0, v1, v2, v3, v4, *config, views(ctx_bin_names@)));
    }
    Ok(v4)
}


/// The Hexagon libraries come from `lib/hexagon-<dsp>/unsigned` under the
/// SDK root, for the configured DSP architecture; the binaries from
/// `bin/aarch64-windows-msvc` and the other libraries from
/// `lib/aarch64-windows-msvc`.
pub proof fn lemma_runtime_source_dirs(sdk: Seq<char>, dsp: Seq<char>)
    ensures
        forall|i: int|
            12 <= i < 15 ==> #[trigger] runtime_source_dir(sdk, dsp, i) == joined_path(
                joined_path(joined_path(sdk, "lib"@), "hexagon-"@ + dsp),
                "unsigned"@,
            ),
        forall|i: int|
            0 <= i < 2 ==> #[trigger] runtime_source_dir(sdk, dsp, i) == joined_path(
                joined_path(sdk, "bin"@),
                "aarch64-windows-msvc"@,
            ),
        forall|i: int|
            2 <= i < 12 ==> #[trigger] runtime_source_dir(sdk, dsp, i) == joined_path(
                joined_path(sdk, "lib"@),
                "aarch64-windows-msvc"@,
            ),
{
}

/// Without a configured executable, Genie runs from the bundle directory
/// (where preparing the bundle copies `genie-t2t-run.exe`); a configured
/// one is used as it is.
pub proof fn lemma_genie_executable(config: GenieBackendConfig)
    ensures
        config.genie_executable is None ==> genie_executable_of(config) == joined_path(
            config.bundle_dir@,
            "genie-t2t-run.exe"@,
        ),
        config.genie_executable matches Some(p) ==> genie_executable_of(config) == p@,
{
}

} // verus!
