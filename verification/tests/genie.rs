use std::io::Write;
use std::path::Path;

use elitelm::chat::{ChatMessage, GenerateRequest};
use elitelm::config::GenieBackendConfig;
use elitelm::genie::{
    first_failed_check,
    context_bin_names, render_genie_config, render_htp_config, required_runtime_files,
    validate_context_bins, validate_prepare_inputs, GenieBackend, GenieError, PreparedGenieBundle,
    ProcessOutcome,
};
use elitelm::json::{value_at_path, JsonValue};
use elitelm::paths::path_for_json;

struct Fixture {
    _temp: tempfile::TempDir,
    config: GenieBackendConfig,
}

fn s(p: &Path) -> String {
    p.to_string_lossy().into_owned()
}


/// Creates each missing directory on the way from `root` down through `parts`.
fn make_dirs(root: &Path, parts: &[&str]) -> std::path::PathBuf {
    let mut current = root.to_path_buf();
    for part in parts {
        let next = current.join(part);
        if !next.exists() {
            tempfile::Builder::new()
                .prefix(*part)
                .rand_bytes(0)
                .keep(true)
                .tempdir_in(&current)
                .unwrap();
        }
        current = next;
    }
    current
}

/// Writes `contents` to `path`, replacing what stood there.
fn write_file(path: &Path, contents: &str) {
    let mut file = tempfile::NamedTempFile::new_in(path.parent().unwrap()).unwrap();
    file.write_all(contents.as_bytes()).unwrap();
    file.persist(path).unwrap();
}

/// Removes the file at `path`.
fn remove_file(path: &Path) {
    drop(tempfile::TempPath::from_path(path));
    assert!(!path.exists());
}

impl Fixture {
    fn new() -> Self {
        let temp = tempfile::TempDir::new().unwrap();
        let root = temp.path();
        let bundle = root.join("bundle");
        let sdk = root.join("qairt");
        let configs = root.join("configs");
        make_dirs(root, &["bundle"]);
        make_dirs(root, &["configs"]);
        make_dirs(root, &["qairt"]);
        create_sdk_fixture(&sdk, "v73");
        write_file(&bundle.join("tokenizer.json"), "{}");
        write_file(&bundle.join("part_1.bin"), "ctx1");
        write_file(&bundle.join("part_2.bin"), "ctx2");
        write_file(&configs.join("htp_backend_ext_config.json.template"), HTP_TEMPLATE);
        write_file(&configs.join("genie.json"), "{}");
        let config = GenieBackendConfig {
            bundle_dir: s(&bundle),
            genie_config: s(&bundle.join("genie_config.json")),
            htp_config: s(&bundle.join("htp_backend_ext_config.json")),
            qnn_sdk_root: s(&sdk),
            tokenizer_path: s(&bundle.join("tokenizer.json")),
            genie_config_template: s(&configs.join("genie.json")),
            htp_config_template: s(&configs.join("htp_backend_ext_config.json.template")),
            soc_model: 60,
            dsp_arch: "v73".to_string(),
            genie_executable: None,
        };
        Fixture { _temp: temp, config }
    }
}

fn create_sdk_fixture(root: &Path, dsp_arch: &str) {
    let hexagon = format!("hexagon-{dsp_arch}");
    let arch_dir = make_dirs(root, &["bin", "aarch64-windows-msvc"]);
    let lib_dir = make_dirs(root, &["lib", "aarch64-windows-msvc"]);
    let hexagon_dir = make_dirs(root, &["lib", hexagon.as_str(), "unsigned"]);
    for file in [
        arch_dir.join("genie-t2t-run.exe"),
        arch_dir.join("qnn-platform-validator.exe"),
        lib_dir.join("Genie.dll"),
        lib_dir.join("PlatformValidatorShared.dll"),
        lib_dir.join("QnnGenAiTransformer.dll"),
        lib_dir.join("QnnGenAiTransformerModel.dll"),
        lib_dir.join("QnnHtp.dll"),
        lib_dir.join("QnnHtpNetRunExtensions.dll"),
        lib_dir.join("QnnHtpPrepare.dll"),
        lib_dir.join(format!("QnnHtp{dsp_arch}Stub.dll")),
        lib_dir.join(format!("QnnHtp{dsp_arch}CalculatorStub.dll")),
        lib_dir.join("QnnSystem.dll"),
        hexagon_dir.join("libCalculator_skel.so"),
        hexagon_dir.join(format!("libQnnHtp{dsp_arch}.cat")),
        hexagon_dir.join(format!("libQnnHtp{dsp_arch}Skel.so")),
    ] {
        write_file(&file, "runtime");
    }
}

const HTP_TEMPLATE: &str = r#"{
  "devices": [
    {
      "soc_model": <TODO>,
      "dsp_arch": "<TODO>"
    }
  ]
}"#;

fn obj(entries: Vec<(&str, JsonValue)>) -> JsonValue {
    JsonValue::Object(entries.into_iter().map(|(k, v)| (k.to_string(), v)).collect())
}

fn text(s: &str) -> JsonValue {
    JsonValue::String(s.to_string())
}

/// The genie template of the original fixture, built by calls.
fn genie_template(bins: Vec<JsonValue>) -> JsonValue {
    obj(vec![(
        "dialog",
        obj(vec![
            ("tokenizer", obj(vec![("path", text("tokenizer.json"))])),
            (
                "engine",
                obj(vec![
                    (
                        "backend",
                        obj(vec![
                            ("QnnHtp", obj(vec![("use-mmap", JsonValue::Bool(true))])),
                            ("extensions", text("htp_backend_ext_config.json")),
                        ]),
                    ),
                    ("model", obj(vec![("binary", obj(vec![("ctx-bins", JsonValue::Array(bins))]))])),
                ]),
            ),
        ]),
    )])
}

fn keys(parts: &[&str]) -> Vec<String> {
    parts.iter().map(|p| p.to_string()).collect()
}

#[test]
fn required_runtime_files_match_powershell_reference_count() {
    let fixture = Fixture::new();
    let files = required_runtime_files(&fixture.config);

    assert_eq!(files.len(), 15);
    assert!(files
        .iter()
        .any(|(source, _)| Path::new(source).ends_with("bin/aarch64-windows-msvc/genie-t2t-run.exe")));
    assert!(files
        .iter()
        .any(|(source, _)| Path::new(source).ends_with("lib/hexagon-v73/unsigned/libQnnHtpv73Skel.so")));
    for (source, destination) in &files {
        assert!(Path::new(source).exists(), "{source}");
        assert_eq!(
            Path::new(destination).file_name(),
            Path::new(source).file_name()
        );
        assert!(Path::new(destination).starts_with(&fixture.config.bundle_dir));
    }
}

#[test]
fn prepare_inputs_are_validated() {
    let fixture = Fixture::new();
    assert!(validate_prepare_inputs(&fixture.config).is_ok());
    let mut broken = fixture.config.clone();
    broken.tokenizer_path.push_str(".missing");
    let error = validate_prepare_inputs(&broken).unwrap_err();
    assert!(error.message().starts_with("Tokenizer does not exist: "));
    remove_file(&Path::new(&fixture.config.qnn_sdk_root).join("lib").join("aarch64-windows-msvc").join("QnnSystem.dll"));
    let error = validate_prepare_inputs(&fixture.config).unwrap_err();
    assert!(error.message().starts_with("QNN/Genie runtime file does not exist: "));
}

#[test]
fn prepare_rejects_missing_context_binary() {
    let fixture = Fixture::new();
    remove_file(&Path::new(&fixture.config.bundle_dir).join("part_2.bin"));

    let names = vec!["part_1.bin".to_string(), "part_2.bin".to_string()];
    let error = validate_context_bins(&fixture.config.bundle_dir, &names).unwrap_err();

    assert!(error.message().contains("Genie context binary does not exist"));
}

#[test]
fn context_bins_are_bundle_paths() {
    let fixture = Fixture::new();
    let names = vec!["part_1.bin".to_string(), "part_2.bin".to_string()];
    let paths = validate_context_bins(&fixture.config.bundle_dir, &names).unwrap();
    assert_eq!(paths.len(), 2);
    assert!(paths[0].ends_with("part_1.bin"));
}

#[test]
fn renders_htp_config() {
    let htp = render_htp_config(HTP_TEMPLATE, 60, "v73");
    assert!(htp.contains("\"soc_model\": 60"));
    assert!(htp.contains("\"dsp_arch\": \"v73\""));
    assert_eq!(
        htp,
        HTP_TEMPLATE
            .replace("\"soc_model\": <TODO>", "\"soc_model\": 60")
            .replace("\"dsp_arch\": \"<TODO>\"", "\"dsp_arch\": \"v73\"")
    );
}

#[test]
fn reads_and_renders_genie_config() {
    let fixture = Fixture::new();
    let template = genie_template(vec![text("part_1.bin"), text("part_2.bin")]);
    let names = context_bin_names(&template).unwrap();
    assert_eq!(names, vec!["part_1.bin".to_string(), "part_2.bin".to_string()]);

    let genie = render_genie_config(template, &fixture.config, &names).unwrap();
    assert_eq!(
        value_at_path(&genie, &keys(&["dialog", "engine", "backend", "QnnHtp", "use-mmap"])),
        Some(&JsonValue::Bool(false))
    );
    assert_eq!(
        value_at_path(&genie, &keys(&["dialog", "tokenizer", "path"])),
        Some(&JsonValue::String(path_for_json(&fixture.config.tokenizer_path)))
    );
    let Some(JsonValue::Array(bins)) =
        value_at_path(&genie, &keys(&["dialog", "engine", "model", "binary", "ctx-bins"]))
    else {
        panic!("ctx-bins must be an array");
    };
    let JsonValue::String(first) = &bins[0] else {
        panic!("ctx-bins must hold strings");
    };
    assert!(first.ends_with("part_1.bin"));
}

#[test]
fn template_errors() {
    let fixture = Fixture::new();
    assert_eq!(context_bin_names(&genie_template(vec![])).unwrap_err(), GenieError::MissingCtxBins);
    assert_eq!(
        context_bin_names(&genie_template(vec![JsonValue::Number("1".to_string())])).unwrap_err(),
        GenieError::CtxBinsNotStrings
    );
    assert_eq!(context_bin_names(&JsonValue::Null).unwrap_err(), GenieError::MissingCtxBins);
    let error = render_genie_config(obj(vec![]), &fixture.config, &vec![]).unwrap_err();
    assert_eq!(error.message(), "Genie config template is missing QnnHtp.use-mmap");
}

fn request(text: &str) -> GenerateRequest {
    GenerateRequest {
        messages: vec![ChatMessage::new("user", text)],
        max_tokens: None,
        temperature: None,
        top_p: None,
    }
}

#[test]
fn process_backend_streams_stdout() {
    let fixture = Fixture::new();
    write_file(Path::new(&fixture.config.genie_config), "{}");
    let fake = Path::new(&fixture.config.bundle_dir).join("fake-genie-ok.sh");
    write_file(&fake, "#!/bin/sh\necho fake genie output \"$@\"\n");
    let mut config = fixture.config.clone();
    config.genie_executable = Some(s(&fake));
    let backend = GenieBackend::new("genie_npu", config).unwrap();

    let prompt = GenieBackend::prompt_from(&request("hello genie")).unwrap();
    let invocation = backend.invocation(&prompt);
    assert_eq!(invocation.program, s(&fake));
    assert_eq!(invocation.args, vec!["-c", fixture.config.genie_config.as_str(), "-p", "hello genie"]);
    let stdout = format!("fake genie output {}\n", invocation.args.join(" "));
    let generation = GenieBackend::finish(
        &prompt,
        ProcessOutcome {
            success: true,
            status: "exit status: 0".to_string(),
            stdout: stdout.into_bytes(),
            stderr: vec![],
        },
    )
    .unwrap();
    let text: String = generation.pieces.concat();

    assert!(text.contains("fake genie output"));
    assert_eq!(generation.stats.prompt_tokens, 2);
    assert!(generation.stats.completion_tokens > 0);
}

#[test]
fn process_backend_reports_nonzero_exit() {
    let error = GenieBackend::finish(
        "hello genie",
        ProcessOutcome {
            success: false,
            status: "exit status: 7".to_string(),
            stdout: vec![],
            stderr: b"fake genie failure\n".to_vec(),
        },
    )
    .unwrap_err();

    assert!(error.message().contains("Genie exited with status"));
    assert!(error.message().contains("fake genie failure"));
    assert_eq!(
        error,
        GenieError::ProcessFailed { status: "exit status: 7".to_string(), stderr: "fake genie failure".to_string() }
    );
}

#[test]
fn backend_requires_config_bundle_and_executable() {
    let fixture = Fixture::new();
    let error = GenieBackend::new("genie_npu", fixture.config.clone()).unwrap_err();
    assert!(error.message().starts_with("Genie config does not exist: "));
    write_file(Path::new(&fixture.config.genie_config), "{}");
    let error = GenieBackend::new("genie_npu", fixture.config.clone()).unwrap_err();
    assert!(error.message().starts_with("Genie executable does not exist: "));
    assert!(error.message().ends_with("genie-t2t-run.exe"));
    let mut not_dir = fixture.config.clone();
    not_dir.bundle_dir = not_dir.tokenizer_path.clone();
    let error = GenieBackend::new("genie_npu", not_dir).unwrap_err();
    assert!(error.message().starts_with("Genie bundle directory is not a directory: "));
}

#[test]
fn prompt_requires_messages() {
    let empty = GenerateRequest { messages: vec![], max_tokens: None, temperature: None, top_p: None };
    assert_eq!(GenieBackend::prompt_from(&empty).unwrap_err().message(), "messages cannot be empty");
}

#[test]
fn prepare_generates_configs_and_copies_runtime_files() {
    let fixture = Fixture::new();
    let config = &fixture.config;
    validate_prepare_inputs(config).unwrap();

    let template = genie_template(vec![text("part_1.bin"), text("part_2.bin")]);
    let names = context_bin_names(&template).unwrap();
    let context_bins = validate_context_bins(&config.bundle_dir, &names).unwrap();

    let htp = render_htp_config(HTP_TEMPLATE, config.soc_model, &config.dsp_arch);
    assert!(htp.contains("\"soc_model\": 60"));
    assert!(htp.contains("\"dsp_arch\": \"v73\""));

    let genie = render_genie_config(template, config, &names).unwrap();
    assert_eq!(
        value_at_path(&genie, &keys(&["dialog", "engine", "backend", "QnnHtp", "use-mmap"])),
        Some(&JsonValue::Bool(false))
    );
    let Some(JsonValue::String(tokenizer)) = value_at_path(&genie, &keys(&["dialog", "tokenizer", "path"])) else {
        panic!("tokenizer.path must be a string");
    };
    assert!(tokenizer.ends_with("tokenizer.json"));
    let Some(JsonValue::Array(bins)) =
        value_at_path(&genie, &keys(&["dialog", "engine", "model", "binary", "ctx-bins"]))
    else {
        panic!("ctx-bins must be an array");
    };
    assert!(matches!(&bins[0], JsonValue::String(first) if first.ends_with("part_1.bin")));

    let files = required_runtime_files(config);
    assert_eq!(files.len(), 15);
    let copied: Vec<String> = files.into_iter().map(|(_, destination)| destination).collect();
    assert!(copied.iter().any(|d| Path::new(d).ends_with("Genie.dll")));
    let prepared = PreparedGenieBundle::new(config, copied, context_bins);
    assert_eq!(prepared.copied_files.len(), 15);
    assert_eq!(prepared.context_bins.len(), 2);
    assert_eq!(prepared.genie_config, config.genie_config);
    assert_eq!(prepared.htp_config, config.htp_config);
}

#[test]
fn process_output_is_decoded_lossily() {
    let generation = GenieBackend::finish(
        "one two",
        ProcessOutcome {
            success: true,
            status: "exit status: 0".to_string(),
            stdout: vec![b'o', b'k', 0xff, b' ', b'x'],
            stderr: vec![],
        },
    )
    .unwrap();
    assert_eq!(generation.pieces, vec!["ok\u{FFFD} x".to_string()]);
    assert_eq!(
        (generation.stats.prompt_tokens, generation.stats.completion_tokens, generation.stats.total_tokens),
        (2, 2, 4)
    );
}

#[test]
fn first_failed_check_reports_the_earliest_failure() {
    let missing = |label: &'static str| GenieError::MissingPath { label, path: "p".to_string() };
    assert_eq!(first_failed_check(vec![Ok(()), Ok(())]), Ok(()));
    assert_eq!(first_failed_check(vec![]), Ok(()));
    assert_eq!(
        first_failed_check(vec![Ok(()), Err(missing("Second")), Err(missing("Third"))]),
        Err(missing("Second"))
    );
}

#[test]
fn setup_checks_run_in_order() {
    let fixture = Fixture::new();
    let mut config = fixture.config.clone();
    config.bundle_dir.push_str("/missing");
    let error = GenieBackend::new("genie_npu", config.clone()).unwrap_err();
    assert!(error.message().starts_with("Genie config does not exist: "));
    let mut broken = fixture.config.clone();
    broken.qnn_sdk_root.push_str("/missing");
    broken.tokenizer_path.push_str(".missing");
    let error = validate_prepare_inputs(&broken).unwrap_err();
    assert!(error.message().starts_with("QNN SDK root does not exist: "));
}

#[test]
fn runtime_destinations_are_distinct() {
    let fixture = Fixture::new();
    let files = required_runtime_files(&fixture.config);
    for (i, (source, destination)) in files.iter().enumerate() {
        assert!(source.starts_with(&fixture.config.qnn_sdk_root));
        assert!(destination.starts_with(&fixture.config.bundle_dir));
        for (other, _) in files.iter().enumerate().filter(|(j, _)| *j != i) {
            assert_ne!(files[other].1, *destination);
        }
    }
}

#[test]
fn genie_counts_fit_check() {
    assert!(GenieBackend::can_count("one two", &b"three".to_vec()));
}

#[test]
fn runtime_layout_with_a_trailing_backslash() {
    let fixture = Fixture::new();
    let mut config = fixture.config.clone();
    config.bundle_dir = "bundle\\".to_string();
    config.dsp_arch = "v:73".to_string();
    let files = required_runtime_files(&config);
    assert_eq!(files.len(), 15);
    for (i, (_, destination)) in files.iter().enumerate() {
        assert!(destination.starts_with("bundle\\"));
        for (j, (_, other)) in files.iter().enumerate() {
            if i != j {
                assert_ne!(destination, other);
            }
        }
    }
}
