use vstd::prelude::*;

use crate::chat::FakeBackend;
use crate::config::{
    lookup, requested_name, AppConfig, BackendConfig, CoreError, FakeBackendConfig,
    LlamaCppBackendConfig,
};
use crate::genie::{GenieBackend, GenieError};
use crate::llamacpp::{LlamaCppBackend, LlamaCppError};

verus! {

/// A ready backend of one of the supported kinds.
#[derive(Debug)]
pub enum Backend {
    Fake(FakeBackend),
    Genie(GenieBackend),
    LlamaCpp(LlamaCppBackend),
}

impl Backend {
    /// The name of the backend as configured.
    pub open spec fn name_view(&self) -> Seq<char> {
        match self {
            Backend::Fake(b) => b.name_view(),
            Backend::Genie(b) => b.name_view(),
            Backend::LlamaCpp(b) => b.name_view(),
        }
    }

    /// The backend's name.
    pub fn name(&self) -> (r: &str)
        ensures
            r@ == self.name_view(),
    {
        match self {
            Backend::Fake(b) => b.name(),
            Backend::Genie(b) => b.name(),
            Backend::LlamaCpp(b) => b.name(),
        }
    }
}

/// Why a backend could not be set up.
#[derive(Debug, PartialEq, Eq)]
pub enum BackendInitError {
    Config(CoreError),
    Genie(GenieError),
    LlamaCpp(LlamaCppError),
}

/// The fake backend a configuration describes.
pub fn create_fake_backend(name: &str, config: &FakeBackendConfig) -> (r: FakeBackend)
    ensures
        r.name_view() == name@,
        r.prefix_view() == match config.response_prefix {
            Some(p) => p@,
            None => "EliteLM fake response: "@,
        },
{
    match &config.response_prefix {
        Some(p) => FakeBackend::new(name, Some(p.as_str())),
        None => FakeBackend::new(name, None),
    }
}

/// `b` is the backend that `config` describes: of the same kind, with the
/// configured prefix or settings.
pub open spec fn built_from(config: BackendConfig, b: Backend) -> bool {
    match (config, b) {
        (BackendConfig::Fake(c), Backend::Fake(f)) => f.prefix_view() == match c.response_prefix {
            Some(p) => p@,
            None => "EliteLM fake response: "@,
        },
        (BackendConfig::Genie(c), Backend::Genie(g)) => g.config_view() == *c,
        (BackendConfig::LlamaCpp(c), Backend::LlamaCpp(l)) => l.config_view() == *c,
        _ => false,
    }
}

/// The backend a configuration describes, set up under `name`.
pub fn build_backend_from_config(name: &str, config: &BackendConfig) -> (r: Result<
    Backend,
    BackendInitError,
>)
    ensures
        r matches Ok(b) ==> b.name_view() == name@ && built_from(*config, b),
        r matches Err(e) ==> match (config, e) {
            (BackendConfig::Genie(_), BackendInitError::Genie(_)) => true,
            (BackendConfig::LlamaCpp(c), BackendInitError::LlamaCpp(le)) => le
                == (LlamaCppError::MissingModel { path: c.model }),
            _ => false,
        },
{
    match config {
        BackendConfig::Fake(c) => Ok(Backend::Fake(create_fake_backend(name, c))),
        BackendConfig::Genie(c) => match GenieBackend::new(name, (**c).clone()) {
            Ok(b) => Ok(Backend::Genie(b)),
            Err(e) => Err(BackendInitError::Genie(e)),
        },
        BackendConfig::LlamaCpp(c) => match LlamaCppBackend::new(name, (**c).clone()) {
            Ok(b) => Ok(Backend::LlamaCpp(b)),
            Err(e) => Err(BackendInitError::LlamaCpp(e)),
        },
    }
}

/// Which backend serves a request.
#[derive(Debug)]
pub enum BackendChoice<'a> {
    /// A backend of the configuration, by its name.
    Configured { name: &'a str, config: &'a BackendConfig },
    /// A model downloaded from the registry, run with llama.cpp's defaults.
    Registry { name: String, config: LlamaCppBackendConfig },
}

/// The llama.cpp settings for a downloaded model file: no overrides, memory mapped.
pub open spec fn registry_config(model: Seq<char>, c: LlamaCppBackendConfig) -> bool {
    &&& c.model@ == model
    &&& c.n_threads is None
    &&& c.n_ctx is None
    &&& c.n_batch is None
    &&& c.use_mmap
}

/// Picks the backend for a request: a configured backend of the requested
/// name; else the downloaded model of that name when `registry_model` gives
/// its file; else the requested (or default) configured backend.
pub fn select_backend<'a>(
    config: &'a AppConfig,
    requested: Option<&'a str>,
    registry_model: Option<String>,
) -> (r: Result<BackendChoice<'a>, CoreError>)
    ensures
        ({
            let want = requested_name(*config, requested);
            match lookup(config.backends@, want) {
                Some(b) => r matches Ok(BackendChoice::Configured { name, config: c }) && name@
                    == want && *c == b,
                None => match (requested, registry_model) {
                    (Some(n), Some(path)) => r matches Ok(BackendChoice::Registry { name, config: c })
                        && name@ == n@ && registry_config(path@, c),
                    _ => r matches Err(CoreError::UnknownBackendName { name }) && name@ == want,
                },
            }
        }),
{
    if let Some(name) = requested {
        if let Some(found) = config.backends.get(name) {
            return Ok(BackendChoice::Configured { name, config: found });
        }
        if let Some(path) = registry_model {
            return Ok(
                BackendChoice::Registry {
                    name: name.to_owned(),
                    config: LlamaCppBackendConfig {
                        model: path,
                        n_threads: None,
                        n_ctx: None,
                        n_batch: None,
                        use_mmap: true,
                    },
                },
            );
        }
    }
    let (name, found) = config.backend(requested)?;
    Ok(BackendChoice::Configured { name, config: found })
}

/// Sets up the backend that serves a request (see `select_backend`).
pub fn create_backend(
    config: &AppConfig,
    requested: Option<&str>,
    registry_model: Option<String>,
) -> (r: Result<Backend, BackendInitError>)
    ensures
        ({
            let want = requested_name(*config, requested);
            &&& (lookup(config.backends@, want) is None && !(requested is Some
                && registry_model is Some)) ==> (r matches Err(
                BackendInitError::Config(CoreError::UnknownBackendName { name }),
            ) && name@ == want)
            &&& (r matches Err(BackendInitError::Config(_))) ==> (lookup(config.backends@, want)
                is None && !(requested is Some && registry_model is Some))
            &&& (lookup(config.backends@, want) matches Some(BackendConfig::Fake(_))) ==> r is Ok
            &&& (r matches Ok(b) ==> match lookup(config.backends@, want) {
                Some(c) => b.name_view() == want && built_from(c, b),
                None => b.name_view() == requested->0@ && (b matches Backend::LlamaCpp(l)
                    && registry_config(registry_model->0@, l.config_view())),
            })
        }),
{
    match select_backend(config, requested, registry_model) {
        Ok(BackendChoice::Configured { name, config: c }) => build_backend_from_config(name, c),
        Ok(BackendChoice::Registry { name, config: c }) => match LlamaCppBackend::new(
            name.as_str(),
            c,
        ) {
            Ok(b) => Ok(Backend::LlamaCpp(b)),
            Err(e) => Err(BackendInitError::LlamaCpp(e)),
        },
        Err(e) => Err(BackendInitError::Config(e)),
    }
}

} // verus!
