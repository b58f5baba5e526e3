use vstd::prelude::*;

use crate::order::{
    lemma_lex_irreflexive, lemma_lex_total, lemma_lex_transitive, lex_lt,
    str_eq, str_lt,
};
use crate::paths::{
    config_base_dir, has_drive_prefix, is_absolute_path, parent_path, resolve_path, resolved_path,
};
use crate::text::{all_white_space, is_blank};

verus! {

/// Settings of the deterministic fake backend.
#[derive(Debug, PartialEq, Eq)]
pub struct FakeBackendConfig {
    pub response_prefix: Option<String>,
}

/// Settings of the llama.cpp CPU backend.
#[derive(Debug, PartialEq, Eq)]
pub struct LlamaCppBackendConfig {
    pub model: String,
    pub n_threads: Option<u32>,
    pub n_ctx: Option<u32>,
    pub n_batch: Option<u32>,
    pub use_mmap: bool,
}

/// Settings of the Genie NPU backend.
#[derive(Debug, PartialEq, Eq)]
pub struct GenieBackendConfig {
    pub bundle_dir: String,
    pub genie_config: String,
    pub htp_config: String,
    pub qnn_sdk_root: String,
    pub tokenizer_path: String,
    pub genie_config_template: String,
    pub htp_config_template: String,
    pub soc_model: u32,
    pub dsp_arch: String,
    pub genie_executable: Option<String>,
}

/// One configured backend, tagged by its kind.
#[derive(Debug, PartialEq, Eq)]
pub enum BackendConfig {
    Fake(FakeBackendConfig),
    Genie(Box<GenieBackendConfig>),
    LlamaCpp(Box<LlamaCppBackendConfig>),
}

impl Clone for FakeBackendConfig {
    fn clone(&self) -> (r: Self)
        ensures
            r == *self,
    {
        FakeBackendConfig { response_prefix: self.response_prefix.clone() }
    }
}

impl Clone for LlamaCppBackendConfig {
    fn clone(&self) -> (r: Self)
        ensures
            r == *self,
    {
        LlamaCppBackendConfig {
            model: self.model.clone(),
            n_threads: self.n_threads,
            n_ctx: self.n_ctx,
            n_batch: self.n_batch,
            use_mmap: self.use_mmap,
        }
    }
}

impl Clone for GenieBackendConfig {
    fn clone(&self) -> (r: Self)
        ensures
            r == *self,
    {
        GenieBackendConfig {
            bundle_dir: self.bundle_dir.clone(),
            genie_config: self.genie_config.clone(),
            htp_config: self.htp_config.clone(),
            qnn_sdk_root: self.qnn_sdk_root.clone(),
            tokenizer_path: self.tokenizer_path.clone(),
            genie_config_template: self.genie_config_template.clone(),
            htp_config_template: self.htp_config_template.clone(),
            soc_model: self.soc_model,
            dsp_arch: self.dsp_arch.clone(),
            genie_executable: self.genie_executable.clone(),
        }
    }
}

impl Clone for BackendConfig {
    fn clone(&self) -> (r: Self)
        ensures
            r == *self,
    {
        match self {
            BackendConfig::Fake(c) => BackendConfig::Fake(c.clone()),
            BackendConfig::Genie(c) => BackendConfig::Genie(Box::new((**c).clone())),
            BackendConfig::LlamaCpp(c) => BackendConfig::LlamaCpp(Box::new((**c).clone())),
        }
    }
}

/// The SoC model written into the HTP configuration when none is given.
pub fn default_soc_model() -> (r: u32)
    ensures
        r == 60,
{
    60
}

/// The DSP architecture used when none is given.
pub fn default_dsp_arch() -> (r: String)
    ensures
        r@ == "v73"@,
{
    "v73".to_owned()
}

/// Whether llama.cpp memory-maps the model when the setting is absent.
pub fn default_use_mmap() -> (r: bool)
    ensures
        r,
{
    true
}

impl BackendConfig {
    /// The name of the backend's kind, as written in the configuration.
    pub open spec fn kind_name(&self) -> Seq<char> {
        match self {
            BackendConfig::Fake(_) => "fake"@,
            BackendConfig::Genie(_) => "genie"@,
            BackendConfig::LlamaCpp(_) => "llamacpp"@,
        }
    }

    /// The name of the backend's kind.
    pub fn kind(&self) -> (r: &'static str)
        ensures
            r@ == self.kind_name(),
    {
        match self {
            BackendConfig::Fake(_) => "fake",
            BackendConfig::Genie(_) => "genie",
            BackendConfig::LlamaCpp(_) => "llamacpp",
        }
    }
}

/// Entries whose names are in strictly increasing order (so no name repeats).
pub open spec fn keys_sorted(s: Seq<(Seq<char>, BackendConfig)>) -> bool {
    forall|i: int, j: int| 0 <= i < j < s.len() ==> lex_lt(#[trigger] s[i].0, #[trigger] s[j].0)
}

/// The backend stored under `key` in `s`, if any.
pub open spec fn lookup(s: Seq<(Seq<char>, BackendConfig)>, key: Seq<char>) -> Option<
    BackendConfig,
>
    decreases s.len(),
{
    if s.len() == 0 {
        None
    } else if s[0].0 == key {
        Some(s[0].1)
    } else {
        lookup(s.drop_first(), key)
    }
}

/// In sorted entries, the lookup of a present name finds its entry, and the
/// lookup of an absent name finds nothing.
pub proof fn lemma_lookup(s: Seq<(Seq<char>, BackendConfig)>, key: Seq<char>)
    requires
        keys_sorted(s),
    ensures
        forall|i: int| 0 <= i < s.len() && #[trigger] s[i].0 == key ==> lookup(s, key) == Some(s[i].1),
        (forall|i: int| 0 <= i < s.len() ==> #[trigger] s[i].0 != key) ==> lookup(s, key) is None,
    decreases s.len(),
{
    if s.len() > 0 {
        let t = s.drop_first();
        assert(keys_sorted(t)) by {
            assert forall|i: int, j: int| 0 <= i < j < t.len() implies lex_lt(
                #[trigger] t[i].0,
                #[trigger] t[j].0,
            ) by {
                assert(t[i] == s[i + 1] && t[j] == s[j + 1]);
            }
        }
        lemma_lookup(t, key);
        assert forall|i: int| 0 <= i < s.len() && #[trigger] s[i].0 == key implies lookup(s, key)
            == Some(s[i].1) by {
            if i > 0 {
                assert(lex_lt(s[0].0, s[i].0));
                lemma_lex_irreflexive(s[i].0);
                assert(t[i - 1] == s[i]);
            }
        }
        if forall|i: int| 0 <= i < s.len() ==> #[trigger] s[i].0 != key {
            assert forall|i: int| 0 <= i < t.len() implies #[trigger] t[i].0 != key by {
                assert(t[i] == s[i + 1]);
            }
        }
    }
}

/// The configured backends, ordered by name (the order of a `BTreeMap`).
#[derive(Debug)]
pub struct BackendMap {
    entries: Vec<(String, BackendConfig)>,
}

/// The names and backends of entries.
pub open spec fn entry_views(v: Seq<(String, BackendConfig)>) -> Seq<(Seq<char>, BackendConfig)> {
    v.map_values(|e: (String, BackendConfig)| (e.0@, e.1))
}

impl View for BackendMap {
    type V = Seq<(Seq<char>, BackendConfig)>;

    closed spec fn view(&self) -> Seq<(Seq<char>, BackendConfig)> {
        entry_views(self.entries@)
    }
}

impl BackendMap {
    #[verifier::type_invariant]
    closed spec fn names_sorted(&self) -> bool {
        keys_sorted(entry_views(self.entries@))
    }

    /// An empty map.
    pub fn new() -> (r: BackendMap)
        ensures
            r@ == Seq::<(Seq<char>, BackendConfig)>::empty(),
    {
        let r = BackendMap { entries: Vec::new() };
        assert(r@ =~= Seq::<(Seq<char>, BackendConfig)>::empty());
        r
    }

    /// The number of backends.
    pub fn len(&self) -> (r: usize)
        ensures
            r == self@.len(),
    {
        self.entries.len()
    }

    /// The entries are ordered by name.
    pub fn is_sorted(&self) -> (r: bool)
        ensures
            r,
            keys_sorted(self@),
    {
        proof {
            use_type_invariant(self);
        }
        true
    }

    /// The name and backend of the entry at `index`, in name order.
    pub fn entry(&self, index: usize) -> (r: (&String, &BackendConfig))
        requires
            index < self@.len(),
        ensures
            r.0@ == self@[index as int].0,
            *r.1 == self@[index as int].1,
    {
        let e = &self.entries[index];
        (&e.0, &e.1)
    }

    /// The index of the entry named `key`, if there is one.
    pub fn index_of(&self, key: &str) -> (r: Option<usize>)
        ensures
            r matches Some(i) ==> i < self@.len() && self@[i as int].0 == key@,
            r is None ==> forall|i: int| 0 <= i < self@.len() ==> #[trigger] self@[i].0 != key@,
    {
        let mut i: usize = 0;
        while i < self.entries.len()
            invariant
                i <= self.entries@.len(),
                self@ == entry_views(self.entries@),
                forall|k: int| 0 <= k < i ==> #[trigger] self@[k].0 != key@,
            decreases self.entries.len() - i,
        {
            if str_eq(self.entries[i].0.as_str(), key) {
                return Some(i);
            }
            i += 1;
        }
        None
    }

    /// The backend stored under `key`, if any.
    pub fn get(&self, key: &str) -> (r: Option<&BackendConfig>)
        ensures
            r matches Some(b) ==> lookup(self@, key@) == Some(*b),
            r is None ==> lookup(self@, key@) is None,
    {
        proof {
            use_type_invariant(self);
            lemma_lookup(self@, key@);
        }
        match self.index_of(key) {
            Some(i) => Some(&self.entries[i].1),
            None => None,
        }
    }

    /// The stored name and backend under `key`, if any.
    pub fn get_key_value(&self, key: &str) -> (r: Option<(&String, &BackendConfig)>)
        ensures
            r matches Some(kv) ==> kv.0@ == key@ && lookup(self@, key@) == Some(*kv.1),
            r is None ==> lookup(self@, key@) is None,
    {
        proof {
            use_type_invariant(self);
            lemma_lookup(self@, key@);
        }
        match self.index_of(key) {
            Some(i) => {
                let e = &self.entries[i];
                Some((&e.0, &e.1))
            },
            None => None,
        }
    }

    /// Whether a backend is stored under `key`.
    pub fn contains_key(&self, key: &str) -> (r: bool)
        ensures
            r == (lookup(self@, key@) is Some),
    {
        self.get(key).is_some()
    }

    /// The names of the backends, in order.
    pub fn keys(&self) -> (r: Vec<String>)
        ensures
            r@.len() == self@.len(),
            forall|i: int| 0 <= i < r@.len() ==> #[trigger] r@[i]@ == self@[i].0,
    {
        let mut out: Vec<String> = Vec::new();
        let mut i: usize = 0;
        while i < self.entries.len()
            invariant
                i <= self.entries@.len(),
                self@ == entry_views(self.entries@),
                out@.len() == i,
                forall|k: int| 0 <= k < i ==> #[trigger] out@[k]@ == self@[k].0,
            decreases self.entries.len() - i,
        {
            out.push(self.entries[i].0.clone());
            i += 1;
        }
        out
    }

    /// The name of the first backend, in name order, of the given kind.
    pub fn first_of_kind(&self, kind: &str) -> (r: Option<&String>)
        ensures
            r matches Some(n) ==> first_of_kind(self@, kind@) == Some(n@),
            r is None ==> first_of_kind(self@, kind@) is None,
    {
        let mut i: usize = 0;
        while i < self.entries.len()
            invariant
                i <= self.entries@.len(),
                self@ == entry_views(self.entries@),
                forall|k: int| 0 <= k < i ==> (#[trigger] self@[k]).1.kind_name() != kind@,
            decreases self.entries.len() - i,
        {
            if str_eq(self.entries[i].1.kind(), kind) {
                proof {
                    lemma_first_of_kind_skip(self@, kind@, i as int);
                    assert(self@.skip(i as int)[0] == self@[i as int]);
                }
                return Some(&self.entries[i].0);
            }
            i += 1;
        }
        proof {
            lemma_first_of_kind_skip(self@, kind@, i as int);
            assert(self@.skip(i as int).len() == 0);
        }
        None
    }

    /// Stores `value` under `key`, replacing what was stored there.
    pub fn insert(&mut self, key: String, value: BackendConfig)
        ensures
            keys_sorted(final(self)@),
            forall|k: Seq<char>| #[trigger]
                lookup(final(self)@, k) == if k == key@ {
                    Some(value)
                } else {
                    lookup(old(self)@, k)
                },
            lookup(old(self)@, key@) is Some ==> final(self)@.len() == old(self)@.len(),
            lookup(old(self)@, key@) is None ==> final(self)@.len() == old(self)@.len() + 1,
    {
        proof {
            use_type_invariant(&*self);
        }
        let ghost old_view = self@;
        let mut entries: Vec<(String, BackendConfig)> = Vec::new();
        std::mem::swap(&mut entries, &mut self.entries);
        assert(entry_views(entries@) == old_view);
        let n = entries.len();
        let mut i: usize = 0;
        while i < n && str_lt(entries[i].0.as_str(), key.as_str())
            invariant
                n == entries@.len(),
                i <= n,
                entry_views(entries@) == old_view,
                forall|k: int| 0 <= k < i ==> lex_lt(#[trigger] old_view[k].0, key@),
            decreases n - i,
        {
            i += 1;
        }
        let ghost kv = (key@, value);
        proof {
            lemma_lookup(old_view, key@);
        }
        if i < n && str_eq(entries[i].0.as_str(), key.as_str()) {
            let _ = entries.remove(i);
            entries.insert(i, (key, value));
            proof {
                assert(old_view[i as int].0 == key@);
                let new_view = entry_views(entries@);
                assert(new_view =~= old_view.update(i as int, kv));
                assert(keys_sorted(new_view)) by {
                    assert forall|a: int, b: int| 0 <= a < b < new_view.len() implies lex_lt(
                        #[trigger] new_view[a].0,
                        #[trigger] new_view[b].0,
                    ) by {
                        assert(new_view[a].0 == old_view[a].0);
                        assert(new_view[b].0 == old_view[b].0);
                    }
                }
                lemma_lookup(new_view, key@);
                assert(new_view[i as int].0 == key@);
                assert forall|k: Seq<char>| #[trigger]
                    lookup(new_view, k) == if k == key@ {
                        Some(value)
                    } else {
                        lookup(old_view, k)
                    } by {
                    lemma_lookup(new_view, k);
                    lemma_lookup(old_view, k);
                    if k != key@ {
                        if exists|j: int| 0 <= j < old_view.len() && old_view[j].0 == k {
                            let j = choose|j: int| 0 <= j < old_view.len() && old_view[j].0 == k;
                            assert(new_view[j] == old_view[j]);
                        } else {
                            assert forall|j: int| 0 <= j < new_view.len() implies #[trigger] new_view[j].0
                                != k by {
                                if j != i {
                                    assert(new_view[j] == old_view[j]);
                                }
                            }
                        }
                    }
                }
            }
        } else {
            entries.insert(i, (key, value));
            proof {
                let new_view = entry_views(entries@);
                assert(new_view =~= old_view.insert(i as int, kv));
                if i < n {
                    lemma_lex_total(old_view[i as int].0, key@);
                    assert(lex_lt(key@, old_view[i as int].0));
                }
                assert(keys_sorted(new_view)) by {
                    assert forall|a: int, b: int| 0 <= a < b < new_view.len() implies lex_lt(
                        #[trigger] new_view[a].0,
                        #[trigger] new_view[b].0,
                    ) by {
                        if b < i {
                            assert(new_view[a] == old_view[a] && new_view[b] == old_view[b]);
                        } else if b == i {
                            assert(new_view[a] == old_view[a]);
                        } else if a == i {
                            assert(new_view[b] == old_view[b - 1]);
                            if b - 1 > i {
                                assert(lex_lt(old_view[i as int].0, old_view[b - 1].0));
                                lemma_lex_transitive(key@, old_view[i as int].0, old_view[b - 1].0);
                            }
                        } else if a < i {
                            assert(new_view[a] == old_view[a] && new_view[b] == old_view[b - 1]);
                            assert(lex_lt(old_view[a].0, key@));
                            if b - 1 > i {
                                assert(lex_lt(old_view[i as int].0, old_view[b - 1].0));
                                lemma_lex_transitive(key@, old_view[i as int].0, old_view[b - 1].0);
                            }
                            lemma_lex_transitive(old_view[a].0, key@, old_view[b - 1].0);
                        } else {
                            assert(new_view[a] == old_view[a - 1] && new_view[b] == old_view[b - 1]);
                        }
                    }
                }
                assert forall|j: int| 0 <= j < old_view.len() implies #[trigger] old_view[j].0 != key@ by {
                    if j < i {
                        lemma_lex_irreflexive(key@);
                    } else if i < n {
                        if j > i {
                            assert(lex_lt(old_view[i as int].0, old_view[j].0));
                            lemma_lex_transitive(key@, old_view[i as int].0, old_view[j].0);
                        }
                        lemma_lex_irreflexive(key@);
                    }
                }
                assert forall|k: Seq<char>| #[trigger]
                    lookup(new_view, k) == if k == key@ {
                        Some(value)
                    } else {
                        lookup(old_view, k)
                    } by {
                    lemma_lookup(new_view, k);
                    lemma_lookup(old_view, k);
                    assert(new_view[i as int].0 == key@);
                    if k != key@ {
                        if exists|j: int| 0 <= j < old_view.len() && old_view[j].0 == k {
                            let j = choose|j: int| 0 <= j < old_view.len() && old_view[j].0 == k;
                            if j < i {
                                assert(new_view[j] == old_view[j]);
                            } else {
                                assert(new_view[j + 1] == old_view[j]);
                            }
                        } else {
                            assert forall|j: int| 0 <= j < new_view.len() implies #[trigger] new_view[j].0
                                != k by {
                                if j < i {
                                    assert(new_view[j] == old_view[j]);
                                } else if j > i {
                                    assert(new_view[j] == old_view[j - 1]);
                                }
                            }
                        }
                    }
                }
            }
        }
        self.entries = entries;
    }
}


/// Errors of loading and querying the configuration.
#[derive(Debug, PartialEq, Eq)]
pub enum CoreError {
    ReadConfig { path: String, message: String },
    ParseConfig { message: String },
    MissingDefaultBackend,
    UnknownBackendName { name: String },
    UnsupportedBackendKind { name: String, kind: String },
    NoBackendForDevice { device: String },
}

/// The text that describes a configuration error.
pub open spec fn core_error_text(e: CoreError) -> Seq<char> {
    match e {
        CoreError::ReadConfig { path, message } => "failed to read config "@ + path@ + ": "@
            + message@,
        CoreError::ParseConfig { message } => "failed to parse config: "@ + message@,
        CoreError::MissingDefaultBackend => "config is missing default_backend"@,
        CoreError::UnknownBackendName { name } => "backend '"@ + name@ + "' is not configured"@,
        CoreError::UnsupportedBackendKind { name, kind } => "backend '"@ + name@ + "' uses kind '"@
            + kind@ + "', which is not supported yet"@,
        CoreError::NoBackendForDevice { device } => "device '"@ + device@
            + "' has no configured backend of that kind"@,
    }
}

impl CoreError {
    /// The message that describes the error.
    pub fn message(&self) -> (r: String)
        ensures
            r@ == core_error_text(*self),
    {
        match self {
            CoreError::ReadConfig { path, message } => {
                let mut s = "failed to read config ".to_owned();
                s.append(path.as_str());
                s.append(": ");
                s.append(message.as_str());
                s
            },
            CoreError::ParseConfig { message } => {
                let mut s = "failed to parse config: ".to_owned();
                s.append(message.as_str());
                s
            },
            CoreError::MissingDefaultBackend => "config is missing default_backend".to_owned(),
            CoreError::UnknownBackendName { name } => {
                let mut s = "backend '".to_owned();
                s.append(name.as_str());
                s.append("' is not configured");
                s
            },
            CoreError::UnsupportedBackendKind { name, kind } => {
                let mut s = "backend '".to_owned();
                s.append(name.as_str());
                s.append("' uses kind '");
                s.append(kind.as_str());
                s.append("', which is not supported yet");
                s
            },
            CoreError::NoBackendForDevice { device } => {
                let mut s = "device '".to_owned();
                s.append(device.as_str());
                s.append("' has no configured backend of that kind");
                s
            },
        }
    }
}

/// The configuration as read, before it is checked.
#[derive(Debug)]
pub struct RawAppConfig {
    pub default_backend: Option<String>,
    pub device: Option<String>,
    pub backends: BackendMap,
}

/// The checked configuration: a default backend, the device inference runs
/// on (a backend kind, such as `genie` for the NPU), and the configured
/// backends.
#[derive(Debug)]
pub struct AppConfig {
    pub default_backend: String,
    pub device: Option<String>,
    pub backends: BackendMap,
}

/// The name of the first backend, in name order, of the given kind.
pub open spec fn first_of_kind(s: Seq<(Seq<char>, BackendConfig)>, kind: Seq<char>) -> Option<
    Seq<char>,
>
    decreases s.len(),
{
    if s.len() == 0 {
        None
    } else if s[0].1.kind_name() == kind {
        Some(s[0].0)
    } else {
        first_of_kind(s.drop_first(), kind)
    }
}

/// The backend a request that names none goes to: the default backend,
/// unless a device is set and the default backend is of another kind; then
/// the first backend of the device's kind (the default when there is none).
pub open spec fn default_name(config: AppConfig) -> Seq<char> {
    match config.device {
        None => config.default_backend@,
        Some(d) => if (lookup(config.backends@, config.default_backend@) matches Some(b)
            && b.kind_name() == d@) {
            config.default_backend@
        } else {
            match first_of_kind(config.backends@, d@) {
                Some(n) => n,
                None => config.default_backend@,
            }
        },
    }
}

/// The name a request resolves to: the requested one, or the default.
pub open spec fn requested_name(config: AppConfig, requested: Option<&str>) -> Seq<char> {
    match requested {
        Some(name) => name@,
        None => default_name(config),
    }
}

proof fn lemma_first_of_kind_skip(s: Seq<(Seq<char>, BackendConfig)>, kind: Seq<char>, k: int)
    requires
        0 <= k <= s.len(),
        forall|j: int| 0 <= j < k ==> (#[trigger] s[j]).1.kind_name() != kind,
    ensures
        first_of_kind(s, kind) == first_of_kind(s.skip(k), kind),
    decreases k,
{
    if k > 0 {
        assert(s.drop_first().skip(k - 1) == s.skip(k));
        assert forall|j: int| 0 <= j < k - 1 implies (#[trigger] s.drop_first()[j]).1.kind_name()
            != kind by {
            assert(s.drop_first()[j] == s[j + 1]);
        }
        lemma_first_of_kind_skip(s.drop_first(), kind, k - 1);
    } else {
        assert(s.skip(0) == s);
    }
}

/// The first backend of a kind is an entry of that kind.
pub proof fn lemma_first_of_kind_found(s: Seq<(Seq<char>, BackendConfig)>, kind: Seq<char>)
    ensures
        first_of_kind(s, kind) matches Some(n) ==> exists|i: int|
            0 <= i < s.len() && (#[trigger] s[i]).0 == n && s[i].1.kind_name() == kind,
    decreases s.len(),
{
    if s.len() > 0 && s[0].1.kind_name() != kind {
        lemma_first_of_kind_found(s.drop_first(), kind);
        if let Some(n) = first_of_kind(s, kind) {
            let i = choose|i: int|
                0 <= i < s.drop_first().len() && (#[trigger] s.drop_first()[i]).0 == n
                    && s.drop_first()[i].1.kind_name() == kind;
            assert(s[i + 1] == s.drop_first()[i]);
        }
    }
}

/// Looking up a name that some entry has finds something.
pub proof fn lemma_lookup_present(s: Seq<(Seq<char>, BackendConfig)>, key: Seq<char>, i: int)
    requires
        0 <= i < s.len(),
        s[i].0 == key,
    ensures
        lookup(s, key) is Some,
    decreases s.len(),
{
    if s[0].0 != key {
        assert(s.drop_first()[i - 1] == s[i]);
        lemma_lookup_present(s.drop_first(), key, i - 1);
    }
}

/// `new` is `old` with every path of a backend resolved against `base_dir`,
/// and everything else unchanged.
pub open spec fn paths_resolved(old: BackendConfig, new: BackendConfig, base_dir: Seq<char>) -> bool {
    match (old, new) {
        (BackendConfig::Fake(o), BackendConfig::Fake(n)) => o == n,
        (BackendConfig::LlamaCpp(o), BackendConfig::LlamaCpp(n)) => {
            &&& n.model@ == resolved_path(base_dir, o.model@)
            &&& n.n_threads == o.n_threads
            &&& n.n_ctx == o.n_ctx
            &&& n.n_batch == o.n_batch
            &&& n.use_mmap == o.use_mmap
        },
        (BackendConfig::Genie(o), BackendConfig::Genie(n)) => {
            &&& n.bundle_dir@ == resolved_path(base_dir, o.bundle_dir@)
            &&& n.genie_config@ == resolved_path(base_dir, o.genie_config@)
            &&& n.htp_config@ == resolved_path(base_dir, o.htp_config@)
            &&& n.qnn_sdk_root@ == resolved_path(base_dir, o.qnn_sdk_root@)
            &&& n.tokenizer_path@ == resolved_path(base_dir, o.tokenizer_path@)
            &&& n.genie_config_template@ == resolved_path(base_dir, o.genie_config_template@)
            &&& n.htp_config_template@ == resolved_path(base_dir, o.htp_config_template@)
            &&& n.soc_model == o.soc_model
            &&& n.dsp_arch == o.dsp_arch
            &&& match (o.genie_executable, n.genie_executable) {
                (None, None) => true,
                (Some(op), Some(np)) => np@ == resolved_path(base_dir, op@),
                _ => false,
            }
        },
        _ => false,
    }
}

/// `new` is absolute where `old` had no drive prefix.
pub open spec fn absolute_unless_drive(old: Seq<char>, new: Seq<char>) -> bool {
    !has_drive_prefix(old) ==> is_absolute_path(new)
}

/// Every path of `new` is absolute, except where the path in `old` named a
/// drive (`D:x` is relative to that drive, not to the base).
pub open spec fn paths_absolute(old: BackendConfig, new: BackendConfig) -> bool {
    match (old, new) {
        (BackendConfig::Fake(_), BackendConfig::Fake(_)) => true,
        (BackendConfig::LlamaCpp(o), BackendConfig::LlamaCpp(n)) => absolute_unless_drive(
            o.model@,
            n.model@,
        ),
        (BackendConfig::Genie(o), BackendConfig::Genie(n)) => {
            &&& absolute_unless_drive(o.bundle_dir@, n.bundle_dir@)
            &&& absolute_unless_drive(o.genie_config@, n.genie_config@)
            &&& absolute_unless_drive(o.htp_config@, n.htp_config@)
            &&& absolute_unless_drive(o.qnn_sdk_root@, n.qnn_sdk_root@)
            &&& absolute_unless_drive(o.tokenizer_path@, n.tokenizer_path@)
            &&& absolute_unless_drive(o.genie_config_template@, n.genie_config_template@)
            &&& absolute_unless_drive(o.htp_config_template@, n.htp_config_template@)
            &&& match (o.genie_executable, n.genie_executable) {
                (Some(op), Some(np)) => absolute_unless_drive(op@, np@),
                _ => true,
            }
        },
        _ => false,
    }
}

/// Resolves every path of one backend against `base_dir`.
pub fn resolve_backend_paths(base_dir: &str, backend: BackendConfig) -> (r: BackendConfig)
    ensures
        paths_resolved(backend, r, base_dir@),
        is_absolute_path(base_dir@) ==> paths_absolute(backend, r),
{
    match backend {
        BackendConfig::Fake(fake) => BackendConfig::Fake(fake),
        BackendConfig::LlamaCpp(llama) => {
            let llama = *llama;
            BackendConfig::LlamaCpp(
                Box::new(
                    LlamaCppBackendConfig {
                        model: resolve_path(base_dir, llama.model),
                        n_threads: llama.n_threads,
                        n_ctx: llama.n_ctx,
                        n_batch: llama.n_batch,
                        use_mmap: llama.use_mmap,
                    },
                ),
            )
        },
        BackendConfig::Genie(genie) => {
            let genie = *genie;
            let genie_executable = match genie.genie_executable {
                Some(path) => Some(resolve_path(base_dir, path)),
                None => None,
            };
            BackendConfig::Genie(
                Box::new(
                    GenieBackendConfig {
                        bundle_dir: resolve_path(base_dir, genie.bundle_dir),
                        genie_config: resolve_path(base_dir, genie.genie_config),
                        htp_config: resolve_path(base_dir, genie.htp_config),
                        qnn_sdk_root: resolve_path(base_dir, genie.qnn_sdk_root),
                        tokenizer_path: resolve_path(base_dir, genie.tokenizer_path),
                        genie_config_template: resolve_path(base_dir, genie.genie_config_template),
                        htp_config_template: resolve_path(base_dir, genie.htp_config_template),
                        soc_model: genie.soc_model,
                        dsp_arch: genie.dsp_arch,
                        genie_executable,
                    },
                ),
            )
        },
    }
}

/// Why a configuration as read is refused, if it is: the default backend
/// must be named, not blank, and configured, and a device, when set, must
/// have a backend of its kind.
pub open spec fn raw_config_error(raw: RawAppConfig) -> Option<CoreError> {
    match raw.default_backend {
        None => Some(CoreError::MissingDefaultBackend),
        Some(name) => if all_white_space(name@) {
            Some(CoreError::MissingDefaultBackend)
        } else if lookup(raw.backends@, name@) is None {
            Some(CoreError::UnknownBackendName { name })
        } else if (raw.device matches Some(d) && first_of_kind(raw.backends@, d@) is None) {
            Some(CoreError::NoBackendForDevice { device: raw.device->0 })
        } else {
            None
        },
    }
}

/// The directory a configuration file's relative paths are resolved
/// against: its parent, or `.` when it has none.
pub open spec fn config_dir(config_path: Seq<char>) -> Seq<char> {
    match parent_path(config_path) {
        Some(p) => p,
        None => "."@,
    }
}

/// A configuration read from the file at `config_path`: checked, with every
/// backend path resolved against the file's directory. When the file's
/// path is absolute (and has a parent), every backend path becomes
/// absolute, except a path that names a drive.
pub fn config_from_file(config_path: &str, raw: RawAppConfig) -> (r: Result<AppConfig, CoreError>)
    ensures
        match raw_config_error(raw) {
            Some(e) => r == Err::<AppConfig, CoreError>(e),
            None => r matches Ok(config) && config.default_backend == raw.default_backend->0
                && config.device == raw.device && config.backends@.len() == raw.backends@.len()
                && forall|i: int|
                0 <= i < raw.backends@.len() ==> (#[trigger] config.backends@[i]).0
                    == raw.backends@[i].0 && paths_resolved(
                    raw.backends@[i].1,
                    config.backends@[i].1,
                    config_dir(config_path@),
                ),
        },
        is_absolute_path(config_path@) && parent_path(config_path@) is Some ==> (r matches Ok(
            config,
        ) ==> forall|i: int|
            0 <= i < raw.backends@.len() ==> paths_absolute(
                raw.backends@[i].1,
                #[trigger] config.backends@[i].1,
            )),
{
    let mut config = AppConfig::from_raw(raw)?;
    let base_dir = config_base_dir(config_path);
    config.resolve_paths_relative_to(base_dir.as_str());
    Ok(config)
}

impl AppConfig {
    /// Checks a configuration as read: the default backend must be named, not
    /// blank, and configured, and a device, when set, must have a backend of
    /// its kind.
    pub fn from_raw(raw: RawAppConfig) -> (r: Result<AppConfig, CoreError>)
        ensures
            match raw_config_error(raw) {
                Some(e) => r == Err::<AppConfig, CoreError>(e),
                None => r matches Ok(config) && config.default_backend == raw.default_backend->0
                    && config.device == raw.device && config.backends@ == raw.backends@,
            },
    {
        let RawAppConfig { default_backend, device, backends } = raw;
        let default_backend = match default_backend {
            None => return Err(CoreError::MissingDefaultBackend),
            Some(name) => name,
        };
        if is_blank(default_backend.as_str()) {
            return Err(CoreError::MissingDefaultBackend);
        }
        if !backends.contains_key(default_backend.as_str()) {
            return Err(CoreError::UnknownBackendName { name: default_backend });
        }
        if let Some(d) = &device {
            if backends.first_of_kind(d.as_str()).is_none() {
                return Err(CoreError::NoBackendForDevice { device: d.clone() });
            }
        }
        Ok(AppConfig { default_backend, device, backends })
    }

    /// The backend a request that names none goes to (see `default_name`).
    pub fn default_name(&self) -> (r: &str)
        ensures
            r@ == default_name(*self),
    {
        match &self.device {
            None => self.default_backend.as_str(),
            Some(d) => {
                let default_matches = match self.backends.get(self.default_backend.as_str()) {
                    Some(b) => str_eq(b.kind(), d.as_str()),
                    None => false,
                };
                if default_matches {
                    self.default_backend.as_str()
                } else {
                    match self.backends.first_of_kind(d.as_str()) {
                        Some(n) => n.as_str(),
                        None => self.default_backend.as_str(),
                    }
                }
            },
        }
    }

    /// The configured name of the requested backend, or of the default one.
    pub fn resolve_backend_name<'a>(&'a self, requested: Option<&str>) -> (r: Result<
        &'a str,
        CoreError,
    >)
        ensures
            r is Ok <==> lookup(self.backends@, requested_name(*self, requested)) is Some,
            r matches Ok(name) ==> name@ == requested_name(*self, requested),
            r matches Err(e) ==> e matches CoreError::UnknownBackendName { name } && name@
                == requested_name(*self, requested),
    {
        let name: &str = match requested {
            Some(name) => name,
            None => self.default_name(),
        };
        match self.backends.get_key_value(name) {
            Some(kv) => Ok(kv.0.as_str()),
            None => Err(CoreError::UnknownBackendName { name: name.to_owned() }),
        }
    }

    /// The requested backend (or the default one) with its configured name.
    pub fn backend<'a>(&'a self, requested: Option<&str>) -> (r: Result<
        (&'a str, &'a BackendConfig),
        CoreError,
    >)
        ensures
            r is Ok <==> lookup(self.backends@, requested_name(*self, requested)) is Some,
            r matches Ok(found) ==> found.0@ == requested_name(*self, requested) && lookup(
                self.backends@,
                requested_name(*self, requested),
            ) == Some(*found.1),
            r matches Err(e) ==> e matches CoreError::UnknownBackendName { name } && name@
                == requested_name(*self, requested),
    {
        let name = self.resolve_backend_name(requested)?;
        match self.backends.get_key_value(name) {
            Some(kv) => Ok((kv.0.as_str(), kv.1)),
            None => Err(CoreError::UnknownBackendName { name: name.to_owned() }),
        }
    }

    /// Makes every backend path absolute against `base_dir` (the directory of
    /// the configuration file); absolute paths are kept.
    pub fn resolve_paths_relative_to(&mut self, base_dir: &str)
        ensures
            final(self).default_backend == old(self).default_backend,
            final(self).device == old(self).device,
            final(self).backends@.len() == old(self).backends@.len(),
            forall|i: int|
                0 <= i < old(self).backends@.len() ==> (#[trigger] final(self).backends@[i]).0
                    == old(self).backends@[i].0 && paths_resolved(
                    old(self).backends@[i].1,
                    final(self).backends@[i].1,
                    base_dir@,
                ),
            is_absolute_path(base_dir@) ==> forall|i: int|
                0 <= i < old(self).backends@.len() ==> paths_absolute(
                    old(self).backends@[i].1,
                    #[trigger] final(self).backends@[i].1,
                ),
    {
        let mut map = BackendMap::new();
        std::mem::swap(&mut map, &mut self.backends);
        proof {
            use_type_invariant(&map);
        }
        let ghost old_view = map@;
        let mut entries: Vec<(String, BackendConfig)> = Vec::new();
        std::mem::swap(&mut entries, &mut map.entries);
        let ghost old_entries = entries@;
        assert(entry_views(old_entries) == old_view);
        let mut out: Vec<(String, BackendConfig)> = Vec::new();
        let n = entries.len();
        let mut i: usize = 0;
        while i < n
            invariant
                n == old_entries.len(),
                i <= n,
                entries@ == old_entries.skip(i as int),
                out@.len() == i,
                entry_views(old_entries) == old_view,
                forall|k: int|
                    0 <= k < i ==> (#[trigger] out@[k]).0@ == old_view[k].0 && paths_resolved(
                        old_view[k].1,
                        out@[k].1,
                        base_dir@,
                    ),
                is_absolute_path(base_dir@) ==> forall|k: int|
                    0 <= k < i ==> paths_absolute(old_view[k].1, (#[trigger] out@[k]).1),
            decreases n - i,
        {
            let (name, backend) = entries.remove(0);
            assert(old_entries.skip(i as int).drop_first() == old_entries.skip(i + 1));
            assert(old_entries[i as int] == old_entries.skip(i as int)[0]);
            let resolved = resolve_backend_paths(base_dir, backend);
            out.push((name, resolved));
            i += 1;
        }
        proof {
            let new_view = entry_views(out@);
            assert forall|a: int, b: int| 0 <= a < b < new_view.len() implies lex_lt(
                #[trigger] new_view[a].0,
                #[trigger] new_view[b].0,
            ) by {
                assert(new_view[a].0 == old_view[a].0 && new_view[b].0 == old_view[b].0);
            }
        }
        self.backends = BackendMap { entries: out };
    }
}


/// A configuration that passed the checks always resolves a request that
/// names no backend: to the default backend when no device is set.
pub proof fn lemma_checked_config_resolves_default(config: AppConfig)
    requires
        lookup(config.backends@, config.default_backend@) is Some,
        config.device matches Some(d) ==> first_of_kind(config.backends@, d@) is Some,
    ensures
        lookup(config.backends@, requested_name(config, None)) is Some,
        config.device is None ==> requested_name(config, None) == config.default_backend@,
{
    if let Some(d) = config.device {
        lemma_first_of_kind_found(config.backends@, d@);
        if let Some(n) = first_of_kind(config.backends@, d@) {
            let i = choose|i: int|
                0 <= i < config.backends@.len() && (#[trigger] config.backends@[i]).0 == n
                    && config.backends@[i].1.kind_name() == d@;
            lemma_lookup_present(config.backends@, n, i);
        }
    }
}

/// With a device set, a request that names no backend goes to a backend of
/// the device's kind (the NPU for `genie`), when one is configured.
pub proof fn lemma_device_selects_kind(config: AppConfig)
    requires
        keys_sorted(config.backends@),
        config.device is Some,
        first_of_kind(config.backends@, config.device->0@) is Some,
    ensures
        lookup(config.backends@, requested_name(config, None)) matches Some(b) && b.kind_name()
            == config.device->0@,
{
    let d = config.device->0@;
    lemma_first_of_kind_found(config.backends@, d);
    let n = first_of_kind(config.backends@, d)->0;
    let i = choose|i: int|
        0 <= i < config.backends@.len() && (#[trigger] config.backends@[i]).0 == n
            && config.backends@[i].1.kind_name() == d;
    lemma_lookup(config.backends@, n);
}

} // verus!
