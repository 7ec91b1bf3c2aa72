//! Configuration: the models, the global settings, their defaults and their validation.
//!
//! Paths are text: a configuration file is, and so are the variables of the environment that
//! paths are made from.

use vstd::prelude::*;
use vstd::string::*;

use crate::io_error::IoError;
use crate::io_error::IoErrorView;
use crate::paths::join_path;
use crate::paths::joined;
use crate::scan::views;
use crate::text::append_decimal;
use crate::text::decimal;
use crate::text::same_text;

verus! {

broadcast use vstd::std_specs::hash::group_hash_axioms;

/// The text of an optional string.
pub open spec fn opt_view(s: Option<String>) -> Option<Seq<char>> {
    match s {
        Some(t) => Some(t@),
        None => None,
    }
}

/// The text of an optional string slice.
pub open spec fn opt_str_view(s: Option<&str>) -> Option<Seq<char>> {
    match s {
        Some(t) => Some(t@),
        None => None,
    }
}

/// A copy of an optional string.
pub fn clone_opt(s: &Option<String>) -> (r: Option<String>)
    ensures
        opt_view(r) == opt_view(*s),
{
    match s {
        Some(t) => Some(t.clone()),
        None => None,
    }
}

/// Error types for configuration operations.
#[derive(Debug)]
pub enum ConfigError {
    /// The file could not be read; the reason.
    Io(IoError),
    /// The file is no configuration; the reason.
    TomlParse(String),
    /// The configuration breaks a rule; which one.
    Validation(String),
    /// There is no file.
    NotFound,
}

/// What a `ConfigError` says.
pub enum ConfigErrorView {
    Io(IoErrorView),
    TomlParse(Seq<char>),
    Validation(Seq<char>),
    NotFound,
}

impl View for ConfigError {
    type V = ConfigErrorView;

    open spec fn view(&self) -> ConfigErrorView {
        match self {
            ConfigError::Io(e) => ConfigErrorView::Io(e@),
            ConfigError::TomlParse(e) => ConfigErrorView::TomlParse(e@),
            ConfigError::Validation(e) => ConfigErrorView::Validation(e@),
            ConfigError::NotFound => ConfigErrorView::NotFound,
        }
    }
}

impl ConfigErrorView {
    /// The message of the error.
    pub open spec fn message(self) -> Seq<char> {
        match self {
            ConfigErrorView::Io(e) => "I/O error reading config: "@ + e.text,
            ConfigErrorView::TomlParse(e) => "TOML parse error: "@ + e,
            ConfigErrorView::Validation(e) => "configuration error: "@ + e,
            ConfigErrorView::NotFound => "no config file found at any expected location"@,
        }
    }
}

impl ConfigError {
    /// The message of the error.
    pub fn to_string(&self) -> (s: String)
        ensures
            s@ == self@.message(),
    {
        match self {
            ConfigError::Io(e) => "I/O error reading config: ".to_owned().concat(e.text.as_str()),
            ConfigError::TomlParse(e) => "TOML parse error: ".to_owned().concat(e.as_str()),
            ConfigError::Validation(e) => "configuration error: ".to_owned().concat(e.as_str()),
            ConfigError::NotFound => "no config file found at any expected location".to_owned(),
        }
    }

    /// The error for a configuration that could not be written out; `reason` says why. Like every
    /// error of a TOML file, it ends with a line break.
    pub fn from_serialize_error(reason: &str) -> (e: ConfigError)
        ensures
            e@ == ConfigErrorView::TomlParse(reason@ + "\n"@),
    {
        ConfigError::TomlParse(reason.to_owned().concat("\n"))
    }
}

/// A single model configuration entry.
#[derive(Debug)]
pub struct ModelConfig {
    pub id: String,
    pub name: String,
    pub script_path: String,
    pub port: u16,
    pub health_timeout_sec: u16,
}

/// What a `ModelConfig` says.
pub struct ModelConfigView {
    pub id: Seq<char>,
    pub name: Seq<char>,
    pub script_path: Seq<char>,
    pub port: u16,
    pub health_timeout_sec: u16,
}

impl View for ModelConfig {
    type V = ModelConfigView;

    open spec fn view(&self) -> ModelConfigView {
        ModelConfigView {
            id: self.id@,
            name: self.name@,
            script_path: self.script_path@,
            port: self.port,
            health_timeout_sec: self.health_timeout_sec,
        }
    }
}

impl Clone for ModelConfig {
    fn clone(&self) -> (r: Self)
        ensures
            r@ == self@,
    {
        ModelConfig {
            id: self.id.clone(),
            name: self.name.clone(),
            script_path: self.script_path.clone(),
            port: self.port,
            health_timeout_sec: self.health_timeout_sec,
        }
    }
}

/// The health check timeout of a model that sets none, in seconds.
pub fn default_health_timeout() -> (sec: u16)
    ensures
        sec == 30,
{
    30
}

/// The path that a configured string stands for.
pub fn deserialize_path(s: String) -> (path: String)
    ensures
        path@ == s@,
{
    s
}

/// The path that an optional configured string stands for: an empty one stands for none.
pub open spec fn configured_path(opt: Option<Seq<char>>) -> Option<Seq<char>> {
    match opt {
        Some(s) => if s.len() == 0 {
            None
        } else {
            Some(s)
        },
        None => None,
    }
}

/// The path that an optional configured string stands for: an empty one stands for none, so
/// that `log_dir = ""` means "use the default".
pub fn deserialize_optional_pathbuf(opt: Option<String>) -> (path: Option<String>)
    ensures
        opt_view(path) == configured_path(opt_view(opt)),
{
    match opt {
        Some(s) => if s.as_str().is_empty() {
            None
        } else {
            Some(s)
        },
        None => None,
    }
}

/// Global settings section.
#[derive(Debug)]
pub struct GlobalSettings {
    pub log_dir: Option<String>,
    pub proxy_port: Option<u16>,
    pub auto_restart_on_context_full: Option<bool>,
}

/// What a `GlobalSettings` says.
pub struct GlobalSettingsView {
    pub log_dir: Option<Seq<char>>,
    pub proxy_port: Option<u16>,
    pub auto_restart_on_context_full: Option<bool>,
}

impl View for GlobalSettings {
    type V = GlobalSettingsView;

    open spec fn view(&self) -> GlobalSettingsView {
        GlobalSettingsView {
            log_dir: opt_view(self.log_dir),
            proxy_port: self.proxy_port,
            auto_restart_on_context_full: self.auto_restart_on_context_full,
        }
    }
}

impl Clone for GlobalSettings {
    fn clone(&self) -> (r: Self)
        ensures
            r@ == self@,
    {
        GlobalSettings {
            log_dir: clone_opt(&self.log_dir),
            proxy_port: self.proxy_port,
            auto_restart_on_context_full: self.auto_restart_on_context_full,
        }
    }
}

impl Default for GlobalSettings {
    fn default() -> (r: Self)
        ensures
            r@ == (GlobalSettingsView {
                log_dir: None,
                proxy_port: None,
                auto_restart_on_context_full: None,
            }),
    {
        GlobalSettings { log_dir: None, proxy_port: None, auto_restart_on_context_full: None }
    }
}

/// Root configuration.
#[derive(Debug)]
pub struct Config {
    pub schema_version: u8,
    pub models: Vec<ModelConfig>,
    pub global: GlobalSettings,
}

/// What a `Config` says.
pub struct ConfigView {
    pub schema_version: u8,
    pub models: Seq<ModelConfigView>,
    pub global: GlobalSettingsView,
}

/// What the entries of a list of models say.
pub open spec fn model_views(models: Seq<ModelConfig>) -> Seq<ModelConfigView> {
    models.map_values(|m: ModelConfig| m@)
}

impl View for Config {
    type V = ConfigView;

    open spec fn view(&self) -> ConfigView {
        ConfigView {
            schema_version: self.schema_version,
            models: model_views(self.models@),
            global: self.global@,
        }
    }
}

impl Clone for Config {
    fn clone(&self) -> (r: Self)
        ensures
            r@ == self@,
    {
        let mut models: Vec<ModelConfig> = Vec::new();
        let mut i: usize = 0;
        while i < self.models.len()
            invariant
                i <= self.models@.len(),
                models@.len() == i,
                forall|j: int| 0 <= j < i ==> (#[trigger] models@[j])@ == self.models@[j]@,
            decreases self.models@.len() - i,
        {
            models.push(self.models[i].clone());
            i = i + 1;
        }
        proof {
            assert(model_views(models@) =~= model_views(self.models@));
        }
        Config { schema_version: self.schema_version, models, global: self.global.clone() }
    }
}

/// The first model, from `from` on, with the given id.
pub open spec fn model_index(models: Seq<ModelConfigView>, id: Seq<char>, from: int) -> Option<int>
    decreases models.len() - from,
{
    if from >= models.len() {
        None
    } else if models[from].id == id {
        Some(from)
    } else {
        model_index(models, id, from + 1)
    }
}

/// What a lookup finds is a model with that id, and it finds one wherever there is one.
pub proof fn lemma_model_index(models: Seq<ModelConfigView>, id: Seq<char>, from: int)
    requires
        0 <= from,
    ensures
        model_index(models, id, from) matches Some(i) ==> from <= i < models.len() && models[i].id
            == id && forall|j: int| from <= j < i ==> (#[trigger] models[j]).id != id,
        model_index(models, id, from) is None ==> forall|j: int|
            from <= j < models.len() ==> (#[trigger] models[j]).id != id,
    decreases models.len() - from,
{
    if from < models.len() && models[from].id != id {
        lemma_model_index(models, id, from + 1);
    }
}

/// Some model before number `i` listens on the same port.
pub open spec fn port_taken_before(models: Seq<ModelConfigView>, i: int) -> bool {
    exists|j: int| 0 <= j < i && (#[trigger] models[j]).port == models[i].port
}

/// The first model, from `from` on, whose port a model before it has.
pub open spec fn first_duplicate(models: Seq<ModelConfigView>, from: int) -> Option<int>
    decreases models.len() - from,
{
    if from >= models.len() {
        None
    } else if port_taken_before(models, from) {
        Some(from)
    } else {
        first_duplicate(models, from + 1)
    }
}

/// The id of the first model, from `from` on, with the given port and another id, or `id` itself
/// where there is none.
pub open spec fn clashing_id(
    models: Seq<ModelConfigView>,
    port: u16,
    id: Seq<char>,
    from: int,
) -> Seq<char>
    decreases models.len() - from,
{
    if from >= models.len() {
        id
    } else if models[from].port == port && models[from].id != id {
        models[from].id
    } else {
        clashing_id(models, port, id, from + 1)
    }
}

/// The first model, from `from` on, whose script is not among `existing`.
pub open spec fn first_missing(
    models: Seq<ModelConfigView>,
    existing: Seq<Seq<char>>,
    from: int,
) -> Option<int>
    decreases models.len() - from,
{
    if from >= models.len() {
        None
    } else if !existing.contains(models[from].script_path) {
        Some(from)
    } else {
        first_missing(models, existing, from + 1)
    }
}

/// What is said of a model whose port another one has.
pub open spec fn duplicate_message(models: Seq<ModelConfigView>, i: int) -> Seq<char> {
    "duplicate port "@ + decimal(models[i].port as nat) + " for models '"@ + clashing_id(
        models,
        models[i].port,
        models[i].id,
        0,
    ) + "' and '"@ + models[i].id + "'"@
}

/// What is said of a model without a script.
pub open spec fn missing_message(model: ModelConfigView) -> Seq<char> {
    "script not found: "@ + model.script_path + " (configured for model '"@ + model.id + "')"@
}

/// The rule that a list of models breaks, where `existing` are the scripts that exist: there
/// must be a model, then no two may share a port, then every script must exist.
pub open spec fn broken_rule(models: Seq<ModelConfigView>, existing: Seq<Seq<char>>) -> Option<
    Seq<char>,
> {
    if models.len() == 0 {
        Some("no models configured — add at least one model to the config"@)
    } else {
        match first_duplicate(models, 0) {
            Some(i) => Some(duplicate_message(models, i)),
            None => match first_missing(models, existing, 0) {
                Some(i) => Some(missing_message(models[i])),
                None => None,
            },
        }
    }
}

/// What validation makes of a configuration.
pub open spec fn validated(config: ConfigView, existing: Seq<Seq<char>>) -> Result<
    ConfigView,
    ConfigErrorView,
> {
    match broken_rule(config.models, existing) {
        Some(message) => Err(ConfigErrorView::Validation(message)),
        None => Ok(config),
    }
}

/// What a result that holds a configuration says.
pub open spec fn config_result(r: Result<Config, ConfigError>) -> Result<
    ConfigView,
    ConfigErrorView,
> {
    match r {
        Ok(c) => Ok(c@),
        Err(e) => Err(e@),
    }
}

proof fn lemma_first_duplicate(models: Seq<ModelConfigView>, from: int)
    requires
        0 <= from,
    ensures
        first_duplicate(models, from) is None <==> forall|i: int|
            from <= i < models.len() ==> !#[trigger] port_taken_before(models, i),
    decreases models.len() - from,
{
    if from < models.len() && !port_taken_before(models, from) {
        lemma_first_duplicate(models, from + 1);
    }
}

proof fn lemma_first_missing(models: Seq<ModelConfigView>, existing: Seq<Seq<char>>, from: int)
    requires
        0 <= from,
    ensures
        first_missing(models, existing, from) is None <==> forall|i: int|
            from <= i < models.len() ==> existing.contains((#[trigger] models[i]).script_path),
    decreases models.len() - from,
{
    if from < models.len() && existing.contains(models[from].script_path) {
        lemma_first_missing(models, existing, from + 1);
    }
}

/// A configuration passes validation exactly when it has a model, no two models share a port
/// and every script exists; and it passes unchanged.
pub proof fn law_valid_configurations(config: ConfigView, existing: Seq<Seq<char>>)
    ensures
        validated(config, existing) is Ok <==> {
            &&& config.models.len() > 0
            &&& forall|i: int, j: int|
                0 <= i < j < config.models.len() ==> (#[trigger] config.models[i]).port != (
                #[trigger] config.models[j]).port
            &&& forall|i: int|
                0 <= i < config.models.len() ==> existing.contains(
                    (#[trigger] config.models[i]).script_path,
                )
        },
        validated(config, existing) matches Ok(c) ==> c == config,
{
    let models = config.models;
    lemma_first_duplicate(models, 0);
    lemma_first_missing(models, existing, 0);
    if first_duplicate(models, 0) is None {
        assert forall|i: int, j: int| 0 <= i < j < models.len() implies (#[trigger] models[i]).port
            != (#[trigger] models[j]).port by {
            assert(!port_taken_before(models, j));
        }
    } else {
        let k = choose|k: int| 0 <= k < models.len() && #[trigger] port_taken_before(models, k);
        let j = choose|j: int| 0 <= j < k && (#[trigger] models[j]).port == models[k].port;
        assert(models[j].port == models[k].port);
    }
}

/// The global settings have no part in validation: with other settings a configuration passes
/// or fails as before.
pub proof fn law_validation_ignores_settings(
    config: ConfigView,
    global: GlobalSettingsView,
    existing: Seq<Seq<char>>,
)
    ensures
        validated(ConfigView { global, ..config }, existing) == (match validated(config, existing) {
            Ok(c) => Ok::<ConfigView, ConfigErrorView>(ConfigView { global, ..config }),
            Err(e) => Err(e),
        }),
{
}

/// What was found at the place of the configuration file.
#[derive(Debug)]
pub enum ConfigSource {
    /// No file.
    Missing,
    /// A file that could not be read; the reason.
    Unreadable(IoError),
    /// A file that is no configuration; the reason.
    Unparsable(String),
    /// A configuration.
    Parsed(Config),
}

/// What loading makes of what was found.
pub open spec fn loaded(source: ConfigSource, existing: Seq<Seq<char>>) -> Result<
    ConfigView,
    ConfigErrorView,
> {
    match source {
        ConfigSource::Missing => Err(ConfigErrorView::NotFound),
        ConfigSource::Unreadable(e) => Err(ConfigErrorView::Io(e@)),
        ConfigSource::Unparsable(e) => Err(ConfigErrorView::TomlParse(e@)),
        ConfigSource::Parsed(c) => validated(c@, existing),
    }
}

/// The places where a configuration file may stand, the preferred one first.
pub open spec fn candidates(
    xdg_config_home: Option<Seq<char>>,
    home: Option<Seq<char>>,
) -> Seq<Seq<char>> {
    let first = match xdg_config_home {
        Some(xdg) => seq![joined(joined(xdg, "ai-switch"@), "config.toml"@)],
        None => seq![],
    };
    let second = match home {
        Some(h) => seq![
            joined(joined(joined(h, ".config"@), "ai-switch"@), "config.toml"@),
        ],
        None => seq![],
    };
    first + second
}

/// The first of `paths`, from `from` on, that is among `existing`.
pub open spec fn first_existing(
    paths: Seq<Seq<char>>,
    existing: Seq<Seq<char>>,
    from: int,
) -> Option<Seq<char>>
    decreases paths.len() - from,
{
    if from >= paths.len() {
        None
    } else if existing.contains(paths[from]) {
        Some(paths[from])
    } else {
        first_existing(paths, existing, from + 1)
    }
}

/// The directory for log files where none is set.
pub open spec fn default_logs(home: Option<Seq<char>>) -> Seq<char> {
    match home {
        Some(h) => joined(h, ".local/share/ai-switch/logs/"@),
        None => "logs/"@,
    }
}

impl ConfigView {
    /// The effective log directory.
    pub open spec fn log_dir(self, home: Option<Seq<char>>) -> Seq<char> {
        match self.global.log_dir {
            Some(dir) => dir,
            None => default_logs(home),
        }
    }

    /// The effective proxy port.
    pub open spec fn proxy_port(self) -> u16 {
        match self.global.proxy_port {
            Some(port) => port,
            None => 9080,
        }
    }

    /// The effective auto-restart setting.
    pub open spec fn auto_restart(self) -> bool {
        match self.global.auto_restart_on_context_full {
            Some(on) => on,
            None => true,
        }
    }
}

/// Whether `text` is among `list`.
pub fn listed(list: &Vec<String>, text: &str) -> (found: bool)
    ensures
        found == views(list@).contains(text@),
{
    let mut i: usize = 0;
    while i < list.len()
        invariant
            i <= list@.len(),
            forall|j: int| 0 <= j < i ==> (#[trigger] views(list@)[j]) != text@,
        decreases list@.len() - i,
    {
        if same_text(list[i].as_str(), text) {
            proof {
                assert(views(list@)[i as int] == text@);
            }
            return true;
        }
        i = i + 1;
    }
    false
}

impl Config {
    /// The places where a configuration file may stand, the preferred one first, given the
    /// environment variables `XDG_CONFIG_HOME` and `HOME`.
    pub fn candidate_paths(xdg_config_home: Option<&str>, home: Option<&str>) -> (paths: Vec<
        String,
    >)
        ensures
            views(paths@) == candidates(opt_str_view(xdg_config_home), opt_str_view(home)),
    {
        let mut paths: Vec<String> = Vec::new();
        if let Some(xdg) = xdg_config_home {
            let dir = join_path(xdg, "ai-switch");
            paths.push(join_path(dir.as_str(), "config.toml"));
        }
        if let Some(h) = home {
            let config_home = join_path(h, ".config");
            let dir = join_path(config_home.as_str(), "ai-switch");
            paths.push(join_path(dir.as_str(), "config.toml"));
        }
        proof {
            assert(views(paths@) =~= candidates(opt_str_view(xdg_config_home), opt_str_view(home)));
        }
        paths
    }

    /// The path of the configuration file: the first candidate that is among `existing`.
    pub fn resolve_path(
        xdg_config_home: Option<&str>,
        home: Option<&str>,
        existing: &Vec<String>,
    ) -> (path: Option<String>)
        ensures
            opt_view(path) == first_existing(
                candidates(opt_str_view(xdg_config_home), opt_str_view(home)),
                views(existing@),
                0,
            ),
    {
        let paths = Config::candidate_paths(xdg_config_home, home);
        let mut i: usize = 0;
        while i < paths.len()
            invariant
                i <= paths@.len(),
                views(paths@) == candidates(opt_str_view(xdg_config_home), opt_str_view(home)),
                first_existing(views(paths@), views(existing@), 0) == first_existing(
                    views(paths@),
                    views(existing@),
                    i as int,
                ),
            decreases paths@.len() - i,
        {
            if listed(existing, paths[i].as_str()) {
                return Some(paths[i].clone());
            }
            i = i + 1;
        }
        None
    }

    /// Loads and validates a configuration; `existing_scripts` are the script paths that exist.
    pub fn load(source: ConfigSource, path: &str, existing_scripts: &Vec<String>) -> (r: Result<
        Config,
        ConfigError,
    >)
        ensures
            config_result(r) == loaded(source, views(existing_scripts@)),
    {
        match source {
            ConfigSource::Missing => Err(ConfigError::NotFound),
            ConfigSource::Unreadable(e) => Err(ConfigError::Io(e)),
            ConfigSource::Unparsable(e) => Err(ConfigError::TomlParse(e)),
            ConfigSource::Parsed(c) => Config::validate(&c, path, existing_scripts),
        }
    }

    /// The id that stands first in the complaint about model number `at`.
    fn find_clashing_id(config: &Config, at: usize) -> (id: String)
        requires
            at < config.models@.len(),
        ensures
            id@ == clashing_id(
                config@.models,
                config.models@[at as int].port,
                config.models@[at as int].id@,
                0,
            ),
    {
        let port: u16 = config.models[at].port;
        let mut i: usize = 0;
        while i < config.models.len()
            invariant
                i <= config.models@.len(),
                at < config.models@.len(),
                port == config.models@[at as int].port,
                clashing_id(config@.models, port, config.models@[at as int].id@, 0) == clashing_id(
                    config@.models,
                    port,
                    config.models@[at as int].id@,
                    i as int,
                ),
            decreases config.models@.len() - i,
        {
            if config.models[i].port == port && !same_text(
                config.models[i].id.as_str(),
                config.models[at].id.as_str(),
            ) {
                return config.models[i].id.clone();
            }
            i = i + 1;
        }
        config.models[at].id.clone()
    }

    /// Validates a configuration; `existing_scripts` are the script paths that exist.
    pub fn validate(config: &Self, _config_path: &str, existing_scripts: &Vec<String>) -> (r:
        Result<Self, ConfigError>)
        ensures
            config_result(r) == validated(config@, views(existing_scripts@)),
    {
        let ghost models = config@.models;
        if config.models.len() == 0 {
            return Err(
                ConfigError::Validation(
                    "no models configured — add at least one model to the config".to_owned(),
                ),
            );
        }
        let mut seen_ports: std::collections::HashSet<u16> = std::collections::HashSet::new();
        let mut i: usize = 0;
        while i < config.models.len()
            invariant
                i <= config.models@.len(),
                models == config@.models,
                config.models@.len() > 0,
                forall|p: u16| #[trigger]
                    seen_ports@.contains(p) <==> exists|j: int|
                        0 <= j < i && (#[trigger] models[j]).port == p,
                first_duplicate(models, 0) == first_duplicate(models, i as int),
            decreases config.models@.len() - i,
        {
            let port: u16 = config.models[i].port;
            let ghost seen_before = seen_ports@;
            let fresh: bool = seen_ports.insert(port);
            proof {
                assert(models[i as int].port == port);
                assert(port_taken_before(models, i as int) <==> seen_before.contains(port));
            }
            if !fresh {
                let clash = Config::find_clashing_id(config, i);
                let mut message = "duplicate port ".to_owned();
                append_decimal(&mut message, port as u64);
                message.append(" for models '");
                message.append(clash.as_str());
                message.append("' and '");
                message.append(config.models[i].id.as_str());
                message.append("'");
                return Err(ConfigError::Validation(message));
            }
            proof {
                assert forall|p: u16| #[trigger]
                    seen_ports@.contains(p) <==> exists|j: int|
                        0 <= j < i + 1 && (#[trigger] models[j]).port == p by {
                    if seen_ports@.contains(p) {
                        if seen_before.contains(p) {
                            let j = choose|j: int| 0 <= j < i && (#[trigger] models[j]).port == p;
                            assert(models[j].port == p);
                        } else {
                            assert(models[i as int].port == p);
                        }
                    }
                }
            }
            i = i + 1;
        }
        let mut k: usize = 0;
        while k < config.models.len()
            invariant
                k <= config.models@.len(),
                models == config@.models,
                models.len() > 0,
                first_duplicate(models, 0) is None,
                first_missing(models, views(existing_scripts@), 0) == first_missing(
                    models,
                    views(existing_scripts@),
                    k as int,
                ),
            decreases config.models@.len() - k,
        {
            if !listed(existing_scripts, config.models[k].script_path.as_str()) {
                let mut message = "script not found: ".to_owned();
                message.append(config.models[k].script_path.as_str());
                message.append(" (configured for model '");
                message.append(config.models[k].id.as_str());
                message.append("')");
                return Err(ConfigError::Validation(message));
            }
            k = k + 1;
        }
        Ok(config.clone())
    }

    /// The default log directory, given the environment variable `HOME`.
    pub fn default_log_dir(home: Option<&str>) -> (dir: String)
        ensures
            dir@ == default_logs(opt_str_view(home)),
    {
        match home {
            Some(h) => join_path(h, ".local/share/ai-switch/logs/"),
            None => "logs/".to_owned(),
        }
    }

    /// The default proxy port.
    pub fn default_proxy_port() -> (port: u16)
        ensures
            port == 9080,
    {
        9080
    }

    /// The default auto-restart setting.
    pub fn default_auto_restart_on_context_full() -> (on: bool)
        ensures
            on,
    {
        true
    }

    /// The effective log directory, given the environment variable `HOME`.
    pub fn log_dir(&self, home: Option<&str>) -> (dir: String)
        ensures
            dir@ == self@.log_dir(opt_str_view(home)),
    {
        match &self.global.log_dir {
            Some(dir) => dir.clone(),
            None => Config::default_log_dir(home),
        }
    }

    /// The effective proxy port.
    pub fn proxy_port(&self) -> (port: u16)
        ensures
            port == self@.proxy_port(),
    {
        match self.global.proxy_port {
            Some(port) => port,
            None => Config::default_proxy_port(),
        }
    }

    /// The effective auto-restart setting.
    pub fn auto_restart_on_context_full(&self) -> (on: bool)
        ensures
            on == self@.auto_restart(),
    {
        match self.global.auto_restart_on_context_full {
            Some(on) => on,
            None => Config::default_auto_restart_on_context_full(),
        }
    }

    /// The number of the first model with the given id.
    pub fn find_model(&self, id: &str) -> (at: Option<usize>)
        ensures
            match at {
                Some(i) => model_index(self@.models, id@, 0) == Some(i as int) && i
                    < self.models@.len(),
                None => model_index(self@.models, id@, 0) is None,
            },
    {
        let mut i: usize = 0;
        while i < self.models.len()
            invariant
                i <= self.models@.len(),
                model_index(self@.models, id@, 0) == model_index(self@.models, id@, i as int),
            decreases self.models@.len() - i,
        {
            if same_text(self.models[i].id.as_str(), id) {
                return Some(i);
            }
            i = i + 1;
        }
        None
    }
}

/// An example configuration file.
pub const EXAMPLE_CONFIG: &'static str = "# ai-switch configuration.
# Place it at ~/.config/ai-switch/config.toml.

schema_version = 1

# One entry per model. No two models may share a port, and every script must exist.
[[models]]
id = \"llama32-1b\"
name = \"Llama 3.2 1B Instruct\"
script_path = \"/home/user/models/run-llama.sh\"
port = 8081
# How long the server may take to become ready, in seconds.
health_timeout_sec = 30

[global]
# An empty directory stands for ~/.local/share/ai-switch/logs/.
log_dir = \"\"
proxy_port = 9080
auto_restart_on_context_full = true
";

/// An example `config.toml` for first-run reference.
pub fn example_config() -> (text: &'static str)
    ensures
        text@ == EXAMPLE_CONFIG@,
{
    EXAMPLE_CONFIG
}

/// Each error says what went wrong, with the reason behind it.
pub proof fn law_config_messages(io: IoErrorView, reason: Seq<char>)
    ensures
        ConfigErrorView::Io(io).message() == "I/O error reading config: "@ + io.text,
        ConfigErrorView::TomlParse(reason).message() == "TOML parse error: "@ + reason,
        ConfigErrorView::Validation(reason).message() == "configuration error: "@ + reason,
        ConfigErrorView::NotFound.message() == "no config file found at any expected location"@,
{
}

/// A configuration without models is refused for that reason, whatever its settings are.
pub proof fn law_empty_configuration_is_refused(config: ConfigView, existing: Seq<Seq<char>>)
    requires
        config.models.len() == 0,
    ensures
        validated(config, existing) == Err::<ConfigView, ConfigErrorView>(
            ConfigErrorView::Validation(
                "no models configured — add at least one model to the config"@,
            ),
        ),
{
}

proof fn lemma_first_duplicate_is(models: Seq<ModelConfigView>, from: int, i: int)
    requires
        0 <= from <= i < models.len(),
        port_taken_before(models, i),
        forall|a: int, b: int|
            0 <= a < b < i ==> (#[trigger] models[a]).port != (#[trigger] models[b]).port,
    ensures
        first_duplicate(models, from) == Some(i),
    decreases i - from,
{
    if from < i {
        assert(!port_taken_before(models, from)) by {
            if port_taken_before(models, from) {
                let a = choose|a: int| 0 <= a < from && (#[trigger] models[a]).port
                    == models[from].port;
                assert(models[a].port != models[from].port);
            }
        }
        lemma_first_duplicate_is(models, from + 1, i);
    }
}

proof fn lemma_clashing_id_is(
    models: Seq<ModelConfigView>,
    port: u16,
    id: Seq<char>,
    from: int,
    j: int,
)
    requires
        0 <= from <= j < models.len(),
        models[j].port == port,
        models[j].id != id,
        forall|k: int| from <= k < j ==> (#[trigger] models[k]).port != port || models[k].id == id,
    ensures
        clashing_id(models, port, id, from) == models[j].id,
    decreases j - from,
{
    if from < j {
        assert(models[from].port != port || models[from].id == id);
        lemma_clashing_id_is(models, port, id, from + 1, j);
    }
}

/// The first model whose port an earlier one has is reported, together with that earlier one,
/// before any script is looked for.
pub proof fn law_duplicate_port_is_reported(
    config: ConfigView,
    existing: Seq<Seq<char>>,
    j: int,
    i: int,
)
    requires
        0 <= j < i < config.models.len(),
        config.models[j].port == config.models[i].port,
        config.models[j].id != config.models[i].id,
        forall|a: int, b: int|
            0 <= a < b < i ==> (#[trigger] config.models[a]).port != (
            #[trigger] config.models[b]).port,
    ensures
        validated(config, existing) == Err::<ConfigView, ConfigErrorView>(
            ConfigErrorView::Validation(
                "duplicate port "@ + decimal(config.models[i].port as nat) + " for models '"@
                    + config.models[j].id + "' and '"@ + config.models[i].id + "'"@,
            ),
        ),
{
    let models = config.models;
    assert(port_taken_before(models, i)) by {
        assert(models[j].port == models[i].port);
    }
    lemma_first_duplicate_is(models, 0, i);
    assert forall|k: int| 0 <= k < j implies (#[trigger] models[k]).port != models[i].port
        || models[k].id == models[i].id by {
        assert(models[k].port != models[j].port);
    }
    lemma_clashing_id_is(models, models[i].port, models[i].id, 0, j);
}

proof fn lemma_first_missing_is(
    models: Seq<ModelConfigView>,
    existing: Seq<Seq<char>>,
    from: int,
    i: int,
)
    requires
        0 <= from <= i < models.len(),
        !existing.contains(models[i].script_path),
        forall|j: int| 0 <= j < i ==> existing.contains((#[trigger] models[j]).script_path),
    ensures
        first_missing(models, existing, from) == Some(i),
    decreases i - from,
{
    if from < i {
        assert(existing.contains(models[from].script_path));
        lemma_first_missing_is(models, existing, from + 1, i);
    }
}

/// Where all ports differ, the first model whose script does not exist is reported.
pub proof fn law_missing_script_is_reported(config: ConfigView, existing: Seq<Seq<char>>, i: int)
    requires
        0 <= i < config.models.len(),
        forall|a: int, b: int|
            0 <= a < b < config.models.len() ==> (#[trigger] config.models[a]).port != (
            #[trigger] config.models[b]).port,
        !existing.contains(config.models[i].script_path),
        forall|j: int| 0 <= j < i ==> existing.contains((#[trigger] config.models[j]).script_path),
    ensures
        validated(config, existing) == Err::<ConfigView, ConfigErrorView>(
            ConfigErrorView::Validation(
                "script not found: "@ + config.models[i].script_path + " (configured for model '"@
                    + config.models[i].id + "')"@,
            ),
        ),
{
    let models = config.models;
    lemma_first_duplicate(models, 0);
    assert forall|k: int| 0 <= k < models.len() implies !#[trigger] port_taken_before(
        models,
        k,
    ) by {
        if port_taken_before(models, k) {
            let a = choose|a: int| 0 <= a < k && (#[trigger] models[a]).port == models[k].port;
            assert(models[a].port != models[k].port);
        }
    }
    lemma_first_missing_is(models, existing, 0, i);
}

/// Loading fails as the file does: missing, unreadable and unparsable files each with their own
/// error, and a configuration that was read is validated.
pub proof fn law_loading(
    io: IoError,
    reason: String,
    config: Config,
    existing: Seq<Seq<char>>,
)
    ensures
        loaded(ConfigSource::Missing, existing) == Err::<ConfigView, ConfigErrorView>(
            ConfigErrorView::NotFound,
        ),
        loaded(ConfigSource::Unreadable(io), existing) == Err::<ConfigView, ConfigErrorView>(
            ConfigErrorView::Io(io@),
        ),
        loaded(ConfigSource::Unparsable(reason), existing) == Err::<ConfigView, ConfigErrorView>(
            ConfigErrorView::TomlParse(reason@),
        ),
        loaded(ConfigSource::Parsed(config), existing) == validated(config@, existing),
{
}

/// The configuration file is the one under `XDG_CONFIG_HOME` where that exists, else the one
/// under `HOME` where that exists, else there is none.
pub proof fn law_configuration_file(xdg: Seq<char>, home: Seq<char>, existing: Seq<Seq<char>>)
    ensures
        ({
            let preferred = joined(joined(xdg, "ai-switch"@), "config.toml"@);
            let fallback = joined(joined(joined(home, ".config"@), "ai-switch"@), "config.toml"@);
            let only = if existing.contains(fallback) {
                Some(fallback)
            } else {
                None
            };
            &&& first_existing(candidates(Some(xdg), Some(home)), existing, 0) == if existing.contains(
                preferred,
            ) {
                Some(preferred)
            } else {
                only
            }
            &&& first_existing(candidates(None, Some(home)), existing, 0) == only
            &&& first_existing(candidates(Some(xdg), None), existing, 0) == if existing.contains(
                preferred,
            ) {
                Some(preferred)
            } else {
                None
            }
            &&& first_existing(candidates(None, None), existing, 0) is None
        }),
{
    reveal_with_fuel(first_existing, 3);
}

/// A setting that is set is the one in effect, and one that is not has its default: the logs go
/// below the home directory, or to `logs/` where there is none, the proxy has port 9080, and a
/// full context leads to a restart.
pub proof fn law_effective_settings(
    config: ConfigView,
    dir: Seq<char>,
    port: u16,
    on: bool,
    home: Option<Seq<char>>,
)
    ensures
        config.global.log_dir == Some(dir) ==> config.log_dir(home) == dir,
        config.global.log_dir is None ==> config.log_dir(home) == match home {
            Some(h) => joined(h, ".local/share/ai-switch/logs/"@),
            None => "logs/"@,
        },
        config.global.proxy_port == Some(port) ==> config.proxy_port() == port,
        config.global.proxy_port is None ==> config.proxy_port() == 9080,
        config.global.auto_restart_on_context_full == Some(on) ==> config.auto_restart() == on,
        config.global.auto_restart_on_context_full is None ==> config.auto_restart(),
{
}

/// An empty path stands for none, and any other for itself.
pub proof fn law_empty_path_stands_for_none(path: Seq<char>)
    ensures
        configured_path(None) is None,
        configured_path(Some(path)) is None <==> path.len() == 0,
        path.len() > 0 ==> configured_path(Some(path)) == Some(path),
{
}

proof fn lemma_no_clashing_id(models: Seq<ModelConfigView>, port: u16, id: Seq<char>, from: int)
    requires
        0 <= from,
        forall|k: int|
            from <= k < models.len() ==> (#[trigger] models[k]).port != port || models[k].id == id,
    ensures
        clashing_id(models, port, id, from) == id,
    decreases models.len() - from,
{
    if from < models.len() {
        assert(models[from].port != port || models[from].id == id);
        lemma_no_clashing_id(models, port, id, from + 1);
    }
}

/// Where all models on the port that occurs twice have one id, that id is named twice.
pub proof fn law_duplicate_model_is_reported(
    config: ConfigView,
    existing: Seq<Seq<char>>,
    j: int,
    i: int,
)
    requires
        0 <= j < i < config.models.len(),
        config.models[j].port == config.models[i].port,
        forall|k: int|
            0 <= k < config.models.len() ==> (#[trigger] config.models[k]).port
                != config.models[i].port || config.models[k].id == config.models[i].id,
        forall|a: int, b: int|
            0 <= a < b < i ==> (#[trigger] config.models[a]).port != (
            #[trigger] config.models[b]).port,
    ensures
        validated(config, existing) == Err::<ConfigView, ConfigErrorView>(
            ConfigErrorView::Validation(
                "duplicate port "@ + decimal(config.models[i].port as nat) + " for models '"@
                    + config.models[i].id + "' and '"@ + config.models[i].id + "'"@,
            ),
        ),
{
    let models = config.models;
    assert(port_taken_before(models, i)) by {
        assert(models[j].port == models[i].port);
    }
    lemma_first_duplicate_is(models, 0, i);
    lemma_no_clashing_id(models, models[i].port, models[i].id, 0);
}

} // verus!
