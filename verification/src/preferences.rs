//! Preferences: the form for the global settings, and what saving it makes of a configuration.

use vstd::prelude::*;
use vstd::string::*;

use crate::config::clone_opt;
use crate::config::configured_path;
use crate::config::loaded;
use crate::config::opt_str_view;
use crate::config::opt_view;
use crate::config::validated;
use crate::config::Config;
use crate::config::ConfigSource;
use crate::config::ConfigView;
use crate::config::GlobalSettingsView;
use crate::config::law_validation_ignores_settings;
use crate::paths::joined;
use crate::scan::lemma_number_of_decimal;
use crate::scan::number;
use crate::scan::parse_number;
use crate::scan::views;
use crate::text::decimal;
use crate::text::decimal_text;

verus! {

/// The form for the global settings: the texts that were typed in, and the switch.
#[derive(Debug)]
pub struct PreferencesDialog {
    pub log_dir_text: String,
    pub proxy_port_text: String,
    pub auto_restart: bool,
}

/// What a `PreferencesDialog` holds.
pub struct FormView {
    pub log_dir_text: Seq<char>,
    pub proxy_port_text: Seq<char>,
    pub auto_restart: bool,
}

impl View for PreferencesDialog {
    type V = FormView;

    open spec fn view(&self) -> FormView {
        FormView {
            log_dir_text: self.log_dir_text@,
            proxy_port_text: self.proxy_port_text@,
            auto_restart: self.auto_restart,
        }
    }
}

/// The values from the preferences form.
#[derive(Debug)]
pub struct PreferencesValues {
    pub log_dir: Option<String>,
    pub proxy_port: Option<u16>,
    pub auto_restart_on_context_full: bool,
}

/// What a `PreferencesValues` holds.
pub struct ValuesView {
    pub log_dir: Option<Seq<char>>,
    pub proxy_port: Option<u16>,
    pub auto_restart_on_context_full: bool,
}

impl View for PreferencesValues {
    type V = ValuesView;

    open spec fn view(&self) -> ValuesView {
        ValuesView {
            log_dir: opt_view(self.log_dir),
            proxy_port: self.proxy_port,
            auto_restart_on_context_full: self.auto_restart_on_context_full,
        }
    }
}

/// The form as it is opened on a configuration.
pub open spec fn opened(config: ConfigView, home: Option<Seq<char>>) -> FormView {
    FormView {
        log_dir_text: config.log_dir(home),
        proxy_port_text: decimal(config.proxy_port() as nat),
        auto_restart: config.auto_restart(),
    }
}

impl FormView {
    /// The values of the form: no log directory where its text is empty, and no proxy port where
    /// its text is not one.
    pub open spec fn values(self) -> ValuesView {
        ValuesView {
            log_dir: if self.log_dir_text.len() == 0 {
                None
            } else {
                Some(self.log_dir_text)
            },
            proxy_port: match number(self.proxy_port_text, 10, u16::MAX as nat) {
                Some(port) => Some(port as u16),
                None => None,
            },
            auto_restart_on_context_full: self.auto_restart,
        }
    }
}

impl ValuesView {
    /// The configuration with these values for its global settings.
    pub open spec fn applied(self, config: ConfigView) -> ConfigView {
        ConfigView {
            global: GlobalSettingsView {
                log_dir: self.log_dir,
                proxy_port: self.proxy_port,
                auto_restart_on_context_full: Some(self.auto_restart_on_context_full),
            },
            ..config
        }
    }

    /// The configuration to be written, or what is said where there is none: the configuration
    /// must load, and with the new values it must still be valid.
    pub open spec fn saved(
        self,
        source: ConfigSource,
        scripts_at_load: Seq<Seq<char>>,
        scripts_at_save: Seq<Seq<char>>,
    ) -> Result<ConfigView, Seq<char>> {
        match loaded(source, scripts_at_load) {
            Err(e) => Err("Failed to load config: "@ + e.message()),
            Ok(config) => match validated(self.applied(config), scripts_at_save) {
                Err(e) => Err("Config validation error: "@ + e.message()),
                Ok(c) => Ok(c),
            },
        }
    }
}

/// What the outcome of a save says.
pub open spec fn save_result(r: Result<Config, String>) -> Result<ConfigView, Seq<char>> {
    match r {
        Ok(c) => Ok(c@),
        Err(message) => Err(message@),
    }
}

impl PreferencesValues {
    /// The configuration with these values for its global settings.
    pub fn apply(&self, config: Config) -> (changed: Config)
        ensures
            changed@ == self@.applied(config@),
    {
        let mut changed = config;
        changed.global.log_dir = clone_opt(&self.log_dir);
        changed.global.proxy_port = self.proxy_port;
        changed.global.auto_restart_on_context_full = Some(self.auto_restart_on_context_full);
        changed
    }
}

/// Puts the given values into the configuration that was found, and gives back what is to be
/// written. The scripts that exist are looked for twice, when the configuration is loaded and
/// when it is saved.
pub fn save_preferences(
    values: &PreferencesValues,
    source: ConfigSource,
    config_path: &str,
    scripts_at_load: &Vec<String>,
    scripts_at_save: &Vec<String>,
) -> (r: Result<Config, String>)
    ensures
        save_result(r) == values@.saved(
            source,
            views(scripts_at_load@),
            views(scripts_at_save@),
        ),
{
    match Config::load(source, config_path, scripts_at_load) {
        Err(e) => Err("Failed to load config: ".to_owned().concat(e.to_string().as_str())),
        Ok(config) => {
            let changed = values.apply(config);
            match Config::validate(&changed, config_path, scripts_at_save) {
                Err(e) => Err("Config validation error: ".to_owned().concat(e.to_string().as_str())),
                Ok(c) => Ok(c),
            }
        },
    }
}

/// Why a configuration could not be put on disk.
#[derive(Debug)]
pub enum WriteFailure {
    /// It could not be written as text; the reason.
    Serialize(String),
    /// The file could not be written; the reason.
    Write(String),
}

impl WriteFailure {
    /// The message of the failure.
    pub fn to_string(&self) -> (message: String)
        ensures
            message@ == match self {
                WriteFailure::Serialize(e) => "Failed to serialize config: "@ + e@,
                WriteFailure::Write(e) => "Failed to write config file: "@ + e@,
            },
    {
        match self {
            WriteFailure::Serialize(e) => "Failed to serialize config: ".to_owned().concat(
                e.as_str(),
            ),
            WriteFailure::Write(e) => "Failed to write config file: ".to_owned().concat(e.as_str()),
        }
    }
}

impl PreferencesDialog {
    /// The form, opened on a configuration; `home` is the environment variable `HOME`.
    pub fn new(config: &Config, home: Option<&str>) -> (form: Self)
        ensures
            form@ == opened(config@, opt_str_view(home)),
    {
        PreferencesDialog {
            log_dir_text: config.log_dir(home),
            proxy_port_text: decimal_text(config.proxy_port() as u64),
            auto_restart: config.auto_restart_on_context_full(),
        }
    }

    /// The values of the form.
    pub fn values(&self) -> (values: PreferencesValues)
        ensures
            values@ == self@.values(),
    {
        let log_dir = if self.log_dir_text.as_str().is_empty() {
            None
        } else {
            Some(self.log_dir_text.clone())
        };
        let proxy_port: Option<u16> = match parse_number(
            self.proxy_port_text.as_str(),
            10,
            u16::MAX as u64,
        ) {
            Some(port) => Some(port as u16),
            None => None,
        };
        PreferencesValues { log_dir, proxy_port, auto_restart_on_context_full: self.auto_restart }
    }

    /// Puts the values of the form into the configuration that was found, and gives back what is
    /// to be written.
    pub fn save(
        &self,
        source: ConfigSource,
        config_path: &str,
        scripts_at_load: &Vec<String>,
        scripts_at_save: &Vec<String>,
    ) -> (r: Result<Config, String>)
        ensures
            save_result(r) == self@.values().saved(
                source,
                views(scripts_at_load@),
                views(scripts_at_save@),
            ),
    {
        save_preferences(&self.values(), source, config_path, scripts_at_load, scripts_at_save)
    }
}

/// Saving preferences leaves everything but the global settings as it was, and fails only where
/// the configuration does not load, or a script is gone since.
pub proof fn law_saving_keeps_the_models(
    values: ValuesView,
    source: ConfigSource,
    scripts: Seq<Seq<char>>,
)
    ensures
        values.saved(source, scripts, scripts) is Ok <==> loaded(source, scripts) is Ok,
        values.saved(source, scripts, scripts) matches Ok(c) ==> (loaded(source, scripts) matches Ok(
            before,
        ) && c.models == before.models && c.schema_version == before.schema_version),
        values.saved(source, scripts, scripts) matches Ok(c) ==> c.global == (GlobalSettingsView {
            log_dir: values.log_dir,
            proxy_port: values.proxy_port,
            auto_restart_on_context_full: Some(values.auto_restart_on_context_full),
        }),
{
    match source {
        ConfigSource::Parsed(config) => {
            law_validation_ignores_settings(config@, values.applied(config@).global, scripts);
        },
        _ => {},
    }
}

/// The log directory of a form is one that a configuration file can hold: written there it is read
/// back as the same, so that what was saved is what is loaded.
pub proof fn law_saved_log_directory_is_read_back(form: FormView)
    ensures
        configured_path(form.values().log_dir) == form.values().log_dir,
{
}

/// A form that is saved as it was opened keeps every effective setting, where the log directory
/// has a name.
pub proof fn law_unedited_form_keeps_the_settings(config: ConfigView, home: Option<Seq<char>>)
    requires
        config.log_dir(home).len() > 0,
    ensures
        ({
            let after = opened(config, home).values().applied(config);
            &&& after.log_dir(home) == config.log_dir(home)
            &&& after.proxy_port() == config.proxy_port()
            &&& after.auto_restart() == config.auto_restart()
        }),
{
    lemma_number_of_decimal(config.proxy_port() as nat, u16::MAX as nat);
}

/// The form opens on what is in effect: the settings that are set, and the defaults for the others.
pub proof fn law_opened_forms(config: ConfigView, home: Seq<char>, dir: Seq<char>, port: u16, on: bool)
    ensures
        ({
            let form = opened(config, Some(home));
            let homeless = opened(config, None);
            &&& config.global.log_dir == Some(dir) ==> form.log_dir_text == dir
                && homeless.log_dir_text == dir
            &&& config.global.log_dir is None ==> form.log_dir_text == joined(
                home,
                ".local/share/ai-switch/logs/"@,
            ) && homeless.log_dir_text == "logs/"@
            &&& config.global.proxy_port == Some(port) ==> form.proxy_port_text == decimal(
                port as nat,
            )
            &&& config.global.proxy_port is None ==> form.proxy_port_text == decimal(9080)
            &&& config.global.auto_restart_on_context_full == Some(on) ==> form.auto_restart == on
            &&& config.global.auto_restart_on_context_full is None ==> form.auto_restart
        }),
{
}

/// The values of a form are its texts and its switch: an empty directory is none, a port in decimal
/// is that port, and a text that is no number up to 65535 is none.
pub proof fn law_values_of_a_form(form: FormView, port: u16)
    ensures
        form.log_dir_text.len() == 0 ==> form.values().log_dir is None,
        form.log_dir_text.len() > 0 ==> form.values().log_dir == Some(form.log_dir_text),
        form.proxy_port_text == decimal(port as nat) ==> form.values().proxy_port == Some(port),
        number(form.proxy_port_text, 10, 65535) is None ==> form.values().proxy_port is None,
        form.values().auto_restart_on_context_full == form.auto_restart,
{
    lemma_number_of_decimal(port as nat, u16::MAX as nat);
}

/// Values replace all three global settings and leave the rest of the configuration alone.
pub proof fn law_applied_values(values: ValuesView, config: ConfigView)
    ensures
        ({
            let after = values.applied(config);
            &&& after.models == config.models
            &&& after.schema_version == config.schema_version
            &&& after.global.log_dir == values.log_dir
            &&& after.global.proxy_port == values.proxy_port
            &&& after.global.auto_restart_on_context_full == Some(
                values.auto_restart_on_context_full,
            )
        }),
{
}

/// A save says what failed: the configuration did not load, or it is no longer valid with the new
/// values; otherwise it gives the configuration with those values.
pub proof fn law_saves(
    values: ValuesView,
    source: ConfigSource,
    at_load: Seq<Seq<char>>,
    at_save: Seq<Seq<char>>,
)
    ensures
        loaded(source, at_load) matches Err(e) ==> values.saved(source, at_load, at_save) == Err::<
            ConfigView,
            Seq<char>,
        >("Failed to load config: "@ + e.message()),
        loaded(source, at_load) matches Ok(config) ==> {
            &&& validated(values.applied(config), at_save) matches Err(e) ==> values.saved(
                source,
                at_load,
                at_save,
            ) == Err::<ConfigView, Seq<char>>("Config validation error: "@ + e.message())
            &&& validated(values.applied(config), at_save) is Ok ==> values.saved(
                source,
                at_load,
                at_save,
            ) == Ok::<ConfigView, Seq<char>>(values.applied(config))
        },
{
}

} // verus!
