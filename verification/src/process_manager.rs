//! Process lifecycle management: which model runs, and what starting, stopping and switching
//! does, one model at a time.
//!
//! An operation is a sequence of steps. Each step names one piece of outside work (terminate a
//! process group, wait for a port, probe a port, spawn a script); what came of it is handed
//! back, and the next step follows.

use vstd::prelude::*;
use vstd::string::*;

use crate::config::lemma_model_index;
use crate::config::model_index;
use crate::config::opt_str_view;
use crate::config::Config;
use crate::config::ConfigError;
use crate::config::ConfigView;
use crate::config::ModelConfigView;
use crate::io_error::other_error;
use crate::io_error::IoError;
use crate::io_error::IoErrorView;
use crate::paths::joined;
use crate::text::append_decimal;
use crate::text::contains;
use crate::text::decimal;
use crate::text::has_text;
use crate::text::same_text;
use crate::text::signed_decimal;
use crate::text::signed_decimal_text;

verus! {

/// Error types for process management operations.
#[allow(inconsistent_fields)]
#[derive(Debug)]
pub enum ProcessError {
    AnotherModelRunning,
    NotRunning(String),
    PortOccupiedByUnknownProcess { pid: u32, port: u16 },
    Spawn(IoError),
    UnexpectedExit(i32),
    ShutdownTimeout(String),
    PortStillOccupied(u16),
    HealthCheckFailed(String),
    Io(IoError),
    Signal(IoError),
    CannotSignalOwnProcessGroup { pid: i32 },
}

/// What a `ProcessError` says.
#[allow(inconsistent_fields)]
pub enum ProcessErrorView {
    AnotherModelRunning,
    NotRunning(Seq<char>),
    PortOccupiedByUnknownProcess { pid: u32, port: u16 },
    Spawn(IoErrorView),
    UnexpectedExit(i32),
    ShutdownTimeout(Seq<char>),
    PortStillOccupied(u16),
    HealthCheckFailed(Seq<char>),
    Io(IoErrorView),
    Signal(IoErrorView),
    CannotSignalOwnProcessGroup { pid: i32 },
}

impl View for ProcessError {
    type V = ProcessErrorView;

    open spec fn view(&self) -> ProcessErrorView {
        match self {
            ProcessError::AnotherModelRunning => ProcessErrorView::AnotherModelRunning,
            ProcessError::NotRunning(id) => ProcessErrorView::NotRunning(id@),
            ProcessError::PortOccupiedByUnknownProcess {
                pid,
                port,
            } => ProcessErrorView::PortOccupiedByUnknownProcess { pid: *pid, port: *port },
            ProcessError::Spawn(e) => ProcessErrorView::Spawn(e@),
            ProcessError::UnexpectedExit(code) => ProcessErrorView::UnexpectedExit(*code),
            ProcessError::ShutdownTimeout(id) => ProcessErrorView::ShutdownTimeout(id@),
            ProcessError::PortStillOccupied(port) => ProcessErrorView::PortStillOccupied(*port),
            ProcessError::HealthCheckFailed(e) => ProcessErrorView::HealthCheckFailed(e@),
            ProcessError::Io(e) => ProcessErrorView::Io(e@),
            ProcessError::Signal(e) => ProcessErrorView::Signal(e@),
            ProcessError::CannotSignalOwnProcessGroup {
                pid,
            } => ProcessErrorView::CannotSignalOwnProcessGroup { pid: *pid },
        }
    }
}

impl ProcessErrorView {
    /// The message of the error.
    pub open spec fn message(self) -> Seq<char> {
        match self {
            ProcessErrorView::AnotherModelRunning => "another model is already running"@,
            ProcessErrorView::NotRunning(id) => "model '"@ + id + "' is not running"@,
            ProcessErrorView::PortOccupiedByUnknownProcess { pid, port } => "port "@ + decimal(
                port as nat,
            ) + " occupied by unknown process (pid: "@ + decimal(pid as nat) + ")"@,
            ProcessErrorView::Spawn(e) => "failed to spawn process: "@ + e.text,
            ProcessErrorView::UnexpectedExit(
                code,
            ) => "process exited unexpectedly with code: "@ + signed_decimal(code as int),
            ProcessErrorView::ShutdownTimeout(id) => "shutdown timeout exceeded for model '"@ + id
                + "'"@,
            ProcessErrorView::PortStillOccupied(port) => "port "@ + decimal(port as nat)
                + " still occupied after shutdown timeout"@,
            ProcessErrorView::HealthCheckFailed(e) => "health check failed during startup of '"@ + e
                + "'"@,
            ProcessErrorView::Io(e) => "I/O error: "@ + e.text,
            ProcessErrorView::Signal(e) => "signal error: "@ + e.text,
            ProcessErrorView::CannotSignalOwnProcessGroup {
                pid,
            } => "cannot signal process group — target is the current process group (pid: "@
                + signed_decimal(pid as int) + ")"@,
        }
    }
}

impl ProcessError {
    /// The message of the error.
    pub fn to_string(&self) -> (s: String)
        ensures
            s@ == self@.message(),
    {
        match self {
            ProcessError::AnotherModelRunning => "another model is already running".to_owned(),
            ProcessError::NotRunning(id) => "model '".to_owned().concat(id.as_str()).concat(
                "' is not running",
            ),
            ProcessError::PortOccupiedByUnknownProcess { pid, port } => {
                let mut s = "port ".to_owned();
                append_decimal(&mut s, *port as u64);
                s.append(" occupied by unknown process (pid: ");
                append_decimal(&mut s, *pid as u64);
                s.append(")");
                s
            },
            ProcessError::Spawn(e) => "failed to spawn process: ".to_owned().concat(e.text.as_str()),
            ProcessError::UnexpectedExit(
                code,
            ) => "process exited unexpectedly with code: ".to_owned().concat(
                signed_decimal_text(*code).as_str(),
            ),
            ProcessError::ShutdownTimeout(
                id,
            ) => "shutdown timeout exceeded for model '".to_owned().concat(id.as_str()).concat("'"),
            ProcessError::PortStillOccupied(port) => {
                let mut s = "port ".to_owned();
                append_decimal(&mut s, *port as u64);
                s.append(" still occupied after shutdown timeout");
                s
            },
            ProcessError::HealthCheckFailed(
                e,
            ) => "health check failed during startup of '".to_owned().concat(e.as_str()).concat(
                "'",
            ),
            ProcessError::Io(e) => "I/O error: ".to_owned().concat(e.text.as_str()),
            ProcessError::Signal(e) => "signal error: ".to_owned().concat(e.text.as_str()),
            ProcessError::CannotSignalOwnProcessGroup {
                pid,
            } => "cannot signal process group — target is the current process group (pid: ".to_owned().concat(
            signed_decimal_text(*pid).as_str()).concat(")"),
        }
    }

    /// The error for a configuration error that surfaced while a process was managed.
    pub fn from_config_error(e: &ConfigError) -> (r: ProcessError)
        ensures
            r@ == ProcessErrorView::Io(other_error("config error: "@ + e@.message())),
    {
        ProcessError::Io(
            IoError::other("config error: ".to_owned().concat(e.to_string().as_str())),
        )
    }

    /// The error for a file that is no TOML, found while a process was managed.
    pub fn from_toml_error(reason: &str) -> (r: ProcessError)
        ensures
            r@ == ProcessErrorView::Io(other_error("toml parse error: "@ + reason@)),
    {
        ProcessError::Io(IoError::other("toml parse error: ".to_owned().concat(reason)))
    }
}

/// What the outcome of an operation says.
pub open spec fn outcome(r: Result<(), ProcessError>) -> Result<(), ProcessErrorView> {
    match r {
        Ok(()) => Ok(()),
        Err(e) => Err(e@),
    }
}

/// Linux guard for a running model process.
#[derive(Debug, Clone, Copy)]
pub struct LinuxProcessGuard {
    pub pid: Option<i32>,
    pub port: u16,
    pub shutdown_timeout_sec: u16,
}

impl LinuxProcessGuard {
    /// The PID of the running process.
    pub fn pid(&self) -> (pid: Option<i32>)
        ensures
            pid == self.pid,
    {
        self.pid
    }
}

/// The current state of a model.
#[derive(Debug, PartialEq)]
pub enum ModelState {
    Stopped,
    Starting,
    Loading,
    Ready,
    Error(String),
}

/// What a `ModelState` says.
pub enum ModelStateView {
    Stopped,
    Starting,
    Loading,
    Ready,
    Error(Seq<char>),
}

impl View for ModelState {
    type V = ModelStateView;

    open spec fn view(&self) -> ModelStateView {
        match self {
            ModelState::Stopped => ModelStateView::Stopped,
            ModelState::Starting => ModelStateView::Starting,
            ModelState::Loading => ModelStateView::Loading,
            ModelState::Ready => ModelStateView::Ready,
            ModelState::Error(e) => ModelStateView::Error(e@),
        }
    }
}

impl Clone for ModelState {
    fn clone(&self) -> (r: Self)
        ensures
            r@ == self@,
    {
        match self {
            ModelState::Stopped => ModelState::Stopped,
            ModelState::Starting => ModelState::Starting,
            ModelState::Loading => ModelState::Loading,
            ModelState::Ready => ModelState::Ready,
            ModelState::Error(e) => ModelState::Error(e.clone()),
        }
    }
}

/// State of a network port.
#[derive(Debug, Clone, Copy, PartialEq, Eq, Structural)]
pub enum PortState {
    Free,
    OccupiedByModel,
    OccupiedByUnknown(u32),
}

/// A reply over HTTP: its status, and its body where that could be read.
#[derive(Debug)]
pub struct HttpReply {
    pub status: u16,
    pub body: Option<String>,
}

/// What a `HttpReply` says.
pub struct HttpReplyView {
    pub status: u16,
    pub body: Option<Seq<char>>,
}

impl View for HttpReply {
    type V = HttpReplyView;

    open spec fn view(&self) -> HttpReplyView {
        HttpReplyView { status: self.status, body: crate::config::opt_view(self.body) }
    }
}

/// A status that reports success.
pub open spec fn is_success(status: u16) -> bool {
    200 <= status < 300
}

impl HttpReplyView {
    /// The body of a reply that reports success.
    pub open spec fn success_body(self) -> Option<Seq<char>> {
        if is_success(self.status) {
            self.body
        } else {
            None
        }
    }
}

impl HttpReply {
    /// The body of a reply that reports success.
    pub fn success_body(&self) -> (body: Option<&String>)
        ensures
            match body {
                Some(b) => self@.success_body() == Some(b@),
                None => self@.success_body() is None,
            },
    {
        if 200 <= self.status && self.status < 300 {
            match &self.body {
                Some(b) => Some(b),
                None => None,
            }
        } else {
            None
        }
    }
}

/// A body that names an id and a model, as a llama-server's list of models does.
pub open spec fn lists_models(body: Seq<char>) -> bool {
    has_text(body, "\"id\""@) && has_text(body, "model"@)
}

/// A body that names an id or a model.
pub open spec fn mentions_model(body: Seq<char>) -> bool {
    has_text(body, "\"id\""@) || has_text(body, "model"@)
}

/// Whether a body names an id and a model.
pub fn body_lists_models(body: &str) -> (b: bool)
    ensures
        b == lists_models(body@),
{
    contains(body, "\"id\"") && contains(body, "model")
}

/// Whether a body names an id or a model.
pub fn body_mentions_model(body: &str) -> (b: bool)
    ensures
        b == mentions_model(body@),
{
    contains(body, "\"id\"") || contains(body, "model")
}

/// What was seen of a port: whether a connection to it was accepted, what `/v1/models` on it
/// replied, if anything, and which process holds it, where that could be found out.
#[derive(Debug)]
pub struct PortProbe {
    pub port: u16,
    pub connected: bool,
    pub reply: Option<HttpReply>,
    pub owner: Option<u32>,
}

impl PortProbe {
    /// The body of the reply, where there was one that reports success.
    pub open spec fn body(self) -> Option<Seq<char>> {
        match self.reply {
            Some(r) => r@.success_body(),
            None => None,
        }
    }

    /// The body of the reply, where there was one that reports success.
    pub fn reply_body(&self) -> (body: Option<&String>)
        ensures
            match body {
                Some(b) => self.body() == Some(b@),
                None => self.body() is None,
            },
    {
        match &self.reply {
            Some(r) => r.success_body(),
            None => None,
        }
    }

    /// The state of a port that accepted a connection and is no model server.
    pub open spec fn foreign(self) -> PortState {
        match self.owner {
            Some(pid) => PortState::OccupiedByUnknown(pid),
            None => PortState::OccupiedByUnknown(0),
        }
    }

    /// The state of a port that accepted a connection and is no model server.
    pub fn foreign_state(&self) -> (state: PortState)
        ensures
            state == self.foreign(),
    {
        match self.owner {
            Some(pid) => PortState::OccupiedByUnknown(pid),
            None => PortState::OccupiedByUnknown(0),
        }
    }
}

/// The state of a port that a model is to be started on, by what was seen of it.
pub open spec fn probed_state(probe: PortProbe) -> PortState {
    if !probe.connected {
        PortState::Free
    } else if probe.body() matches Some(body) && mentions_model(body) {
        PortState::OccupiedByModel
    } else {
        probe.foreign()
    }
}

/// A running model's metadata.
#[derive(Debug)]
pub struct RunningModel {
    pub id: String,
    pub guard: LinuxProcessGuard,
    pub state: ModelState,
}

/// What a `RunningModel` says.
pub struct RunningModelView {
    pub id: Seq<char>,
    pub guard: LinuxProcessGuard,
    pub state: ModelStateView,
}

impl View for RunningModel {
    type V = RunningModelView;

    open spec fn view(&self) -> RunningModelView {
        RunningModelView { id: self.id@, guard: self.guard, state: self.state@ }
    }
}

/// What an optional running model says.
pub open spec fn running_view(m: Option<RunningModel>) -> Option<RunningModelView> {
    match m {
        Some(r) => Some(r@),
        None => None,
    }
}

/// What follows when a model has been stopped.
#[derive(Debug)]
pub enum AfterStop {
    /// Nothing.
    Finish,
    /// Start the model with this id; a failed stop ends the operation.
    SwitchTo(String),
    /// Start the model with this id, whether or not it could be stopped.
    Restart(String),
}

/// What an `AfterStop` says.
pub enum AfterStopView {
    Finish,
    SwitchTo(Seq<char>),
    Restart(Seq<char>),
}

impl View for AfterStop {
    type V = AfterStopView;

    open spec fn view(&self) -> AfterStopView {
        match self {
            AfterStop::Finish => AfterStopView::Finish,
            AfterStop::SwitchTo(id) => AfterStopView::SwitchTo(id@),
            AfterStop::Restart(id) => AfterStopView::Restart(id@),
        }
    }
}

/// A model that is to be terminated through its guard.
#[derive(Debug)]
pub struct Stopping {
    pub id: String,
    pub port: u16,
    pub guard: LinuxProcessGuard,
    pub next: AfterStop,
}

/// A terminated model whose port is to become free within `timeout_ms` milliseconds.
#[derive(Debug)]
pub struct Releasing {
    pub id: String,
    pub port: u16,
    pub timeout_ms: u64,
    pub next: AfterStop,
}

/// A pause of `millis` milliseconds before the model with id `target` is started.
#[derive(Debug)]
pub struct Pausing {
    pub target: String,
    pub millis: u64,
}

/// A model that is to be started once its port was probed.
#[derive(Debug)]
pub struct Probing {
    pub id: String,
    pub port: u16,
    pub script_path: String,
}

/// A model whose script is to be spawned.
#[derive(Debug)]
pub struct Spawning {
    pub id: String,
    pub port: u16,
    pub script_path: String,
    pub log_dir: String,
}

/// The next step of an operation.
#[derive(Debug)]
pub enum Step {
    Terminate(Stopping),
    AwaitPortFree(Releasing),
    Pause(Pausing),
    ProbePort(Probing),
    Spawn(Spawning),
    Done(Result<(), ProcessError>),
}

/// What a `Step` says.
pub enum StepView {
    Terminate { id: Seq<char>, port: u16, guard: LinuxProcessGuard, next: AfterStopView },
    AwaitPortFree { id: Seq<char>, port: u16, timeout_ms: u64, next: AfterStopView },
    Pause { target: Seq<char>, millis: u64 },
    ProbePort { id: Seq<char>, port: u16, script_path: Seq<char> },
    Spawn { id: Seq<char>, port: u16, script_path: Seq<char>, log_dir: Seq<char> },
    Done(Result<(), ProcessErrorView>),
}

impl View for Step {
    type V = StepView;

    open spec fn view(&self) -> StepView {
        match self {
            Step::Terminate(s) => StepView::Terminate {
                id: s.id@,
                port: s.port,
                guard: s.guard,
                next: s.next@,
            },
            Step::AwaitPortFree(s) => StepView::AwaitPortFree {
                id: s.id@,
                port: s.port,
                timeout_ms: s.timeout_ms,
                next: s.next@,
            },
            Step::Pause(s) => StepView::Pause { target: s.target@, millis: s.millis },
            Step::ProbePort(s) => StepView::ProbePort {
                id: s.id@,
                port: s.port,
                script_path: s.script_path@,
            },
            Step::Spawn(s) => StepView::Spawn {
                id: s.id@,
                port: s.port,
                script_path: s.script_path@,
                log_dir: s.log_dir@,
            },
            Step::Done(r) => StepView::Done(outcome(*r)),
        }
    }
}

/// The pause between a stop and the start that follows it, in milliseconds.
pub const RELEASE_PAUSE_MS: u64 = 500;

/// How long the port of a terminated model may take to become free, in milliseconds.
pub const RELEASE_TIMEOUT_MS: u64 = 10000;

/// The moment between two looks at a port or a process, in milliseconds.
pub const LOOK_INTERVAL_MS: u64 = 100;

/// What a `ProcessManager` knows: the configuration, and which model runs.
pub struct ManagerView {
    pub config: ConfigView,
    pub running: Option<RunningModelView>,
}

/// The step after a stop that failed with `e`.
pub open spec fn stop_failed(next: AfterStopView, e: ProcessErrorView) -> StepView {
    match next {
        AfterStopView::Restart(id) => StepView::Pause { target: id, millis: RELEASE_PAUSE_MS },
        _ => StepView::Done(Err(e)),
    }
}

/// The step after a stop that succeeded.
pub open spec fn stop_succeeded(next: AfterStopView) -> StepView {
    match next {
        AfterStopView::Finish => StepView::Done(Ok(())),
        AfterStopView::SwitchTo(id) => StepView::Pause { target: id, millis: RELEASE_PAUSE_MS },
        AfterStopView::Restart(id) => StepView::Pause { target: id, millis: RELEASE_PAUSE_MS },
    }
}

/// What is said of a model whose port a model server holds already.
pub open spec fn already_running_message(id: Seq<char>, port: u16) -> Seq<char> {
    "model '"@ + id + "' is already running on port "@ + decimal(port as nat)
}

impl ManagerView {
    /// The model with this id is the one that runs.
    pub open spec fn runs(self, id: Seq<char>) -> bool {
        self.running matches Some(r) && r.id == id
    }

    /// The first step of a start.
    pub open spec fn start(self, id: Seq<char>) -> StepView {
        if self.running is Some {
            StepView::Done(Err(ProcessErrorView::AnotherModelRunning))
        } else {
            match model_index(self.config.models, id, 0) {
                None => StepView::Done(Err(ProcessErrorView::NotRunning(id))),
                Some(i) => StepView::ProbePort {
                    id,
                    port: self.config.models[i].port,
                    script_path: self.config.models[i].script_path,
                },
            }
        }
    }

    /// The first step of a stop with `next` to follow.
    pub open spec fn stop(self, id: Seq<char>, next: AfterStopView) -> StepView {
        match (self.running, model_index(self.config.models, id, 0)) {
            (Some(r), Some(i)) if r.id == id => StepView::Terminate {
                id,
                port: self.config.models[i].port,
                guard: r.guard,
                next,
            },
            _ => stop_failed(next, ProcessErrorView::NotRunning(id)),
        }
    }

    /// The first step of stopping whatever runs.
    pub open spec fn stop_all(self) -> StepView {
        match self.running {
            None => StepView::Done(Ok(())),
            Some(r) => self.stop(r.id, AfterStopView::Finish),
        }
    }

    /// The first step of a restart.
    pub open spec fn restart(self, id: Seq<char>) -> StepView {
        if self.runs(id) {
            self.stop(id, AfterStopView::Restart(id))
        } else {
            self.start(id)
        }
    }

    /// The first step of turning on the model with this id, or `None` where it runs already.
    pub open spec fn turn_on(self, id: Seq<char>) -> Option<StepView> {
        match self.running {
            None => Some(self.start(id)),
            Some(r) => if r.id == id {
                None
            } else if r.id.len() == 0 {
                Some(self.start(id))
            } else {
                Some(self.stop(r.id, AfterStopView::SwitchTo(id)))
            },
        }
    }

    /// The state in which no model runs.
    pub open spec fn idle(self) -> ManagerView {
        ManagerView { running: None, ..self }
    }

    /// The state in which a model was just spawned.
    pub open spec fn with_spawned(self, id: Seq<char>, guard: LinuxProcessGuard) -> ManagerView {
        ManagerView {
            running: Some(RunningModelView { id, guard, state: ModelStateView::Starting }),
            ..self
        }
    }
}

/// The step after an attempt to terminate a model.
pub open spec fn after_termination(
    id: Seq<char>,
    port: u16,
    next: AfterStopView,
    result: Result<(), ProcessErrorView>,
) -> StepView {
    match result {
        Ok(()) => StepView::AwaitPortFree { id, port, timeout_ms: RELEASE_TIMEOUT_MS, next },
        Err(e) => stop_failed(next, e),
    }
}

/// The state and the step after waiting for the port of a terminated model.
pub open spec fn after_release(
    pm: ManagerView,
    next: AfterStopView,
    result: Result<(), ProcessErrorView>,
) -> (ManagerView, StepView) {
    match result {
        Ok(()) => (pm.idle(), stop_succeeded(next)),
        Err(e) => (pm, stop_failed(next, e)),
    }
}

/// The step after the port of a model that is to start was probed.
pub open spec fn after_probe(
    pm: ManagerView,
    id: Seq<char>,
    port: u16,
    script_path: Seq<char>,
    state: PortState,
    home: Option<Seq<char>>,
) -> StepView {
    match state {
        PortState::Free => StepView::Spawn {
            id,
            port,
            script_path,
            log_dir: pm.config.log_dir(home),
        },
        PortState::OccupiedByModel => StepView::Done(
            Err(ProcessErrorView::HealthCheckFailed(already_running_message(id, port))),
        ),
        PortState::OccupiedByUnknown(pid) => StepView::Done(
            Err(ProcessErrorView::PortOccupiedByUnknownProcess { pid, port }),
        ),
    }
}

/// The state and the outcome after a script was spawned, or could not be.
pub open spec fn after_spawn(
    pm: ManagerView,
    id: Seq<char>,
    result: Result<LinuxProcessGuard, ProcessErrorView>,
) -> (ManagerView, StepView) {
    match result {
        Ok(guard) => (pm.with_spawned(id, guard), StepView::Done(Ok(()))),
        Err(e) => (pm, StepView::Done(Err(e))),
    }
}

/// What the result of a spawn says.
pub open spec fn spawn_result(r: Result<LinuxProcessGuard, ProcessError>) -> Result<
    LinuxProcessGuard,
    ProcessErrorView,
> {
    match r {
        Ok(g) => Ok(g),
        Err(e) => Err(e@),
    }
}

fn fail_stop(next: AfterStop, e: ProcessError) -> (step: Step)
    ensures
        step@ == stop_failed(next@, e@),
{
    match next {
        AfterStop::Restart(id) => Step::Pause(Pausing { target: id, millis: RELEASE_PAUSE_MS }),
        AfterStop::Finish => Step::Done(Err(e)),
        AfterStop::SwitchTo(_) => Step::Done(Err(e)),
    }
}

/// Process manager: the lifecycle of model processes.
pub struct ProcessManager {
    config: Config,
    running_model: Option<RunningModel>,
}

impl View for ProcessManager {
    type V = ManagerView;

    closed spec fn view(&self) -> ManagerView {
        ManagerView { config: self.config@, running: running_view(self.running_model) }
    }
}

impl ProcessManager {
    /// A process manager for a loaded configuration, with no model running.
    pub fn new(config: Config) -> (pm: Self)
        ensures
            pm@ == (ManagerView { config: config@, running: None }),
    {
        ProcessManager { config, running_model: None }
    }

    /// The configuration.
    pub fn config(&self) -> (config: &Config)
        ensures
            config@ == self@.config,
    {
        &self.config
    }

    /// Records that a model runs.
    pub fn set_running_model(&mut self, model: RunningModel)
        ensures
            final(self)@ == (ManagerView { running: Some(model@), ..old(self)@ }),
    {
        self.running_model = Some(model);
    }

    /// Starts a model by id: at most one model runs at a time, and the model must be configured.
    pub fn start_model(&self, id: &str) -> (step: Step)
        ensures
            step@ == self@.start(id@),
    {
        if self.running_model.is_some() {
            return Step::Done(Err(ProcessError::AnotherModelRunning));
        }
        match self.config.find_model(id) {
            Some(i) => Step::ProbePort(
                Probing {
                    id: id.to_owned(),
                    port: self.config.models[i].port,
                    script_path: self.config.models[i].script_path.clone(),
                },
            ),
            None => Step::Done(Err(ProcessError::NotRunning(id.to_owned()))),
        }
    }

    fn stop_then(&self, id: &str, next: AfterStop) -> (step: Step)
        ensures
            step@ == self@.stop(id@, next@),
    {
        match &self.running_model {
            Some(r) => {
                if same_text(r.id.as_str(), id) {
                    match self.config.find_model(id) {
                        Some(i) => {
                            return Step::Terminate(
                                Stopping {
                                    id: id.to_owned(),
                                    port: self.config.models[i].port,
                                    guard: r.guard,
                                    next,
                                },
                            );
                        },
                        None => {},
                    }
                }
            },
            None => {},
        }
        fail_stop(next, ProcessError::NotRunning(id.to_owned()))
    }

    /// Stops a model by id: it must be the one that runs, and be configured.
    pub fn stop_model(&self, id: &str) -> (step: Step)
        ensures
            step@ == self@.stop(id@, AfterStopView::Finish),
    {
        self.stop_then(id, AfterStop::Finish)
    }

    /// Stops the running model, if any.
    pub fn stop_all(&self) -> (step: Step)
        ensures
            step@ == self@.stop_all(),
    {
        match &self.running_model {
            Some(r) => self.stop_then(r.id.as_str(), AfterStop::Finish),
            None => Step::Done(Ok(())),
        }
    }

    /// Switches from one model to another: the second is started only once the first is gone.
    pub fn switch_model(&self, from_id: &str, to_id: &str) -> (step: Step)
        ensures
            step@ == self@.stop(from_id@, AfterStopView::SwitchTo(to_id@)),
    {
        self.stop_then(from_id, AfterStop::SwitchTo(to_id.to_owned()))
    }

    /// Restarts a model: stops it where it is the one that runs, then starts it.
    pub fn restart_model(&self, id: &str) -> (step: Step)
        ensures
            step@ == self@.restart(id@),
    {
        match &self.running_model {
            Some(r) => {
                if same_text(r.id.as_str(), id) {
                    return self.stop_then(id, AfterStop::Restart(id.to_owned()));
                }
            },
            None => {},
        }
        self.start_model(id)
    }

    /// Turns a model on: starts it, or switches to it from the one that runs. `None` where it
    /// runs already.
    pub fn turn_on(&self, id: &str) -> (step: Option<Step>)
        ensures
            match step {
                Some(s) => self@.turn_on(id@) == Some(s@),
                None => self@.turn_on(id@) is None,
            },
    {
        match &self.running_model {
            Some(r) => {
                if same_text(r.id.as_str(), id) {
                    None
                } else if r.id.as_str().is_empty() {
                    Some(self.start_model(id))
                } else {
                    Some(self.switch_model(r.id.as_str(), id))
                }
            },
            None => Some(self.start_model(id)),
        }
    }

    /// Takes back what came of terminating a model.
    pub fn terminated(stopping: Stopping, result: Result<(), ProcessError>) -> (step: Step)
        ensures
            step@ == after_termination(
                stopping.id@,
                stopping.port,
                stopping.next@,
                outcome(result),
            ),
    {
        match result {
            Ok(()) => Step::AwaitPortFree(
                Releasing {
                    id: stopping.id,
                    port: stopping.port,
                    timeout_ms: RELEASE_TIMEOUT_MS,
                    next: stopping.next,
                },
            ),
            Err(e) => fail_stop(stopping.next, e),
        }
    }

    /// Takes back what came of waiting for the port of a terminated model.
    pub fn port_released(&mut self, releasing: Releasing, result: Result<(), ProcessError>) -> (step:
        Step)
        ensures
            (final(self)@, step@) == after_release(old(self)@, releasing.next@, outcome(result)),
    {
        match result {
            Ok(()) => {
                self.running_model = None;
                match releasing.next {
                    AfterStop::Finish => Step::Done(Ok(())),
                    AfterStop::SwitchTo(id) => Step::Pause(
                        Pausing { target: id, millis: RELEASE_PAUSE_MS },
                    ),
                    AfterStop::Restart(id) => Step::Pause(
                        Pausing { target: id, millis: RELEASE_PAUSE_MS },
                    ),
                }
            },
            Err(e) => fail_stop(releasing.next, e),
        }
    }

    /// Goes on after a pause.
    pub fn paused(&self, pausing: Pausing) -> (step: Step)
        ensures
            step@ == self@.start(pausing.target@),
    {
        self.start_model(pausing.target.as_str())
    }

    /// Takes back the state of the port of a model that is to start; `home` is the environment
    /// variable `HOME`.
    pub fn port_probed(&self, probing: Probing, state: PortState, home: Option<&str>) -> (step:
        Step)
        ensures
            step@ == after_probe(
                self@,
                probing.id@,
                probing.port,
                probing.script_path@,
                state,
                opt_str_view(home),
            ),
    {
        match state {
            PortState::Free => Step::Spawn(
                Spawning {
                    id: probing.id,
                    port: probing.port,
                    script_path: probing.script_path,
                    log_dir: self.config.log_dir(home),
                },
            ),
            PortState::OccupiedByModel => {
                let mut message = "model '".to_owned().concat(probing.id.as_str()).concat(
                    "' is already running on port ",
                );
                append_decimal(&mut message, probing.port as u64);
                Step::Done(Err(ProcessError::HealthCheckFailed(message)))
            },
            PortState::OccupiedByUnknown(pid) => Step::Done(
                Err(ProcessError::PortOccupiedByUnknownProcess { pid, port: probing.port }),
            ),
        }
    }

    /// Takes back what came of spawning a script.
    pub fn spawned(&mut self, spawning: Spawning, result: Result<LinuxProcessGuard, ProcessError>) -> (step:
        Step)
        ensures
            (final(self)@, step@) == after_spawn(old(self)@, spawning.id@, spawn_result(result)),
    {
        match result {
            Ok(guard) => {
                self.running_model = Some(
                    RunningModel { id: spawning.id, guard, state: ModelState::Starting },
                );
                Step::Done(Ok(()))
            },
            Err(e) => Step::Done(Err(e)),
        }
    }

    /// The currently running model, if any.
    pub fn get_running_model(&self) -> (model: Option<&RunningModel>)
        ensures
            match model {
                Some(m) => self@.running == Some(m@),
                None => self@.running is None,
            },
    {
        match &self.running_model {
            Some(m) => Some(m),
            None => None,
        }
    }

    /// The id of the currently running model, if any.
    pub fn get_running_model_id(&self) -> (id: Option<&str>)
        ensures
            match id {
                Some(i) => self@.running is Some && self@.running->0.id == i@,
                None => self@.running is None,
            },
    {
        match &self.running_model {
            Some(m) => Some(m.id.as_str()),
            None => None,
        }
    }

    /// The state of a port that a model is to be started on.
    pub fn check_port(probe: &PortProbe) -> (state: PortState)
        ensures
            state == probed_state(*probe),
    {
        if !probe.connected {
            return PortState::Free;
        }
        match probe.reply_body() {
            Some(body) => {
                if body_mentions_model(body.as_str()) {
                    return PortState::OccupiedByModel;
                }
            },
            None => {},
        }
        probe.foreign_state()
    }

    /// Decides on a port that is to become free: whether a connection was still accepted,
    /// `elapsed_ms` after the wait began. `None` means: wait a moment and try again.
    pub fn wait_port_free(port: u16, timeout_ms: u64, connected: bool, elapsed_ms: u64) -> (r:
        Option<Result<(), ProcessError>>)
        ensures
            !connected ==> r matches Some(Ok(())),
            connected && elapsed_ms >= timeout_ms ==> (r matches Some(Err(e)) && e@
                == ProcessErrorView::PortStillOccupied(port)),
            connected && elapsed_ms < timeout_ms ==> r is None,
    {
        if !connected {
            Some(Ok(()))
        } else if elapsed_ms >= timeout_ms {
            Some(Err(ProcessError::PortStillOccupied(port)))
        } else {
            None
        }
    }
}

/// A step that may follow in the state `pm`: a model is probed or spawned only while none runs,
/// and only the running model is terminated and waited for.
pub open spec fn consistent(pm: ManagerView, step: StepView) -> bool {
    match step {
        StepView::Terminate { id, .. } => pm.runs(id),
        StepView::AwaitPortFree { id, .. } => pm.runs(id),
        StepView::ProbePort { .. } => pm.running is None,
        StepView::Spawn { .. } => pm.running is None,
        StepView::Pause { .. } => true,
        StepView::Done(_) => true,
    }
}

/// What came of the outside work of one step; each step reads the part that concerns it.
pub struct Answer {
    pub done: Result<(), ProcessErrorView>,
    pub port: PortState,
    pub home: Option<Seq<char>>,
    pub spawned: Result<LinuxProcessGuard, ProcessErrorView>,
}

/// The state and the step after the outside work of a step.
pub open spec fn advance(pm: ManagerView, step: StepView, answer: Answer) -> (
    ManagerView,
    StepView,
) {
    match step {
        StepView::Terminate { id, port, next, .. } => (
            pm,
            after_termination(id, port, next, answer.done),
        ),
        StepView::AwaitPortFree { next, .. } => after_release(pm, next, answer.done),
        StepView::Pause { target, .. } => (pm, pm.start(target)),
        StepView::ProbePort { id, port, script_path } => (
            pm,
            after_probe(pm, id, port, script_path, answer.port, answer.home),
        ),
        StepView::Spawn { id, .. } => after_spawn(pm, id, answer.spawned),
        StepView::Done(_) => (pm, step),
    }
}

/// The state and the step after the outside work of as many steps as there are answers.
pub open spec fn run(pm: ManagerView, step: StepView, answers: Seq<Answer>) -> (
    ManagerView,
    StepView,
)
    decreases answers.len(),
{
    if answers.len() == 0 {
        (pm, step)
    } else {
        let (after, next) = advance(pm, step, answers[0]);
        run(after, next, answers.drop_first())
    }
}

/// Every operation begins with a step that fits the state.
pub proof fn law_operations_begin_consistent(pm: ManagerView, id: Seq<char>, other: Seq<char>)
    ensures
        consistent(pm, pm.start(id)),
        consistent(pm, pm.stop(id, AfterStopView::Finish)),
        consistent(pm, pm.stop(id, AfterStopView::SwitchTo(other))),
        consistent(pm, pm.stop_all()),
        consistent(pm, pm.restart(id)),
        pm.turn_on(id) matches Some(s) ==> consistent(pm, s),
{
}

/// Whatever comes of the steps of an operation, each next step fits the state after the one
/// before: no model is ever probed for or spawned while another runs.
pub proof fn law_one_model_at_a_time(pm: ManagerView, step: StepView, answers: Seq<Answer>)
    requires
        consistent(pm, step),
    ensures
        consistent(run(pm, step, answers).0, run(pm, step, answers).1),
        run(pm, step, answers).0.config == pm.config,
    decreases answers.len(),
{
    if answers.len() > 0 {
        let (after, next) = advance(pm, step, answers[0]);
        law_one_model_at_a_time(after, next, answers.drop_first());
    }
}

/// How many pieces of outside work may lie between a step and the end of its operation.
pub open spec fn work_left(step: StepView) -> nat {
    match step {
        StepView::Terminate { .. } => 5,
        StepView::AwaitPortFree { .. } => 4,
        StepView::Pause { .. } => 3,
        StepView::ProbePort { .. } => 2,
        StepView::Spawn { .. } => 1,
        StepView::Done(_) => 0,
    }
}

/// Every operation ends after at most five pieces of outside work, whatever comes of them.
pub proof fn law_operations_end(pm: ManagerView, step: StepView, answers: Seq<Answer>)
    requires
        answers.len() >= work_left(step),
    ensures
        run(pm, step, answers).1 is Done,
    decreases answers.len(),
{
    if answers.len() > 0 {
        let (after, next) = advance(pm, step, answers[0]);
        law_operations_end(after, next, answers.drop_first());
    }
}

proof fn lemma_done_stays(pm: ManagerView, step: StepView, answers: Seq<Answer>)
    requires
        step is Done,
    ensures
        run(pm, step, answers) == (pm, step),
    decreases answers.len(),
{
    if answers.len() > 0 {
        lemma_done_stays(pm, step, answers.drop_first());
    }
}

/// The end of an operation, told by its first five answers.
proof fn lemma_run_five(pm: ManagerView, step: StepView, answers: Seq<Answer>)
    requires
        answers.len() >= 5,
    ensures
        run(pm, step, answers) == {
            let (pm1, s1) = advance(pm, step, answers[0]);
            let (pm2, s2) = advance(pm1, s1, answers[1]);
            let (pm3, s3) = advance(pm2, s2, answers[2]);
            let (pm4, s4) = advance(pm3, s3, answers[3]);
            advance(pm4, s4, answers[4])
        },
{
    let rest = answers.drop_first().drop_first().drop_first().drop_first().drop_first();
    let (pm1, s1) = advance(pm, step, answers[0]);
    let (pm2, s2) = advance(pm1, s1, answers[1]);
    let (pm3, s3) = advance(pm2, s2, answers[2]);
    let (pm4, s4) = advance(pm3, s3, answers[3]);
    let (pm5, s5) = advance(pm4, s4, answers[4]);
    reveal_with_fuel(run, 6);
    assert(run(pm, step, answers) == run(pm5, s5, rest));
    lemma_done_stays(pm5, s5, rest);
}

/// An operation reports success only where it did its work: after a start, a switch or a
/// restart the target runs, and after a stop nothing does. One that reports a failure leaves
/// either the model that ran before, or, where it was stopped already, none.
pub proof fn law_outcomes(
    pm: ManagerView,
    id: Seq<char>,
    target: Seq<char>,
    answers: Seq<Answer>,
)
    requires
        answers.len() >= 5,
    ensures
        run(pm, pm.start(id), answers) matches (after, StepView::Done(r)) && match r {
            Ok(_) => pm.running is None && after.runs(id),
            Err(_) => after == pm,
        },
        run(pm, pm.stop(id, AfterStopView::Finish), answers) matches (after, StepView::Done(r))
            && match r {
            Ok(_) => pm.runs(id) && after == pm.idle(),
            Err(_) => after == pm,
        },
        run(pm, pm.stop(id, AfterStopView::SwitchTo(target)), answers) matches (
            after,
            StepView::Done(r),
        ) && match r {
            Ok(_) => pm.runs(id) && after.runs(target),
            Err(_) => after == pm || after == pm.idle(),
        },
        run(pm, pm.restart(id), answers) matches (after, StepView::Done(r)) && match r {
            Ok(_) => after.runs(id),
            Err(_) => after == pm || after == pm.idle(),
        },
{
    lemma_run_five(pm, pm.start(id), answers);
    lemma_run_five(pm, pm.stop(id, AfterStopView::Finish), answers);
    lemma_run_five(pm, pm.stop(id, AfterStopView::SwitchTo(target)), answers);
    lemma_run_five(pm, pm.restart(id), answers);
}

/// A start while a model runs is refused, and nothing is done.
pub proof fn law_start_refused_while_running(pm: ManagerView, id: Seq<char>)
    requires
        pm.running is Some,
    ensures
        pm.start(id) == StepView::Done(Err(ProcessErrorView::AnotherModelRunning)),
{
}

/// Stopping a model that does not run is refused, and nothing is done.
pub proof fn law_stop_refused_unless_running(pm: ManagerView, id: Seq<char>)
    requires
        !pm.runs(id),
    ensures
        pm.stop(id, AfterStopView::Finish) == StepView::Done(Err(ProcessErrorView::NotRunning(id))),
{
}

/// A start that meets no obstacle: the port of the first model with that id is probed, its
/// script is spawned, and the model runs, starting.
pub proof fn law_start(
    pm: ManagerView,
    id: Seq<char>,
    home: Option<Seq<char>>,
    guard: LinuxProcessGuard,
)
    requires
        pm.running is None,
        exists|i: int| 0 <= i < pm.config.models.len() && (#[trigger] pm.config.models[i]).id == id,
    ensures
        pm.start(id) matches StepView::ProbePort { id: probed, port, script_path } && probed == id
            && after_probe(pm, id, port, script_path, PortState::Free, home) == (StepView::Spawn {
            id,
            port,
            script_path,
            log_dir: pm.config.log_dir(home),
        }) && after_spawn(pm, id, Ok(guard)) == (
            ManagerView {
                running: Some(
                    RunningModelView { id, guard, state: ModelStateView::Starting },
                ),
                ..pm
            },
            StepView::Done(Ok::<(), ProcessErrorView>(())),
        ),
{
    lemma_model_index(pm.config.models, id, 0);
}

/// A stop that meets no obstacle leaves no model running; one that fails, in the termination or
/// in the wait for the port, leaves the model running and reports the failure.
pub proof fn law_stop(
    pm: ManagerView,
    id: Seq<char>,
    e: ProcessErrorView,
)
    requires
        pm.runs(id),
        exists|i: int| 0 <= i < pm.config.models.len() && (#[trigger] pm.config.models[i]).id == id,
    ensures
        pm.stop(id, AfterStopView::Finish) matches StepView::Terminate {
            id: stopped,
            port,
            guard,
            next,
        } && stopped == id && guard == pm.running->0.guard && {
            &&& after_termination(id, port, next, Err(e)) == StepView::Done(Err(e))
            &&& after_termination(id, port, next, Ok(())) == (StepView::AwaitPortFree {
                id,
                port,
                timeout_ms: RELEASE_TIMEOUT_MS,
                next,
            })
            &&& after_release(pm, next, Err(e)) == (pm, StepView::Done(Err(e)))
            &&& after_release(pm, next, Ok(())) == (
                ManagerView { running: None, ..pm },
                StepView::Done(Ok::<(), ProcessErrorView>(())),
            )
        },
{
    lemma_model_index(pm.config.models, id, 0);
}

/// A switch starts the second model exactly as a start in the idle state does, after a pause and
/// only once the first is terminated and its port is free; where either fails, the first model
/// stays the running one and the second is never started.
pub proof fn law_switch(
    pm: ManagerView,
    from: Seq<char>,
    to: Seq<char>,
    e: ProcessErrorView,
)
    requires
        pm.runs(from),
        exists|i: int|
            0 <= i < pm.config.models.len() && (#[trigger] pm.config.models[i]).id == from,
    ensures
        pm.stop(from, AfterStopView::SwitchTo(to)) matches StepView::Terminate {
            id,
            port,
            next,
            ..
        } && id == from && {
            &&& after_termination(id, port, next, Err(e)) == StepView::Done(Err(e))
            &&& after_termination(id, port, next, Ok(())) == (StepView::AwaitPortFree {
                id,
                port,
                timeout_ms: RELEASE_TIMEOUT_MS,
                next,
            })
            &&& after_release(pm, next, Err(e)) == (pm, StepView::Done(Err(e)))
            &&& after_release(pm, next, Ok(())).0 == pm.idle()
            &&& after_release(pm, next, Ok(())).1 == (StepView::Pause {
                target: to,
                millis: RELEASE_PAUSE_MS,
            })
            &&& !(pm.idle().start(to) matches StepView::Done(Err(
                ProcessErrorView::AnotherModelRunning,
            )))
        },
{
    lemma_model_index(pm.config.models, from, 0);
}

/// A model server found on the port of a model, or a foreign process, keeps the model from
/// being started.
pub proof fn law_occupied_port_refuses_start(
    pm: ManagerView,
    id: Seq<char>,
    port: u16,
    script_path: Seq<char>,
    state: PortState,
    home: Option<Seq<char>>,
)
    ensures
        after_probe(pm, id, port, script_path, state, home) is Spawn <==> state == PortState::Free,
        !(state == PortState::Free) ==> after_probe(pm, id, port, script_path, state, home) matches StepView::Done(
            Err(_),
        ),
{
}

/// Each error says what went wrong, with the model, port or process that it is about.
pub proof fn law_process_messages(id: Seq<char>, io: IoErrorView, port: u16, pid: u32, n: i32)
    ensures
        ProcessErrorView::AnotherModelRunning.message() == "another model is already running"@,
        ProcessErrorView::NotRunning(id).message() == "model '"@ + id + "' is not running"@,
        (ProcessErrorView::PortOccupiedByUnknownProcess { pid, port }).message() == "port "@
            + decimal(port as nat) + " occupied by unknown process (pid: "@ + decimal(pid as nat)
            + ")"@,
        ProcessErrorView::Spawn(io).message() == "failed to spawn process: "@ + io.text,
        ProcessErrorView::UnexpectedExit(n).message()
            == "process exited unexpectedly with code: "@ + signed_decimal(n as int),
        ProcessErrorView::ShutdownTimeout(id).message()
            == "shutdown timeout exceeded for model '"@ + id + "'"@,
        ProcessErrorView::PortStillOccupied(port).message() == "port "@ + decimal(port as nat)
            + " still occupied after shutdown timeout"@,
        ProcessErrorView::HealthCheckFailed(id).message()
            == "health check failed during startup of '"@ + id + "'"@,
        ProcessErrorView::Io(io).message() == "I/O error: "@ + io.text,
        ProcessErrorView::Signal(io).message() == "signal error: "@ + io.text,
        (ProcessErrorView::CannotSignalOwnProcessGroup { pid: n }).message()
            == "cannot signal process group — target is the current process group (pid: "@
            + signed_decimal(n as int) + ")"@,
{
}

/// The body of a reply counts exactly where it could be read and the status is from 200 to 299.
pub proof fn law_successful_replies(reply: HttpReplyView, body: Seq<char>)
    ensures
        reply.success_body() == Some(body) <==> 200 <= reply.status <= 299 && reply.body == Some(
            body,
        ),
        reply.success_body() is None <==> reply.status < 200 || reply.status > 299
            || reply.body is None,
{
}

/// A list of models holds both marks of one, and a mention of a model either.
pub proof fn law_marks_of_model_servers(body: Seq<char>)
    ensures
        lists_models(body) <==> has_text(body, "\"id\""@) && has_text(body, "model"@),
        mentions_model(body) <==> has_text(body, "\"id\""@) || has_text(body, "model"@),
{
}

/// A port without a listener is free; one whose listener answers with success and mentions a
/// model belongs to a model server; any other belongs to the process that holds it, 0 where that
/// is not known.
pub proof fn law_probed_ports(probe: PortProbe, reply: HttpReply, body: String)
    ensures
        !probe.connected ==> probed_state(probe) == PortState::Free,
        probe.connected && probe.reply == Some(reply) && reply.body == Some(body) && 200
            <= reply.status <= 299 && (has_text(body@, "\"id\""@) || has_text(body@, "model"@))
            ==> probed_state(probe) == PortState::OccupiedByModel,
        probe.connected && (probe.reply is None || (probe.reply == Some(reply) && (reply.status
            < 200 || reply.status > 299 || reply.body is None || (reply.body == Some(body)
            && !has_text(body@, "\"id\""@) && !has_text(body@, "model"@))))) ==> probed_state(probe)
            == PortState::OccupiedByUnknown(
            match probe.owner {
                Some(pid) => pid,
                None => 0,
            },
        ),
{
}

proof fn lemma_model_index_is(models: Seq<ModelConfigView>, id: Seq<char>, from: int, i: int)
    requires
        0 <= from <= i < models.len(),
        models[i].id == id,
        forall|j: int| from <= j < i ==> (#[trigger] models[j]).id != id,
    ensures
        model_index(models, id, from) == Some(i),
    decreases i - from,
{
    if from < i {
        assert(models[from].id != id);
        lemma_model_index_is(models, id, from + 1, i);
    }
}

/// A start while nothing runs takes the port and the script of the first model with that id, and
/// is refused where no model has it; while a model runs it is refused whatever it asks for.
pub proof fn law_start_takes_its_own_model(pm: ManagerView, id: Seq<char>, i: int)
    ensures
        pm.running is Some ==> pm.start(id) == StepView::Done(
            Err::<(), ProcessErrorView>(ProcessErrorView::AnotherModelRunning),
        ),
        pm.running is None && 0 <= i < pm.config.models.len() && pm.config.models[i].id == id && (
        forall|j: int| 0 <= j < i ==> (#[trigger] pm.config.models[j]).id != id) ==> pm.start(id)
            == (StepView::ProbePort {
            id,
            port: pm.config.models[i].port,
            script_path: pm.config.models[i].script_path,
        }),
        pm.running is None && (forall|j: int|
            0 <= j < pm.config.models.len() ==> (#[trigger] pm.config.models[j]).id != id)
            ==> pm.start(id) == StepView::Done(
            Err::<(), ProcessErrorView>(ProcessErrorView::NotRunning(id)),
        ),
{
    let models = pm.config.models;
    if 0 <= i < models.len() && models[i].id == id && forall|j: int|
        0 <= j < i ==> (#[trigger] models[j]).id != id {
        lemma_model_index_is(models, id, 0, i);
    }
    lemma_model_index(models, id, 0);
}

/// What follows a probe keeps the model's id, port and script: a free port leads to the spawn of
/// that script, with the log directory in effect; a model server on the port, or any other
/// process, ends the start with the error for it.
pub proof fn law_probed_start(
    pm: ManagerView,
    id: Seq<char>,
    port: u16,
    script_path: Seq<char>,
    pid: u32,
    dir: Seq<char>,
    home: Seq<char>,
    any_home: Option<Seq<char>>,
)
    ensures
        ({
            let spawns = |state: PortState, home: Option<Seq<char>>, log_dir: Seq<char>|
                after_probe(pm, id, port, script_path, state, home) == (StepView::Spawn {
                    id,
                    port,
                    script_path,
                    log_dir,
                });
            &&& pm.config.global.log_dir == Some(dir) ==> spawns(PortState::Free, Some(home), dir)
                && spawns(PortState::Free, None, dir)
            &&& pm.config.global.log_dir is None ==> spawns(
                PortState::Free,
                Some(home),
                joined(home, ".local/share/ai-switch/logs/"@),
            ) && spawns(PortState::Free, None, "logs/"@)
        }),
        after_probe(pm, id, port, script_path, PortState::OccupiedByModel, any_home)
            == StepView::Done(
            Err::<(), ProcessErrorView>(
                ProcessErrorView::HealthCheckFailed(
                    "model '"@ + id + "' is already running on port "@ + decimal(port as nat),
                ),
            ),
        ),
        after_probe(pm, id, port, script_path, PortState::OccupiedByUnknown(pid), any_home)
            == StepView::Done(
            Err::<(), ProcessErrorView>(ProcessErrorView::PortOccupiedByUnknownProcess { pid, port }),
        ),
{
}

/// A script that was spawned is recorded as the running model, starting, under its id and with its
/// guard; one that could not be changes nothing and its error is the outcome.
pub proof fn law_spawned_model_is_recorded(
    pm: ManagerView,
    id: Seq<char>,
    guard: LinuxProcessGuard,
    e: ProcessErrorView,
)
    ensures
        ({
            let (after, step) = after_spawn(pm, id, Ok(guard));
            &&& after.config == pm.config
            &&& after.running == Some(
                RunningModelView { id, guard, state: ModelStateView::Starting },
            )
            &&& step == StepView::Done(Ok::<(), ProcessErrorView>(()))
        }),
        after_spawn(pm, id, Err(e)) == (pm, StepView::Done(Err::<(), ProcessErrorView>(e))),
{
}

/// A stop terminates the model that runs, through its own guard, and goes on with the port that is
/// configured for it and with what was to follow; it is refused where another model runs or none,
/// or where the model is not configured.
pub proof fn law_stop_terminates_the_running_model(
    pm: ManagerView,
    id: Seq<char>,
    next: AfterStopView,
    running: RunningModelView,
    i: int,
)
    ensures
        pm.running == Some(running) && running.id == id && 0 <= i < pm.config.models.len()
            && pm.config.models[i].id == id && (forall|j: int|
            0 <= j < i ==> (#[trigger] pm.config.models[j]).id != id) ==> pm.stop(id, next) == (
        StepView::Terminate { id, port: pm.config.models[i].port, guard: running.guard, next }),
        pm.running is None || pm.running->0.id != id || (forall|j: int|
            0 <= j < pm.config.models.len() ==> (#[trigger] pm.config.models[j]).id != id)
            ==> pm.stop(id, next) == match next {
            AfterStopView::Restart(target) => StepView::Pause { target, millis: 500 },
            _ => StepView::Done(Err::<(), ProcessErrorView>(ProcessErrorView::NotRunning(id))),
        },
        pm.runs(id) <==> pm.running is Some && pm.running->0.id == id,
{
    let models = pm.config.models;
    if 0 <= i < models.len() && models[i].id == id && forall|j: int|
        0 <= j < i ==> (#[trigger] models[j]).id != id {
        lemma_model_index_is(models, id, 0, i);
    }
    lemma_model_index(models, id, 0);
}

/// A model that was terminated is waited for on its port, up to ten seconds, and only once the
/// port is free no model runs; a switch and a restart then pause for half a second before their
/// target. A failure ends a stop and a switch with its error and leaves the model as the running
/// one, and lets a restart go on.
pub proof fn law_what_follows_a_stop(
    pm: ManagerView,
    id: Seq<char>,
    port: u16,
    target: Seq<char>,
    e: ProcessErrorView,
)
    ensures
        ({
            let finish = AfterStopView::Finish;
            let switch = AfterStopView::SwitchTo(target);
            let restart = AfterStopView::Restart(target);
            let pause = StepView::Pause { target, millis: 500 };
            let failed = StepView::Done(Err::<(), ProcessErrorView>(e));
            let idle = ManagerView { config: pm.config, running: None };
            &&& forall|next: AfterStopView| #[trigger]
                after_termination(id, port, next, Ok(())) == (StepView::AwaitPortFree {
                    id,
                    port,
                    timeout_ms: 10000,
                    next,
                })
            &&& after_termination(id, port, finish, Err(e)) == failed
            &&& after_termination(id, port, switch, Err(e)) == failed
            &&& after_termination(id, port, restart, Err(e)) == pause
            &&& after_release(pm, finish, Ok(())) == (
                idle,
                StepView::Done(Ok::<(), ProcessErrorView>(())),
            )
            &&& after_release(pm, switch, Ok(())) == (idle, pause)
            &&& after_release(pm, restart, Ok(())) == (idle, pause)
            &&& after_release(pm, finish, Err(e)) == (pm, failed)
            &&& after_release(pm, switch, Err(e)) == (pm, failed)
            &&& after_release(pm, restart, Err(e)) == (pm, pause)
        }),
{
}

/// A restart of the running model, where every step succeeds and its port is free again, ends
/// with that same model running anew, with the new guard; so does a switch with its target.
pub proof fn law_restart_and_switch_bring_their_model_up(
    pm: ManagerView,
    id: Seq<char>,
    target: Seq<char>,
    guard: LinuxProcessGuard,
    answers: Seq<Answer>,
)
    requires
        pm.running is Some,
        pm.running->0.id == id,
        exists|i: int| 0 <= i < pm.config.models.len() && (#[trigger] pm.config.models[i]).id == id,
        exists|i: int|
            0 <= i < pm.config.models.len() && (#[trigger] pm.config.models[i]).id == target,
        answers.len() == 5,
        answers[0].done is Ok,
        answers[1].done is Ok,
        answers[3].port == PortState::Free,
        answers[4].spawned == Ok::<LinuxProcessGuard, ProcessErrorView>(guard),
    ensures
        ({
            let up = |id: Seq<char>|
                (
                    ManagerView {
                        config: pm.config,
                        running: Some(
                            RunningModelView { id, guard, state: ModelStateView::Starting },
                        ),
                    },
                    StepView::Done(Ok::<(), ProcessErrorView>(())),
                );
            &&& run(pm, pm.restart(id), answers) == up(id)
            &&& run(pm, pm.stop(id, AfterStopView::SwitchTo(target)), answers) == up(target)
        }),
{
    lemma_model_index(pm.config.models, id, 0);
    lemma_model_index(pm.config.models, target, 0);
    lemma_run_five(pm, pm.restart(id), answers);
    lemma_run_five(pm, pm.stop(id, AfterStopView::SwitchTo(target)), answers);
}

/// A start where the port is free and the spawn succeeds ends with that model running.
pub proof fn law_start_brings_its_model_up(
    pm: ManagerView,
    id: Seq<char>,
    guard: LinuxProcessGuard,
    answers: Seq<Answer>,
)
    requires
        pm.running is None,
        exists|i: int| 0 <= i < pm.config.models.len() && (#[trigger] pm.config.models[i]).id == id,
        answers.len() == 2,
        answers[0].port == PortState::Free,
        answers[1].spawned == Ok::<LinuxProcessGuard, ProcessErrorView>(guard),
    ensures
        run(pm, pm.start(id), answers) == (
            ManagerView {
                config: pm.config,
                running: Some(
                    RunningModelView { id, guard, state: ModelStateView::Starting },
                ),
            },
            StepView::Done(Ok::<(), ProcessErrorView>(())),
        ),
{
    lemma_model_index(pm.config.models, id, 0);
    reveal_with_fuel(run, 3);
}

/// The answer to a step is taken by that step alone: a pause leads to the start of its target in
/// the state that there is, and an operation that is over stays so.
pub proof fn law_pause_starts_its_target(
    pm: ManagerView,
    target: Seq<char>,
    millis: u64,
    answer: Answer,
    result: Result<(), ProcessErrorView>,
)
    ensures
        advance(pm, StepView::Pause { target, millis }, answer) == (pm, pm.start(target)),
        advance(pm, StepView::Done(result), answer) == (pm, StepView::Done(result)),
{
}

/// Stopping everything stops what runs and nothing else; a restart stops its model first exactly
/// where that is the one that runs; turning a model on leaves it alone where it runs, and else
/// starts it, from the model that runs where there is one with a name.
pub proof fn law_choice_of_operation(pm: ManagerView, id: Seq<char>, running: RunningModelView)
    ensures
        pm.running is None ==> {
            &&& pm.stop_all() == StepView::Done(Ok::<(), ProcessErrorView>(()))
            &&& pm.restart(id) == pm.start(id)
            &&& pm.turn_on(id) == Some(pm.start(id))
        },
        pm.running == Some(running) ==> pm.stop_all() == pm.stop(running.id, AfterStopView::Finish),
        pm.running == Some(running) && running.id == id ==> {
            &&& pm.restart(id) == pm.stop(id, AfterStopView::Restart(id))
            &&& pm.turn_on(id) is None
        },
        pm.running == Some(running) && running.id != id ==> {
            &&& pm.restart(id) == pm.start(id)
            &&& running.id.len() > 0 ==> pm.turn_on(id) == Some(
                pm.stop(running.id, AfterStopView::SwitchTo(id)),
            )
            &&& running.id.len() == 0 ==> pm.turn_on(id) == Some(pm.start(id))
        },
{
}

} // verus!
