use ai_switch::config::Config;
use ai_switch::config::ConfigError;
use ai_switch::config::GlobalSettings;
use ai_switch::config::ModelConfig;
use ai_switch::io_error::IoError;
use ai_switch::io_error::IoErrorKind;
use ai_switch::port_table::ProcEntry;
use ai_switch::process_manager::HttpReply;
use ai_switch::process_manager::LinuxProcessGuard;
use ai_switch::process_manager::ModelState;
use ai_switch::process_manager::PortProbe;
use ai_switch::process_manager::PortState;
use ai_switch::process_manager::ProcessError;
use ai_switch::process_manager::ProcessManager;
use ai_switch::process_manager::RunningModel;
use ai_switch::process_manager::Step;
use ai_switch::reconciler::ReconcileResult;
use ai_switch::reconciler::Reconciler;
use ai_switch::single_instance::lock_name;
use ai_switch::single_instance::AlreadyRunning;
use ai_switch::single_instance::SingleInstanceGuard;
use ai_switch::spawn::fork_side;
use ai_switch::spawn::next_child_step;
use ai_switch::spawn::ChildStep;
use ai_switch::spawn::ForkSide;
use ai_switch::spawn::ProcessGuard;
use ai_switch::spawn::SpawnStep;
use ai_switch::termination::GroupLookup;
use ai_switch::termination::SignalOutcome;
use ai_switch::termination::StopSignal;
use ai_switch::termination::TerminationStep;
use ai_switch::termination::WaitOutcome;

fn model(id: &str, port: u16) -> ModelConfig {
    ModelConfig {
        id: id.to_string(),
        name: id.to_string(),
        script_path: format!("/s/{}.sh", id),
        port,
        health_timeout_sec: 30,
    }
}

fn manager() -> ProcessManager {
    ProcessManager::new(Config {
        schema_version: 1,
        models: vec![model("a", 8081), model("b", 8082)],
        global: GlobalSettings::default(),
    })
}

fn error(text: &str) -> IoError {
    IoError::new(IoErrorKind::Os(1), text.to_string())
}

fn guard(pid: i32, port: u16) -> LinuxProcessGuard {
    LinuxProcessGuard { pid: Some(pid), port, shutdown_timeout_sec: 10 }
}

fn probe(port: u16, connected: bool, reply: Option<HttpReply>, owner: Option<u32>) -> PortProbe {
    PortProbe { port, connected, reply, owner }
}

fn reply(status: u16, body: &str) -> Option<HttpReply> {
    Some(HttpReply { status, body: Some(body.to_string()) })
}

fn start(pm: &mut ProcessManager, step: Step, pid: i32) -> Result<(), ProcessError> {
    let probing = match step {
        Step::ProbePort(p) => p,
        other => panic!("{:?}", other),
    };
    let spawning = match pm.port_probed(probing, PortState::Free, Some("/h")) {
        Step::Spawn(s) => s,
        other => panic!("{:?}", other),
    };
    let port = spawning.port;
    match pm.spawned(spawning, Ok(guard(pid, port))) {
        Step::Done(r) => r,
        other => panic!("{:?}", other),
    }
}

#[test]
fn test_port_state_free() {
    let state = ProcessManager::check_port(&probe(9999, false, None, None));
    assert_eq!(state, PortState::Free);
}

#[test]
fn test_process_error_variants() {
    let err = ProcessError::AnotherModelRunning;
    assert!(err.to_string().contains("another model"));

    let err = ProcessError::NotRunning("m1".to_string());
    assert!(err.to_string().contains("m1"));

    let err = ProcessError::PortOccupiedByUnknownProcess { pid: 1234, port: 8081 };
    assert!(err.to_string().contains("8081"));
    assert!(err.to_string().contains("1234"));
}

#[test]
fn test_port_check_on_free_port() {
    let state = PortState::from_port_check(&probe(9999, false, None, None));
    assert_eq!(state, PortState::Free);
}

#[test]
fn test_already_running_error_display() {
    let err = AlreadyRunning;
    assert_eq!(err.to_string(), "another instance of ai-switch is already running");
}

#[test]
fn every_process_error_has_its_message() {
    let cases = vec![
        (ProcessError::AnotherModelRunning, "another model is already running"),
        (ProcessError::NotRunning("a".to_string()), "model 'a' is not running"),
        (
            ProcessError::PortOccupiedByUnknownProcess { pid: 12, port: 8081 },
            "port 8081 occupied by unknown process (pid: 12)",
        ),
        (ProcessError::Spawn(error("e")), "failed to spawn process: e"),
        (ProcessError::UnexpectedExit(-2), "process exited unexpectedly with code: -2"),
        (
            ProcessError::ShutdownTimeout("a".to_string()),
            "shutdown timeout exceeded for model 'a'",
        ),
        (ProcessError::PortStillOccupied(80), "port 80 still occupied after shutdown timeout"),
        (
            ProcessError::HealthCheckFailed("a".to_string()),
            "health check failed during startup of 'a'",
        ),
        (ProcessError::Io(error("e")), "I/O error: e"),
        (ProcessError::Signal(error("e")), "signal error: e"),
        (
            ProcessError::CannotSignalOwnProcessGroup { pid: 7 },
            "cannot signal process group — target is the current process group (pid: 7)",
        ),
        (
            ProcessError::from_config_error(&ConfigError::NotFound),
            "I/O error: config error: no config file found at any expected location",
        ),
        (ProcessError::from_toml_error("x"), "I/O error: toml parse error: x"),
    ];
    for (error, message) in cases {
        assert_eq!(error.to_string(), message);
    }
}

#[test]
fn a_model_is_started() {
    let mut pm = manager();
    let step = pm.start_model("b");
    match &step {
        Step::ProbePort(p) => {
            assert_eq!(p.port, 8082);
            assert_eq!(p.script_path, "/s/b.sh");
        }
        other => panic!("{:?}", other),
    }
    assert!(start(&mut pm, step, 77).is_ok());
    assert_eq!(pm.get_running_model_id(), Some("b"));
    let running = pm.get_running_model().unwrap();
    assert_eq!(running.state, ModelState::Starting);
    assert_eq!(running.guard.pid(), Some(77));
}

#[test]
fn the_log_directory_goes_with_the_spawn() {
    let pm = manager();
    let probing = match pm.start_model("a") {
        Step::ProbePort(p) => p,
        other => panic!("{:?}", other),
    };
    match pm.port_probed(probing, PortState::Free, Some("/h")) {
        Step::Spawn(s) => {
            assert_eq!(s.log_dir, "/h/.local/share/ai-switch/logs/");
            assert_eq!(s.id, "a");
        }
        other => panic!("{:?}", other),
    }
}

#[test]
fn only_one_model_runs_at_a_time() {
    let mut pm = manager();
    let step = pm.start_model("a");
    start(&mut pm, step, 5).unwrap();
    assert!(matches!(pm.start_model("b"), Step::Done(Err(ProcessError::AnotherModelRunning))));
    assert!(matches!(pm.start_model("a"), Step::Done(Err(ProcessError::AnotherModelRunning))));
    assert_eq!(pm.get_running_model_id(), Some("a"));
}

#[test]
fn an_unknown_model_is_not_started() {
    match manager().start_model("z") {
        Step::Done(Err(e)) => assert_eq!(e.to_string(), "model 'z' is not running"),
        other => panic!("{:?}", other),
    }
}

#[test]
fn an_occupied_port_keeps_a_model_from_starting() {
    let pm = manager();
    let probing = match pm.start_model("a") {
        Step::ProbePort(p) => p,
        other => panic!("{:?}", other),
    };
    match pm.port_probed(probing, PortState::OccupiedByModel, None) {
        Step::Done(Err(e)) => assert_eq!(
            e.to_string(),
            "health check failed during startup of 'model 'a' is already running on port 8081'"
        ),
        other => panic!("{:?}", other),
    }
    let probing = match pm.start_model("a") {
        Step::ProbePort(p) => p,
        other => panic!("{:?}", other),
    };
    match pm.port_probed(probing, PortState::OccupiedByUnknown(44), None) {
        Step::Done(Err(ProcessError::PortOccupiedByUnknownProcess { pid, port })) => {
            assert_eq!((pid, port), (44, 8081));
        }
        other => panic!("{:?}", other),
    }
}

#[test]
fn a_failed_spawn_leaves_nothing_running() {
    let mut pm = manager();
    let probing = match pm.start_model("a") {
        Step::ProbePort(p) => p,
        other => panic!("{:?}", other),
    };
    let spawning = match pm.port_probed(probing, PortState::Free, None) {
        Step::Spawn(s) => s,
        other => panic!("{:?}", other),
    };
    let done = pm.spawned(spawning, Err(ProcessError::Spawn(error("no"))));
    assert!(matches!(done, Step::Done(Err(ProcessError::Spawn(_)))));
    assert!(pm.get_running_model().is_none());
}

#[test]
fn stopping_waits_for_the_port() {
    let mut pm = manager();
    let step = pm.start_model("a");
    start(&mut pm, step, 5).unwrap();
    assert!(matches!(pm.stop_model("b"), Step::Done(Err(ProcessError::NotRunning(_)))));
    let stopping = match pm.stop_model("a") {
        Step::Terminate(s) => s,
        other => panic!("{:?}", other),
    };
    assert_eq!(stopping.guard.pid, Some(5));
    let releasing = match ProcessManager::terminated(stopping, Ok(())) {
        Step::AwaitPortFree(r) => r,
        other => panic!("{:?}", other),
    };
    assert_eq!((releasing.port, releasing.timeout_ms), (8081, 10000));
    assert_eq!(pm.get_running_model_id(), Some("a"));
    assert!(matches!(pm.port_released(releasing, Ok(())), Step::Done(Ok(()))));
    assert_eq!(pm.get_running_model_id(), None);
    assert!(matches!(pm.stop_all(), Step::Done(Ok(()))));
}

#[test]
fn a_stop_that_fails_leaves_the_model_running() {
    let mut pm = manager();
    let step = pm.start_model("a");
    start(&mut pm, step, 5).unwrap();
    let stopping = match pm.stop_all() {
        Step::Terminate(s) => s,
        other => panic!("{:?}", other),
    };
    let failed = ProcessManager::terminated(stopping, Err(ProcessError::Signal(error("no"))));
    assert!(matches!(failed, Step::Done(Err(ProcessError::Signal(_)))));
    assert_eq!(pm.get_running_model_id(), Some("a"));
    let releasing = match pm.stop_model("a") {
        Step::Terminate(s) => match ProcessManager::terminated(s, Ok(())) {
            Step::AwaitPortFree(r) => r,
            other => panic!("{:?}", other),
        },
        other => panic!("{:?}", other),
    };
    let failed = pm.port_released(releasing, Err(ProcessError::PortStillOccupied(8081)));
    assert!(matches!(failed, Step::Done(Err(ProcessError::PortStillOccupied(8081)))));
    assert_eq!(pm.get_running_model_id(), Some("a"));
}

#[test]
fn switching_stops_the_first_model_before_the_second_starts() {
    let mut pm = manager();
    let step = pm.start_model("a");
    start(&mut pm, step, 5).unwrap();
    let stopping = match pm.turn_on("b") {
        Some(Step::Terminate(s)) => s,
        other => panic!("{:?}", other),
    };
    assert_eq!(stopping.id, "a");
    let releasing = match ProcessManager::terminated(stopping, Ok(())) {
        Step::AwaitPortFree(r) => r,
        other => panic!("{:?}", other),
    };
    let pausing = match pm.port_released(releasing, Ok(())) {
        Step::Pause(p) => p,
        other => panic!("{:?}", other),
    };
    assert_eq!(pausing.millis, 500);
    assert_eq!(pausing.target, "b");
    assert!(pm.get_running_model().is_none());
    let step = pm.paused(pausing);
    start(&mut pm, step, 6).unwrap();
    assert_eq!(pm.get_running_model_id(), Some("b"));
    assert!(pm.turn_on("b").is_none());
}

#[test]
fn a_switch_whose_stop_fails_starts_nothing() {
    let mut pm = manager();
    let step = pm.start_model("a");
    start(&mut pm, step, 5).unwrap();
    let stopping = match pm.switch_model("a", "b") {
        Step::Terminate(s) => s,
        other => panic!("{:?}", other),
    };
    let done = ProcessManager::terminated(stopping, Err(ProcessError::Signal(error("no"))));
    assert!(matches!(done, Step::Done(Err(ProcessError::Signal(_)))));
    assert_eq!(pm.get_running_model_id(), Some("a"));
}

#[test]
fn a_restart_goes_on_after_a_stop_that_failed() {
    let mut pm = manager();
    let step = pm.start_model("a");
    start(&mut pm, step, 5).unwrap();
    let stopping = match pm.restart_model("a") {
        Step::Terminate(s) => s,
        other => panic!("{:?}", other),
    };
    let pausing =
        match ProcessManager::terminated(stopping, Err(ProcessError::Signal(error("no")))) {
            Step::Pause(p) => p,
            other => panic!("{:?}", other),
        };
    assert!(matches!(
        pm.paused(pausing),
        Step::Done(Err(ProcessError::AnotherModelRunning))
    ));
    assert!(matches!(manager().restart_model("b"), Step::ProbePort(_)));
}

#[test]
fn the_wait_for_a_port_ends() {
    assert!(matches!(ProcessManager::wait_port_free(80, 10000, false, 0), Some(Ok(()))));
    assert!(ProcessManager::wait_port_free(80, 10000, true, 9999).is_none());
    assert!(matches!(
        ProcessManager::wait_port_free(80, 10000, true, 10000),
        Some(Err(ProcessError::PortStillOccupied(80)))
    ));
}

#[test]
fn ports_are_told_apart() {
    let model_server = probe(1, true, reply(200, "{\"data\":[{\"id\":\"m\"}]}"), None);
    assert_eq!(ProcessManager::check_port(&model_server), PortState::OccupiedByModel);
    let other = probe(1, true, reply(200, "hello"), Some(9));
    assert_eq!(ProcessManager::check_port(&other), PortState::OccupiedByUnknown(9));
    let failing = probe(1, true, reply(500, "model"), None);
    assert_eq!(ProcessManager::check_port(&failing), PortState::OccupiedByUnknown(0));
    let named = probe(1, true, reply(200, "a model"), Some(9));
    assert_eq!(ProcessManager::check_port(&named), PortState::OccupiedByModel);
    assert_eq!(PortState::from_port_check(&named), PortState::OccupiedByUnknown(9));
    let listed = probe(1, true, reply(200, "{\"models\":[{\"id\":\"m\"}]}"), Some(9));
    assert_eq!(PortState::from_port_check(&listed), PortState::OccupiedByModel);
    let silent = probe(1, true, None, Some(3));
    assert_eq!(PortState::from_port_check(&silent), PortState::OccupiedByUnknown(3));
}

fn reconciler() -> Reconciler {
    Reconciler::new(Config {
        schema_version: 1,
        models: vec![model("a", 8081), model("b", 8082), model("c", 8083)],
        global: GlobalSettings::default(),
    })
}

#[test]
fn running_models_are_found_at_startup() {
    let up = "{\"models\":[{\"id\":\"m\"}]}";
    let none = reconciler().reconcile(&vec![probe(8081, false, None, None)]).unwrap();
    assert!(matches!(none, ReconcileResult::NoneRunning));
    let foreign = vec![probe(8081, true, reply(200, "x"), Some(4))];
    assert!(matches!(reconciler().reconcile(&foreign).unwrap(), ReconcileResult::NoneRunning));
    let one = vec![probe(8082, true, reply(200, up), None)];
    match reconciler().reconcile(&one).unwrap() {
        ReconcileResult::OneRunning(id) => assert_eq!(id, "b"),
        other => panic!("{:?}", other),
    }
    let two = vec![probe(8083, true, reply(200, up), None), probe(8081, true, reply(200, up), None)];
    match reconciler().reconcile(&two).unwrap() {
        ReconcileResult::MultipleRunning(ids) => {
            assert_eq!(ids, vec!["a".to_string(), "c".to_string()]);
        }
        other => panic!("{:?}", other),
    }
}

#[test]
fn termination_escalates() {
    let target = match guard(7, 8081).terminate() {
        TerminationStep::LookUpGroup(t) => t,
        other => panic!("{:?}", other),
    };
    assert_eq!(target.grace_ms, 10000);
    let step = LinuxProcessGuard::group_looked_up(target, GroupLookup::Found(7), 3);
    assert!(matches!(step, TerminationStep::Send(_, 7, StopSignal::Term)));
    let step =
        LinuxProcessGuard::signal_sent(target, 7, StopSignal::Term, SignalOutcome::Delivered);
    assert!(matches!(step, TerminationStep::Look(_, 7, StopSignal::Term)));
    let alive = WaitOutcome::StillAlive;
    let step = LinuxProcessGuard::looked(target, 7, StopSignal::Term, alive, 9999);
    assert!(matches!(step, TerminationStep::Wait(_, 7, StopSignal::Term)));
    let step = LinuxProcessGuard::waited(target, 7, StopSignal::Term);
    assert!(matches!(step, TerminationStep::Look(_, 7, StopSignal::Term)));
    let step = LinuxProcessGuard::looked(target, 7, StopSignal::Term, alive, 10000);
    assert!(matches!(step, TerminationStep::Send(_, 7, StopSignal::Kill)));
    let step = LinuxProcessGuard::looked(target, 7, StopSignal::Kill, alive, 4999);
    assert!(matches!(step, TerminationStep::Wait(_, 7, StopSignal::Kill)));
    match LinuxProcessGuard::looked(target, 7, StopSignal::Kill, alive, 5000) {
        TerminationStep::Done(Err(e)) => {
            assert_eq!(e.to_string(), "shutdown timeout exceeded for model 'unknown'");
        }
        other => panic!("{:?}", other),
    }
    let step = LinuxProcessGuard::looked(target, 7, StopSignal::Term, WaitOutcome::Exited(1), 0);
    assert!(matches!(step, TerminationStep::Done(Ok(()))));
}

#[test]
fn the_own_process_group_is_spared() {
    let target = match LinuxProcessGuard::terminate_process_group(7, 10) {
        TerminationStep::LookUpGroup(t) => t,
        other => panic!("{:?}", other),
    };
    match LinuxProcessGuard::group_looked_up(target, GroupLookup::Found(3), 3) {
        TerminationStep::Done(Err(ProcessError::CannotSignalOwnProcessGroup { pid })) => {
            assert_eq!(pid, 7);
        }
        other => panic!("{:?}", other),
    }
    let gone = LinuxProcessGuard::group_looked_up(target, GroupLookup::Gone, 3);
    assert!(matches!(gone, TerminationStep::Done(Ok(()))));
    let failed =
        LinuxProcessGuard::group_looked_up(target, GroupLookup::Failed(error("no")), 3);
    assert!(matches!(failed, TerminationStep::Done(Err(ProcessError::Signal(_)))));
    match LinuxProcessGuard::terminate_process_group(-4, 10) {
        TerminationStep::Done(Err(e)) => {
            assert_eq!(e.to_string(), "I/O error: cannot signal PID -4 (must be positive)");
        }
        other => panic!("{:?}", other),
    }
    match LinuxProcessGuard::terminate_process_group(0, 10) {
        TerminationStep::Done(Err(ProcessError::Io(e))) => {
            assert_eq!(e.kind(), IoErrorKind::InvalidInput);
            assert_eq!(e.text, "cannot signal PID 0 (must be positive)");
        }
        other => panic!("{:?}", other),
    }
    let sent = LinuxProcessGuard::signal_sent(
        target,
        7,
        StopSignal::Term,
        SignalOutcome::Failed(error("denied")),
    );
    match sent {
        TerminationStep::Done(Err(ProcessError::Io(e))) => assert_eq!(e.kind(), IoErrorKind::Os(1)),
        other => panic!("{:?}", other),
    }
    let none = LinuxProcessGuard { pid: None, port: 1, shutdown_timeout_sec: 10 };
    assert!(matches!(none.terminate(), TerminationStep::Done(Ok(()))));
    assert!(matches!(
        <LinuxProcessGuard as ProcessGuard>::terminate(&none),
        TerminationStep::Done(Ok(()))
    ));
}

#[test]
fn a_child_is_watched_until_it_counts_as_started() {
    assert_eq!(fork_side(-1), ForkSide::Failed);
    assert_eq!(fork_side(0), ForkSide::Child);
    let mut step = LinuxProcessGuard::setup(fork_side(42), 8081, error(""));
    let mut looks: u32 = 0;
    let guard = loop {
        step = match step {
            SpawnStep::Look(w) => {
                looks += 1;
                w.child_seen(WaitOutcome::StillAlive)
            }
            SpawnStep::Wait(w) => w.waited(),
            SpawnStep::Done(r) => break r.unwrap(),
        };
    };
    assert_eq!(looks, 50);
    assert_eq!((guard.pid, guard.port, guard.shutdown_timeout_sec), (Some(42), 8081, 10));
}

#[test]
fn errors_that_the_library_makes_are_of_no_particular_kind() {
    let failed = ProcessManager::get_port_pid(8081, None, &vec![]).unwrap_err();
    match failed {
        ProcessError::Io(e) => assert_eq!(e.kind(), IoErrorKind::Other),
        other => panic!("{:?}", other),
    }
    match ProcessError::from_toml_error("x") {
        ProcessError::Io(e) => {
            assert_eq!((e.kind(), e.text.as_str()), (IoErrorKind::Other, "toml parse error: x"));
        }
        other => panic!("{:?}", other),
    }
}

#[test]
fn a_child_that_ends_is_a_failed_spawn() {
    let watch = match <LinuxProcessGuard as ProcessGuard>::setup(ForkSide::Parent(42), 8081, error("")) {
        SpawnStep::Look(w) => w,
        other => panic!("{:?}", other),
    };
    match watch.child_seen(WaitOutcome::Exited(127)) {
        SpawnStep::Done(Err(e)) => assert_eq!(
            e.to_string(),
            "failed to spawn process: child process exited with code 127"
        ),
        other => panic!("{:?}", other),
    }
    match watch.child_seen(WaitOutcome::Ended) {
        SpawnStep::Done(Err(e)) => assert_eq!(
            e.to_string(),
            "failed to spawn process: child process exited unexpectedly"
        ),
        other => panic!("{:?}", other),
    }
    assert!(matches!(watch.child_seen(WaitOutcome::Failed), SpawnStep::Done(Ok(_))));
    match LinuxProcessGuard::setup(ForkSide::Failed, 8081, error("no memory")) {
        SpawnStep::Done(Err(e)) => {
            assert_eq!(e.to_string(), "failed to spawn process: no memory");
        }
        other => panic!("{:?}", other),
    }
}

#[test]
fn a_child_whose_parent_is_gone_gives_up() {
    assert_eq!(next_child_step(ChildStep::SetDeathSignal, 0, 10), ChildStep::CheckParent);
    assert_eq!(next_child_step(ChildStep::SetDeathSignal, -1, 10), ChildStep::Exit);
    assert_eq!(next_child_step(ChildStep::CheckParent, 10, 10), ChildStep::NewSession);
    assert_eq!(next_child_step(ChildStep::CheckParent, 1, 10), ChildStep::Exit);
    assert_eq!(next_child_step(ChildStep::NewSession, 11, 10), ChildStep::Exec);
    assert_eq!(next_child_step(ChildStep::NewSession, -1, 10), ChildStep::Exit);
    assert_eq!(next_child_step(ChildStep::Exec, -1, 10), ChildStep::Exit);
}

const TABLE: &str = "  sl  local_address rem_address   st tx_queue rx_queue tr tm->when retrnsmt   uid  timeout inode
   0: 0100007F:1F91 00000000:0000 0A 00000000:00000000 00:00000000 00000000  1000        0 35789 1 0 100 0 0 10 0
   1: 0100007F:2378 00000000:0000 0A 00000000:00000000 00:00000000 00000000  1000        0 40000 1 0 100 0 0 10 0
";

fn entry(name: &str, link: &str) -> ProcEntry {
    ProcEntry { name: name.to_string(), fd_links: vec!["/dev/null".to_string(), link.to_string()] }
}

#[test]
fn the_holder_of_a_port_is_found() {
    let entries =
        vec![entry("self", "socket:[35789]"), entry("12", "pipe:[3]"), entry("34", "socket:[35789]")];
    assert_eq!(ProcessManager::get_port_pid(8081, Some(TABLE), &entries).unwrap(), 34);
    let failed = ProcessManager::get_port_pid(9080, Some(TABLE), &entries).unwrap_err();
    assert_eq!(failed.to_string(), "I/O error: couldn't determine port PID");
    let lookalike = vec![entry("1", "socket:[357890]"), entry("1234", "socket:[35789]")];
    assert_eq!(ProcessManager::get_port_pid(8081, Some(TABLE), &lookalike).unwrap(), 1234);
    let prefixed = vec![entry("proc34", "socket:[35789]"), entry("2", "/tmp/35789")];
    assert!(ProcessManager::get_port_pid(8081, Some(TABLE), &prefixed).is_err());
    assert!(ProcessManager::get_port_pid(8082, Some(TABLE), &entries).is_err());
    assert!(ProcessManager::get_port_pid(8081, None, &entries).is_err());
    assert!(ProcessManager::get_port_pid(8081, Some("0: 1:1F91"), &entries).is_err());
}

#[test]
fn the_lock_belongs_to_the_first_instance() {
    assert_eq!(lock_name(), "ai-switch");
    let mut guard = SingleInstanceGuard::try_acquire(Some(7u8), true).unwrap();
    assert!(guard.is_held());
    guard.release();
    assert!(!guard.is_held());
    guard.release();
    assert!(!guard.is_held());
    assert!(SingleInstanceGuard::try_acquire(Some(7u8), false).is_err());
    assert!(SingleInstanceGuard::<u8>::try_acquire(None, true).is_err());
}

#[test]
fn a_running_model_can_be_recorded() {
    let mut pm = manager();
    pm.set_running_model(RunningModel {
        id: "b".to_string(),
        guard: guard(9, 8082),
        state: ModelState::Ready,
    });
    assert_eq!(pm.get_running_model_id(), Some("b"));
    assert_eq!(pm.config().models.len(), 2);
    assert!(matches!(pm.stop_model("b"), Step::Terminate(_)));
}
