use ai_switch::config::Config;
use ai_switch::config::GlobalSettings;
use ai_switch::config::ModelConfig;
use ai_switch::model_card::append_grouped;
use ai_switch::model_card::context_text;
use ai_switch::model_card::CardState;
use ai_switch::model_card::ModelCard;
use ai_switch::model_card::PollingState;
use ai_switch::process_manager::ModelState;
use ai_switch::process_manager::PortState;
use ai_switch::process_manager::ProcessError;
use ai_switch::process_manager::ProcessManager;
use ai_switch::proxy::ProxyState;
use ai_switch::window::find_running;
use ai_switch::window::poll_target;
use ai_switch::window::update_proxy;
use ai_switch::window::ChannelMessage;
use ai_switch::window::MainWindow;
use ai_switch::window::SlotUpdate;
use ai_switch::window::ToggleAction;

fn model(id: &str, port: u16) -> ModelConfig {
    ModelConfig {
        id: id.to_string(),
        name: format!("Model {}", id),
        script_path: format!("/s/{}.sh", id),
        port,
        health_timeout_sec: 30,
    }
}

fn config() -> Config {
    Config {
        schema_version: 1,
        models: vec![model("a", 8081), model("b", 8082)],
        global: GlobalSettings::default(),
    }
}

fn window() -> MainWindow {
    MainWindow::new(config(), Some("/c.toml".to_string()))
}

fn switched(id: &str, result: Result<(), ProcessError>) -> ChannelMessage {
    ChannelMessage::SwitchCompleted { target_id: id.to_string(), result }
}

fn stopped(id: &str, result: Result<(), ProcessError>) -> ChannelMessage {
    ChannelMessage::StopCompleted { running_id: id.to_string(), result }
}

fn restarting(id: &str) -> ChannelMessage {
    ChannelMessage::RestartRequested { model_id: id.to_string() }
}

#[test]
fn a_new_card_shows_a_stopped_model() {
    let card = ModelCard::new(&model("a", 8081));
    assert_eq!(card.heading(), "Model a (port 8081)");
    assert_eq!(card.state(), CardState::Stopped);
    assert_eq!(card.polling_state(), PollingState::Inactive);
    assert!(!card.polling_state().is_active());
    assert_eq!(card.toggle_label(), "OFF");
    assert_eq!(card.status_text(), "Stopped");
    assert_eq!(card.context_text(), "");
    assert_eq!(card.restart_label(), "Restart");
    assert!(card.toggle_sensitive());
    assert!(!card.toggle_active());
    assert!(!card.restart_sensitive());
    assert!(!card.logs_sensitive());
    assert!(!card.is_active());
    assert_eq!(card.config().id, "a");
}

#[test]
fn cards_show_their_state() {
    let mut card = ModelCard::new(&model("a", 8081));
    card.set_state(CardState::Ready);
    assert_eq!((card.toggle_label(), card.status_text()), ("ON", "Ready"));
    assert!(card.toggle_active() && card.toggle_sensitive());
    assert!(card.restart_sensitive() && card.logs_sensitive());
    card.set_state(CardState::Loading);
    assert_eq!((card.toggle_label(), card.status_text()), ("ON", "Loading..."));
    assert!(!card.toggle_sensitive() && !card.restart_sensitive() && !card.logs_sensitive());
    card.enable_toggle();
    assert!(!card.toggle_sensitive());
    card.set_starting();
    assert_eq!((card.toggle_label(), card.status_text()), ("ON", "Starting..."));
    card.set_state(CardState::Error("broken".to_string()));
    assert_eq!((card.toggle_label(), card.status_text()), ("OFF", "broken"));
    assert!(card.toggle_sensitive() && card.restart_sensitive() && card.logs_sensitive());
    card.disable_toggle();
    assert!(!card.toggle_sensitive());
    card.enable_toggle();
    assert!(card.toggle_sensitive());
    card.set_state(CardState::Stopped);
    assert!(!card.restart_sensitive() && !card.logs_sensitive());
}

#[test]
fn states_are_on_or_on_their_way() {
    assert!(CardState::Ready.is_on() && !CardState::Ready.is_transitioning());
    assert!(CardState::Starting.is_on() && CardState::Starting.is_transitioning());
    assert!(CardState::Loading.is_on() && CardState::Loading.is_transitioning());
    assert!(!CardState::Stopped.is_on() && !CardState::Stopped.is_transitioning());
    let error = CardState::Error("x".to_string());
    assert!(!error.is_on() && !error.is_transitioning() && error.has_settled());
    assert_eq!(error.clone().status_text(), "x");
    assert!(PollingState::Error.is_active());
}

#[test]
fn a_restart_is_shown_until_it_is_over() {
    let mut card = ModelCard::new(&model("a", 8081));
    card.set_state(CardState::Ready);
    assert!(!card.restart_requested());
    card.disable_restart();
    assert!(card.restart_requested());
    assert_eq!(card.restart_label(), "Restarting…");
    assert!(!card.restart_sensitive());
    card.enable_restart();
    assert!(!card.restart_requested());
    assert!(card.restart_sensitive());
}

#[test]
fn blocked_signals_do_not_count() {
    let mut card = ModelCard::new(&model("a", 8081));
    assert_eq!(card.toggled(true), Some(true));
    assert!(card.toggle_active());
    card.block_signals();
    assert_eq!(card.toggled(false), None);
    card.unblock_signals();
    assert_eq!(card.toggled(false), Some(false));
    card.block_signals();
    card.set_state(CardState::Ready);
    assert_eq!(card.toggled(false), Some(false));
}

#[test]
fn the_use_of_the_context_is_shown() {
    let mut card = ModelCard::new(&model("a", 8081));
    card.set_context(1024, 32000, "3.2");
    assert_eq!(card.context_text(), "Context: 1,024 / 32,000 (3.2%)");
    assert_eq!(card.polling_state(), PollingState::Active { tokens_used: 1024, n_ctx: 32000 });
    assert!(!card.context_alert());
    card.set_context(28800, 32000, "90.0");
    assert!(card.context_alert());
    card.set_context(28799, 32000, "90.0");
    assert!(!card.context_alert());
    card.set_context(3, 0, "0.0");
    assert!(!card.context_alert());
    card.clear_context();
    assert_eq!(card.context_text(), "");
    assert_eq!(card.polling_state(), PollingState::Inactive);
}

#[test]
fn thousands_are_grouped() {
    let cases: Vec<(u64, &str)> = vec![
        (0, "0"),
        (999, "999"),
        (1000, "1,000"),
        (12034, "12,034"),
        (1000000, "1,000,000"),
        (18446744073709551615, "18,446,744,073,709,551,615"),
    ];
    for (n, text) in cases {
        let mut s = String::new();
        append_grouped(&mut s, n);
        assert_eq!(s, text);
    }
    assert_eq!(context_text(5, 10, "50.0"), "Context: 5 / 10 (50.0%)");
}

#[test]
fn a_completed_switch_shows_one_model() {
    let mut w = window();
    w.receive(&switched("a", Ok(())));
    assert_eq!(w.cards()[0].state(), CardState::Ready);
    assert!(w.cards()[0].is_active());
    assert_eq!(w.cards()[1].state(), CardState::Stopped);
    w.receive(&switched("b", Ok(())));
    assert_eq!(w.cards()[0].state(), CardState::Stopped);
    assert!(!w.cards()[0].is_active());
    assert_eq!(w.cards()[1].state(), CardState::Ready);
    w.receive(&switched("a", Err(ProcessError::AnotherModelRunning)));
    assert_eq!(w.cards()[0].status_text(), "Failed to start: another model is already running");
    assert!(w.cards()[0].restart_sensitive());
    assert_eq!(w.cards()[1].state(), CardState::Stopped);
}

#[test]
fn a_completed_stop_shows_its_model() {
    let mut w = window();
    w.receive(&switched("a", Ok(())));
    w.receive(&stopped("a", Err(ProcessError::PortStillOccupied(8081))));
    assert_eq!(
        w.cards()[0].status_text(),
        "Failed to stop: port 8081 still occupied after shutdown timeout"
    );
    w.receive(&stopped("a", Ok(())));
    assert_eq!(w.cards()[0].state(), CardState::Stopped);
    w.receive(&stopped("b", Ok(())));
    assert_eq!(w.cards()[1].state(), CardState::Stopped);
}

#[test]
fn a_restart_clears_the_other_cards() {
    let mut w = window();
    w.receive(&switched("b", Ok(())));
    w.receive(&restarting("a"));
    assert!(w.cards()[0].restart_requested());
    assert_eq!(w.cards()[1].state(), CardState::Stopped);
    assert!(!w.cards()[1].is_active());
    w.receive(&switched("a", Ok(())));
    assert!(!w.cards()[0].restart_requested());
}

#[test]
fn toggles_lead_to_actions() {
    let mut w = window();
    assert_eq!(w.toggled("z", true), ToggleAction::Ignore);
    assert_eq!(w.toggled("a", true), ToggleAction::TurnOn);
    assert_eq!(w.cards()[0].state(), CardState::Starting);
    assert!(!w.cards()[0].toggle_sensitive());
    assert!(!w.cards()[1].toggle_sensitive());
    assert_eq!(w.toggled("a", true), ToggleAction::Ignore);
    assert_eq!(w.toggled("a", false), ToggleAction::StopRunning);
    assert!(!w.cards()[0].toggle_active());
    assert_eq!(w.toggled("z", false), ToggleAction::StopRunning);
    w.receive(&switched("a", Ok(())));
    assert!(w.cards()[0].toggle_sensitive());
    assert!(w.cards()[1].toggle_sensitive());
}

#[test]
fn a_restart_is_asked_for_once() {
    let mut w = window();
    w.receive(&switched("a", Ok(())));
    assert!(w.restart_clicked("a"));
    assert!(!w.restart_clicked("a"));
    assert!(!w.restart_clicked("z"));
    w.receive(&switched("a", Ok(())));
    assert!(w.restart_clicked("a"));
    w.toggled("b", true);
    assert!(!w.restart_clicked("b"));
}

#[test]
fn context_updates_reach_their_card() {
    let mut w = window();
    let update = SlotUpdate { model_id: "b".to_string(), tokens_used: 10, n_ctx: 20 };
    w.update_context(&update, "50.0");
    assert_eq!(w.cards()[0].context_text(), "");
    assert_eq!(w.cards()[1].context_text(), "Context: 10 / 20 (50.0%)");
}

#[test]
fn a_model_that_runs_already_is_restored() {
    let states =
        vec![PortState::OccupiedByUnknown(3), PortState::OccupiedByModel, PortState::OccupiedByModel];
    assert_eq!(find_running(&states), Some(1));
    assert_eq!(find_running(&vec![PortState::Free]), None);
    let mut w = window();
    let mut pm = ProcessManager::new(config());
    assert!(poll_target(&pm).is_none());
    w.restore(&mut pm, 1, Some(77));
    assert_eq!(w.cards()[1].state(), CardState::Ready);
    assert!(w.cards()[1].is_active());
    assert_eq!(w.cards()[0].state(), CardState::Stopped);
    let running = pm.get_running_model().unwrap();
    assert_eq!(running.id, "b");
    assert_eq!(running.state, ModelState::Ready);
    assert_eq!(running.guard.pid, Some(77));
    assert_eq!(running.guard.port, 8082);
    assert_eq!(running.guard.shutdown_timeout_sec, 10);
    assert_eq!(poll_target(&pm), Some(("b".to_string(), 8082)));
}

#[test]
fn the_proxy_follows_the_models() {
    let c = config();
    let mut state = ProxyState::new();
    update_proxy(&mut state, &c, &switched("b", Ok(())));
    assert_eq!(state.target_port, Some(8082));
    update_proxy(&mut state, &c, &switched("a", Err(ProcessError::AnotherModelRunning)));
    assert_eq!(state.target_port, Some(8082));
    update_proxy(&mut state, &c, &restarting("b"));
    assert_eq!(state.target_port, Some(8082));
    update_proxy(&mut state, &c, &stopped("b", Err(ProcessError::AnotherModelRunning)));
    assert_eq!(state.target_port, Some(8082));
    update_proxy(&mut state, &c, &stopped("b", Ok(())));
    assert_eq!(state.target_port, None);
}

#[test]
fn a_window_knows_its_configuration() {
    let w = window();
    assert_eq!(w.config_path(), "/c.toml");
    assert_eq!(w.config().models.len(), 2);
    assert_eq!(MainWindow::new(config(), None).config_path(), "/nonexistent/config.toml");
}
