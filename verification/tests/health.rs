use ai_switch::health_monitor::find_model_name;
use ai_switch::health_monitor::models_url;
use ai_switch::health_monitor::HealthMonitor;
use ai_switch::health_monitor::HealthStep;
use ai_switch::health_monitor::HealthWait;
use ai_switch::process_manager::HttpReply;
use ai_switch::process_manager::ModelState;

fn reply(status: u16, body: &str) -> Result<HttpReply, String> {
    Ok(HttpReply { status, body: Some(body.to_string()) })
}

fn first_wait(monitor: &HealthMonitor) -> HealthWait {
    match monitor.wait_until_ready() {
        HealthStep::Check(w) => w,
        other => panic!("{:?}", other),
    }
}

#[test]
fn test_health_monitor_creation() {
    let monitor = HealthMonitor::new(8081, 30);
    assert_eq!(monitor.port, 8081);
    assert_eq!(monitor.timeout_sec, 30);
}

#[test]
fn test_health_check_on_free_port() {
    let monitor = HealthMonitor::new(9999, 5);
    // Nothing listens on the port: the request fails
    let result = monitor.check_health(&Err("connection refused".to_string()));
    assert!(result.is_err());
    assert_eq!(
        result.unwrap_err().to_string(),
        "health check failed during startup of 'could not reach http://127.0.0.1:9999/v1/models: connection refused'"
    );
}

#[test]
fn a_list_of_models_means_ready() {
    let monitor = HealthMonitor::new(8081, 30);
    assert_eq!(models_url(8081), "http://127.0.0.1:8081/v1/models");
    let ready = reply(200, "{\"models\":[{\"id\":\"m\"}]}");
    assert!(matches!(monitor.check_health(&ready), Ok(true)));
    assert!(matches!(monitor.check_health(&reply(503, "{\"models\":[{\"id\":1}]}")), Ok(false)));
    assert!(matches!(monitor.check_health(&reply(200, "{\"models\":[]}")), Ok(false)));
    let unread: Result<HttpReply, String> = Ok(HttpReply { status: 200, body: None });
    assert!(matches!(monitor.check_health(&unread), Ok(false)));
}

#[test]
fn progress_names_the_model() {
    let body = "{\"data\":[{\"id\": \"Llama-3.2\", \"object\":\"model\"}]}";
    assert_eq!(find_model_name(body), Some("Llama-3.2".to_string()));
    assert_eq!(
        HealthMonitor::get_loading_progress(&reply(200, body)),
        Some("loading: Llama-3.2".to_string())
    );
    assert_eq!(HealthMonitor::get_loading_progress(&reply(200, "{}")), None);
    assert_eq!(HealthMonitor::get_loading_progress(&reply(503, body)), None);
    assert_eq!(HealthMonitor::get_loading_progress(&Err("no".to_string())), None);
    assert_eq!(find_model_name("\"id\": 3"), None);
    assert_eq!(find_model_name("\"id\": \"open"), None);
}

#[test]
fn a_wait_ends_when_the_model_is_ready() {
    let monitor = HealthMonitor::new(8081, 30);
    match first_wait(&monitor).checked(Ok(true)) {
        HealthStep::Done(state) => assert_eq!(state, ModelState::Ready),
        other => panic!("{:?}", other),
    }
}

#[test]
fn a_wait_goes_from_starting_over_loading() {
    let monitor = HealthMonitor::new(8081, 30);
    let wait = first_wait(&monitor);
    assert_eq!(wait.state, ModelState::Starting);
    let wait = match wait.checked(Ok(false)) {
        HealthStep::AskProgress(w) => w,
        other => panic!("{:?}", other),
    };
    let wait = match wait.progressed(Some("loading: m".to_string())) {
        HealthStep::ReadClock(w) => w,
        other => panic!("{:?}", other),
    };
    assert_eq!(wait.state, ModelState::Loading);
    let wait = match wait.clock_read(29999) {
        HealthStep::Pause(w) => w,
        other => panic!("{:?}", other),
    };
    let wait = match wait.paused() {
        HealthStep::Check(w) => w,
        other => panic!("{:?}", other),
    };
    assert_eq!(wait.state, ModelState::Loading);
    let wait = match wait.checked(Ok(false)) {
        HealthStep::AskProgress(w) => w,
        other => panic!("{:?}", other),
    };
    let wait = match wait.progressed(None) {
        HealthStep::ReadClock(w) => w,
        other => panic!("{:?}", other),
    };
    assert_eq!(wait.state, ModelState::Starting);
    match wait.clock_read(30000) {
        HealthStep::Done(ModelState::Error(message)) => {
            assert_eq!(message, "health check timeout after 30s");
        }
        other => panic!("{:?}", other),
    }
}

#[test]
fn an_unreachable_model_is_waited_for_until_the_timeout() {
    let monitor = HealthMonitor::new(8081, 3);
    let refused = || monitor.check_health(&Err("connection refused".to_string()));
    let wait = match first_wait(&monitor).checked(refused()) {
        HealthStep::ReadClock(w) => w,
        other => panic!("{:?}", other),
    };
    assert_eq!(wait.state, ModelState::Starting);
    let wait = match wait.clock_read(0) {
        HealthStep::Pause(w) => w,
        other => panic!("{:?}", other),
    };
    let wait = match wait.paused() {
        HealthStep::Check(w) => w,
        other => panic!("{:?}", other),
    };
    let ready = monitor.check_health(&reply(200, "{\"models\":[{\"id\":\"m\"}]}"));
    match wait.checked(ready) {
        HealthStep::Done(state) => assert_eq!(state, ModelState::Ready),
        other => panic!("{:?}", other),
    }
    let late = match first_wait(&monitor).checked(refused()) {
        HealthStep::ReadClock(w) => w,
        other => panic!("{:?}", other),
    };
    match late.clock_read(3000) {
        HealthStep::Done(ModelState::Error(message)) => {
            assert_eq!(message, "health check timeout after 3s");
        }
        other => panic!("{:?}", other),
    }
}
