use ai_switch::json::escape_json;
use ai_switch::proxy::error_response;
use ai_switch::proxy::forward_method;
use ai_switch::proxy::handle_forward_outcome;
use ai_switch::proxy::handle_proxy_request;
use ai_switch::proxy::pass_on_headers;
use ai_switch::proxy::ForwardMethod;
use ai_switch::proxy::ForwardOutcome;
use ai_switch::proxy::ForwardRequest;
use ai_switch::proxy::HeaderLine;
use ai_switch::proxy::IncomingRequest;
use ai_switch::proxy::ProxyAction;
use ai_switch::proxy::ProxyAnswer;
use ai_switch::proxy::ProxyServer;
use ai_switch::proxy::ProxyState;

#[test]
fn test_proxy_state_default() {
    let state = ProxyState::default();
    assert!(state.target_port.is_none());
    assert!(!state.is_loading);
}

#[test]
fn test_proxy_state_set_target() {
    let mut state = ProxyState::new();
    state.set_target(8081);
    assert_eq!(state.target_port, Some(8081));
    assert!(!state.is_loading);
}

#[test]
fn test_proxy_state_set_loading() {
    let mut state = ProxyState::new();
    state.set_target(8081);
    state.set_loading();
    assert_eq!(state.target_port, Some(8081));
    assert!(state.is_loading);
}

#[test]
fn test_proxy_state_clear() {
    let mut state = ProxyState::new();
    state.set_target(8081);
    state.clear();
    assert!(state.target_port.is_none());
    assert!(!state.is_loading);
}

#[test]
fn test_proxy_state_lifecycle() {
    let mut state = ProxyState::new();

    // Initial: no model
    assert!(state.target_port.is_none());
    assert!(!state.is_loading);

    // Model starting
    state.set_loading();
    assert!(state.is_loading);

    // Model ready
    state.set_target(9081);
    assert_eq!(state.target_port, Some(9081));
    assert!(!state.is_loading);

    // Model stopped
    state.clear();
    assert!(state.target_port.is_none());
    assert!(!state.is_loading);

    // Switch to another model
    state.set_loading();
    state.set_target(9082);
    assert_eq!(state.target_port, Some(9082));
    assert!(!state.is_loading);
}

fn header(field: &str, value: &[u8]) -> HeaderLine {
    HeaderLine { field: field.as_bytes().to_vec(), value: value.to_vec() }
}

fn request(method: &str, url: &str, body: &[u8]) -> IncomingRequest {
    IncomingRequest {
        method: method.to_string(),
        url: url.to_string(),
        headers: vec![header("accept", b"text/plain"), header("x-name", "naïve".as_bytes())],
        body: body.to_vec(),
    }
}

fn forwarded(state: &ProxyState, req: IncomingRequest) -> ForwardRequest {
    match handle_proxy_request(state, req) {
        ProxyAction::Forward(f) => f,
        ProxyAction::Respond(r) => panic!("{:?}", r),
    }
}

#[test]
fn requests_without_a_model_are_refused() {
    let mut state = ProxyState::new();
    match handle_proxy_request(&state, request("GET", "/", b"")) {
        ProxyAction::Respond(r) => {
            assert_eq!(r.status, 503);
            assert_eq!(r.content_type, "application/json");
            assert_eq!(r.body, "{\"error\": \"No active model server in ai-switch\"}");
        }
        other => panic!("{:?}", other),
    }
    state.set_loading();
    match handle_proxy_request(&state, request("GET", "/", b"")) {
        ProxyAction::Respond(r) => {
            assert_eq!(r.body, "{\"error\": \"No active model server in ai-switch\"}");
        }
        other => panic!("{:?}", other),
    }
    state.set_target(8081);
    state.set_loading();
    match handle_proxy_request(&state, request("GET", "/", b"")) {
        ProxyAction::Respond(r) => {
            assert_eq!(r.status, 503);
            assert_eq!(r.body, "{\"error\": \"Model server is currently starting/restarting\"}");
        }
        other => panic!("{:?}", other),
    }
}

#[test]
fn requests_go_to_the_active_model() {
    let mut state = ProxyState::new();
    state.set_target(8081);
    let f = forwarded(&state, request("POST", "/v1/chat?stream=1", b"hello"));
    assert_eq!(f.url, "http://127.0.0.1:8081/v1/chat?stream=1");
    assert_eq!(f.method, ForwardMethod::Post);
    assert_eq!(f.body, Some(b"hello".to_vec()));
    assert_eq!(f.headers.len(), 2);
    assert_eq!(f.headers[0].field, b"accept".to_vec());
    assert_eq!(f.headers[0].value, b"text/plain".to_vec());
    let f = forwarded(&state, request("GET", "/", b""));
    assert_eq!(f.body, None);
    assert_eq!(f.method, ForwardMethod::Get);
}

#[test]
fn a_value_that_is_no_ascii_is_passed_on_empty() {
    let mut state = ProxyState::new();
    state.set_target(1);
    let f = forwarded(&state, request("GET", "/", b""));
    assert_eq!(f.headers[1].field, b"x-name".to_vec());
    assert_eq!(f.headers[1].value, Vec::<u8>::new());
    let passed = pass_on_headers(&vec![header("a", &[127]), header("b", &[128])]);
    assert_eq!(passed[0].value, vec![127u8]);
    assert_eq!(passed[1].value, Vec::<u8>::new());
}

#[test]
fn methods_are_kept_or_become_get() {
    assert_eq!(forward_method("POST"), ForwardMethod::Post);
    assert_eq!(forward_method("PUT"), ForwardMethod::Put);
    assert_eq!(forward_method("DELETE"), ForwardMethod::Delete);
    assert_eq!(forward_method("PATCH"), ForwardMethod::Patch);
    assert_eq!(forward_method("HEAD"), ForwardMethod::Head);
    assert_eq!(forward_method("OPTIONS"), ForwardMethod::Options);
    assert_eq!(forward_method("GET"), ForwardMethod::Get);
    assert_eq!(forward_method("TRACE"), ForwardMethod::Get);
    assert_eq!(forward_method("post"), ForwardMethod::Get);
}

#[test]
fn answers_are_passed_on_with_their_length() {
    let answered = handle_forward_outcome(ForwardOutcome::Answered {
        status: 404,
        headers: vec![header("server", b"llama"), header("x", &[200])],
        content_length: Some(120),
    });
    match answered {
        ProxyAnswer::Stream { status, headers } => {
            assert_eq!(status, 404);
            assert_eq!(headers.len(), 3);
            assert_eq!(headers[0].value, b"llama".to_vec());
            assert_eq!(headers[1].value, Vec::<u8>::new());
            assert_eq!(headers[2].field, b"content-length".to_vec());
            assert_eq!(headers[2].value, b"120".to_vec());
        }
        other => panic!("{:?}", other),
    }
    let streamed = handle_forward_outcome(ForwardOutcome::Answered {
        status: 200,
        headers: vec![],
        content_length: None,
    });
    match streamed {
        ProxyAnswer::Stream { status, headers } => assert_eq!((status, headers.len()), (200, 0)),
        other => panic!("{:?}", other),
    }
}

#[test]
fn forwards_that_fail_are_answered_with_503() {
    match handle_forward_outcome(ForwardOutcome::Failed) {
        ProxyAnswer::Error(r) => {
            assert_eq!(r.status, 503);
            assert_eq!(r.body, "{\"error\": \"Model server unavailable\"}");
        }
        other => panic!("{:?}", other),
    }
    match handle_forward_outcome(ForwardOutcome::NoClient) {
        ProxyAnswer::Error(r) => {
            assert_eq!(r.status, 503);
            assert_eq!(r.body, "{\"error\": \"Proxy client error\"}");
        }
        other => panic!("{:?}", other),
    }
    assert_eq!(error_response(500, "x").status, 500);
}

#[test]
fn the_proxy_listens_on_the_loopback_interface() {
    assert_eq!(ProxyServer::address(9080), "127.0.0.1:9080");
    let failed = ProxyServer::new(9080, Err("in use".to_string())).unwrap_err();
    assert_eq!(failed, "failed to bind proxy server to 127.0.0.1:9080: in use");
}

#[test]
fn a_stopped_proxy_serves_nothing() {
    let mut server = ProxyServer::new(9080, Ok(())).unwrap();
    assert!(ProxyServer::serves(false, server.shutdown_flag));
    assert!(server.stop());
    assert!(!server.stop());
    assert!(!ProxyServer::serves(false, server.shutdown_flag));
    assert!(!ProxyServer::serves(true, false));
}

#[test]
fn error_bodies_read_back_as_the_message() {
    let messages = vec![
        "plain",
        "",
        "\"",
        "a \"quoted\" C:\\path",
        "line\nbreak\ttab\u{1}\u{1f}\u{7f}",
        "naïve — 🦙 </script>",
    ];
    for message in messages {
        let reply = error_response(418, message);
        assert_eq!((reply.status, reply.content_type.as_str()), (418, "application/json"));
        let parsed: serde_json::Value = serde_json::from_str(&reply.body).unwrap();
        assert_eq!(parsed.as_object().unwrap().len(), 1);
        assert_eq!(parsed["error"].as_str(), Some(message));
    }
    assert_eq!(error_response(500, "\"").body, "{\"error\": \"\\\"\"}");
    assert_eq!(escape_json("\u{1f}\\"), "\\u001f\\\\");
}
