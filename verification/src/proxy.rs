//! Reverse proxy: one fixed local port in front of whichever model is Ready.
//!
//! - Model Ready: the request is forwarded to `http://127.0.0.1:{port of the model}`.
//! - No model: status 503 with a JSON error body.
//! - Loading (starting or restarting): status 503 with a "currently starting" message.

use vstd::prelude::*;
use vstd::slice::*;
use vstd::string::*;
use vstd::utf8::*;

use crate::health_monitor::base_url;
use crate::health_monitor::local_base_url;
use crate::json::escape_json;
use crate::json::json_decoded;
use crate::json::json_escaped;
use crate::json::law_escaped_text_reads_back;
use crate::json::law_plain_text_is_kept;
use crate::text::append_decimal;
use crate::text::decimal;
use crate::text::decimal_text;
use crate::text::same_text;

verus! {

/// What the proxy knows of the active model.
#[derive(Debug)]
pub struct ProxyState {
    /// The port of the currently active model server, if any.
    pub target_port: Option<u16>,
    /// Whether a model is starting or restarting. While it is, requests are refused even where
    /// there is a target port, because the model on that port is not Ready yet.
    pub is_loading: bool,
}

impl Clone for ProxyState {
    fn clone(&self) -> (r: Self)
        ensures
            r == *self,
    {
        ProxyState { target_port: self.target_port, is_loading: self.is_loading }
    }
}

impl Default for ProxyState {
    fn default() -> (r: Self)
        ensures
            r == (ProxyState { target_port: None, is_loading: false }),
    {
        ProxyState { target_port: None, is_loading: false }
    }
}

impl ProxyState {
    /// A proxy state with no active model.
    pub fn new() -> (r: Self)
        ensures
            r == (ProxyState { target_port: None, is_loading: false }),
    {
        ProxyState { target_port: None, is_loading: false }
    }

    /// Sets the target port and marks the model as loaded (Ready).
    pub fn set_target(&mut self, port: u16)
        ensures
            *final(self) == (ProxyState { target_port: Some(port), is_loading: false }),
    {
        self.target_port = Some(port);
        self.is_loading = false;
    }

    /// Marks the proxy as loading (the model is starting or restarting).
    pub fn set_loading(&mut self)
        ensures
            *final(self) == (ProxyState { is_loading: true, ..*old(self) }),
    {
        self.is_loading = true;
    }

    /// Clears the target port and marks the proxy as not loading.
    pub fn clear(&mut self)
        ensures
            *final(self) == (ProxyState { target_port: None, is_loading: false }),
    {
        self.target_port = None;
        self.is_loading = false;
    }
}

/// A header: the bytes of its name and of its value.
#[derive(Debug)]
pub struct HeaderLine {
    pub field: Vec<u8>,
    pub value: Vec<u8>,
}

/// What a `HeaderLine` says.
pub struct HeaderView {
    pub field: Seq<u8>,
    pub value: Seq<u8>,
}

impl View for HeaderLine {
    type V = HeaderView;

    open spec fn view(&self) -> HeaderView {
        HeaderView { field: self.field@, value: self.value@ }
    }
}

/// What a list of headers says.
pub open spec fn header_views(headers: Seq<HeaderLine>) -> Seq<HeaderView> {
    headers.map_values(|h: HeaderLine| h@)
}

/// Bytes that are all ASCII.
pub open spec fn ascii(bytes: Seq<u8>) -> bool {
    forall|i: int| 0 <= i < bytes.len() ==> #[trigger] bytes[i] < 128
}

/// Headers whose names are all ASCII.
pub open spec fn ascii_fields(headers: Seq<HeaderView>) -> bool {
    forall|i: int| 0 <= i < headers.len() ==> ascii((#[trigger] headers[i]).field)
}

/// `tiny_http::Header::from_bytes`: makes a header of a name and a value, and fails exactly
/// where one of them holds a byte that is no ASCII. Whether it makes one is all that is told
/// here; the header itself holds the bytes it was given.
#[verifier::external_body]
pub(crate) fn is_header(field: &[u8], value: &[u8]) -> (made: bool)
    ensures
        made == (ascii(field@) && ascii(value@)),
{
    tiny_http::Header::from_bytes(field, value).is_ok()
}

/// The header that is passed on for a header: itself where it can be one, else its name with an
/// empty value.
pub open spec fn passed_on(header: HeaderView) -> HeaderView {
    if ascii(header.field) && ascii(header.value) {
        header
    } else {
        HeaderView { field: header.field, value: seq![] }
    }
}

/// The headers that are passed on for a list of headers.
pub open spec fn all_passed_on(headers: Seq<HeaderView>) -> Seq<HeaderView> {
    headers.map_values(|h: HeaderView| passed_on(h))
}

/// The headers that are passed on for a list of headers.
pub fn pass_on_headers(headers: &Vec<HeaderLine>) -> (out: Vec<HeaderLine>)
    requires
        ascii_fields(header_views(headers@)),
    ensures
        header_views(out@) == all_passed_on(header_views(headers@)),
{
    let mut out: Vec<HeaderLine> = Vec::new();
    let mut i: usize = 0;
    while i < headers.len()
        invariant
            i <= headers@.len(),
            out@.len() == i,
            forall|j: int| 0 <= j < i ==> (#[trigger] out@[j])@ == passed_on(headers@[j]@),
        decreases headers@.len() - i,
    {
        let field = headers[i].field.as_slice();
        let value = headers[i].value.as_slice();
        let line = if is_header(field, value) {
            HeaderLine { field: slice_to_vec(field), value: slice_to_vec(value) }
        } else {
            HeaderLine { field: slice_to_vec(field), value: Vec::new() }
        };
        proof {
            assert(line@ == passed_on(headers@[i as int]@));
        }
        out.push(line);
        i = i + 1;
    }
    proof {
        assert(header_views(out@) =~= all_passed_on(header_views(headers@)));
    }
    out
}

/// A method that requests are forwarded with.
#[derive(Debug, Clone, Copy, PartialEq, Eq, Structural)]
pub enum ForwardMethod {
    Get,
    Post,
    Put,
    Delete,
    Patch,
    Head,
    Options,
}

/// The method that a request is forwarded with: its own where it is one of these, else GET.
pub open spec fn forward_method_of(method: Seq<char>) -> ForwardMethod {
    if method == "POST"@ {
        ForwardMethod::Post
    } else if method == "PUT"@ {
        ForwardMethod::Put
    } else if method == "DELETE"@ {
        ForwardMethod::Delete
    } else if method == "PATCH"@ {
        ForwardMethod::Patch
    } else if method == "HEAD"@ {
        ForwardMethod::Head
    } else if method == "OPTIONS"@ {
        ForwardMethod::Options
    } else {
        ForwardMethod::Get
    }
}

/// The name of a method.
pub open spec fn method_name(method: ForwardMethod) -> Seq<char> {
    match method {
        ForwardMethod::Get => "GET"@,
        ForwardMethod::Post => "POST"@,
        ForwardMethod::Put => "PUT"@,
        ForwardMethod::Delete => "DELETE"@,
        ForwardMethod::Patch => "PATCH"@,
        ForwardMethod::Head => "HEAD"@,
        ForwardMethod::Options => "OPTIONS"@,
    }
}

/// The method that a request is forwarded with.
pub fn forward_method(method: &str) -> (m: ForwardMethod)
    ensures
        m == forward_method_of(method@),
{
    if same_text(method, "POST") {
        ForwardMethod::Post
    } else if same_text(method, "PUT") {
        ForwardMethod::Put
    } else if same_text(method, "DELETE") {
        ForwardMethod::Delete
    } else if same_text(method, "PATCH") {
        ForwardMethod::Patch
    } else if same_text(method, "HEAD") {
        ForwardMethod::Head
    } else if same_text(method, "OPTIONS") {
        ForwardMethod::Options
    } else {
        ForwardMethod::Get
    }
}

/// A request as it came in: its method, its path and query, its headers and its body.
#[derive(Debug)]
pub struct IncomingRequest {
    pub method: String,
    pub url: String,
    pub headers: Vec<HeaderLine>,
    pub body: Vec<u8>,
}

/// What an `IncomingRequest` says.
pub struct IncomingView {
    pub method: Seq<char>,
    pub url: Seq<char>,
    pub headers: Seq<HeaderView>,
    pub body: Seq<u8>,
}

impl View for IncomingRequest {
    type V = IncomingView;

    open spec fn view(&self) -> IncomingView {
        IncomingView {
            method: self.method@,
            url: self.url@,
            headers: header_views(self.headers@),
            body: self.body@,
        }
    }
}

/// A request as it is forwarded; without a body where that is empty.
#[derive(Debug)]
pub struct ForwardRequest {
    pub method: ForwardMethod,
    pub url: String,
    pub headers: Vec<HeaderLine>,
    pub body: Option<Vec<u8>>,
}

/// What a `ForwardRequest` says.
pub struct ForwardView {
    pub method: ForwardMethod,
    pub url: Seq<char>,
    pub headers: Seq<HeaderView>,
    pub body: Option<Seq<u8>>,
}

impl View for ForwardRequest {
    type V = ForwardView;

    open spec fn view(&self) -> ForwardView {
        ForwardView {
            method: self.method,
            url: self.url@,
            headers: header_views(self.headers@),
            body: match self.body {
                Some(b) => Some(b@),
                None => None,
            },
        }
    }
}

/// The request that is forwarded to `port` for a request.
pub open spec fn forwarded(port: u16, req: IncomingView) -> ForwardView {
    ForwardView {
        method: forward_method_of(req.method),
        url: base_url(port) + req.url,
        headers: all_passed_on(req.headers),
        body: if req.body.len() == 0 {
            None
        } else {
            Some(req.body)
        },
    }
}

/// The answer to a request that is not forwarded.
#[derive(Debug)]
pub struct ErrorReply {
    pub status: u16,
    pub content_type: String,
    pub body: String,
}

/// What an `ErrorReply` says.
pub struct ErrorReplyView {
    pub status: u16,
    pub content_type: Seq<char>,
    pub body: Seq<char>,
}

impl View for ErrorReply {
    type V = ErrorReplyView;

    open spec fn view(&self) -> ErrorReplyView {
        ErrorReplyView {
            status: self.status,
            content_type: self.content_type@,
            body: self.body@,
        }
    }
}

/// An answer with a JSON object that has one entry, `error`, whose value is a string; `value` is
/// what stands between the quotation marks of that string.
pub open spec fn json_reply(status: u16, value: Seq<char>) -> ErrorReplyView {
    ErrorReplyView {
        status,
        content_type: "application/json"@,
        body: "{\"error\": \""@ + value + "\"}"@,
    }
}

/// An error answer: a JSON object with one entry, `error`, whose value is the message.
pub open spec fn error_reply(status: u16, message: Seq<char>) -> ErrorReplyView {
    json_reply(status, json_escaped(message))
}

/// The value of the entry `error` of a body, where the body is a JSON object with this entry alone
/// as an error answer writes it.
pub open spec fn error_of(body: Seq<char>) -> Option<Seq<char>> {
    let head = "{\"error\": \""@;
    let tail = "\"}"@;
    if body.len() >= head.len() + tail.len() && head.is_prefix_of(body) && tail.is_suffix_of(body) {
        json_decoded(body.subrange(head.len() as int, body.len() - tail.len()))
    } else {
        None
    }
}

/// An error answer with a JSON body.
pub fn error_response(status: u16, message: &str) -> (reply: ErrorReply)
    ensures
        reply@ == error_reply(status, message@),
{
    ErrorReply {
        status,
        content_type: "application/json".to_owned(),
        body: "{\"error\": \"".to_owned().concat(escape_json(message).as_str()).concat("\"}"),
    }
}

/// The body of an error answer is JSON, and its entry `error` reads back as the message, whatever
/// characters that holds.
pub proof fn law_error_body_reads_back(status: u16, message: Seq<char>)
    ensures
        error_reply(status, message).status == status,
        error_reply(status, message).content_type == "application/json"@,
        error_of(error_reply(status, message).body) == Some(message),
{
    let head = "{\"error\": \""@;
    let tail = "\"}"@;
    let value = json_escaped(message);
    let body = error_reply(status, message).body;
    law_escaped_text_reads_back(message);
    assert(body.subrange(head.len() as int, body.len() - tail.len()) =~= value);
    assert(head.is_prefix_of(body));
    assert(tail.is_suffix_of(body));
}

/// The messages with which the proxy refuses a request stand in the body as they are.
pub proof fn law_refusals_are_kept_as_they_are(status: u16)
    ensures
        error_reply(status, "No active model server in ai-switch"@) == json_reply(
            status,
            "No active model server in ai-switch"@,
        ),
        error_reply(status, "Model server is currently starting/restarting"@) == json_reply(
            status,
            "Model server is currently starting/restarting"@,
        ),
        error_reply(status, "Model server unavailable"@) == json_reply(
            status,
            "Model server unavailable"@,
        ),
        error_reply(status, "Proxy client error"@) == json_reply(status, "Proxy client error"@),
{
    reveal_strlit("No active model server in ai-switch");
    law_plain_text_is_kept("No active model server in ai-switch"@);
    reveal_strlit("Model server is currently starting/restarting");
    law_plain_text_is_kept("Model server is currently starting/restarting"@);
    reveal_strlit("Model server unavailable");
    law_plain_text_is_kept("Model server unavailable"@);
    reveal_strlit("Proxy client error");
    law_plain_text_is_kept("Proxy client error"@);
}

/// What is to be done with a request.
#[derive(Debug)]
pub enum ProxyAction {
    /// Answer it with an error.
    Respond(ErrorReply),
    /// Forward it to the active model.
    Forward(ForwardRequest),
}

/// What a `ProxyAction` says.
pub enum ProxyActionView {
    Respond(ErrorReplyView),
    Forward(ForwardView),
}

impl View for ProxyAction {
    type V = ProxyActionView;

    open spec fn view(&self) -> ProxyActionView {
        match self {
            ProxyAction::Respond(r) => ProxyActionView::Respond(r@),
            ProxyAction::Forward(f) => ProxyActionView::Forward(f@),
        }
    }
}

/// What is to be done with a request in the given state.
pub open spec fn routed(state: ProxyState, req: IncomingView) -> ProxyActionView {
    match state.target_port {
        None => ProxyActionView::Respond(
            json_reply(503, "No active model server in ai-switch"@),
        ),
        Some(port) => if state.is_loading {
            ProxyActionView::Respond(
                json_reply(503, "Model server is currently starting/restarting"@),
            )
        } else {
            ProxyActionView::Forward(forwarded(port, req))
        },
    }
}

/// Decides on an incoming request: forwards it to the active model, or refuses it.
pub fn handle_proxy_request(state: &ProxyState, req: IncomingRequest) -> (action: ProxyAction)
    requires
        ascii_fields(req@.headers),
    ensures
        action@ == routed(*state, req@),
{
    proof {
        law_refusals_are_kept_as_they_are(503);
    }
    match state.target_port {
        None => ProxyAction::Respond(error_response(503, "No active model server in ai-switch")),
        Some(port) => {
            if state.is_loading {
                return ProxyAction::Respond(
                    error_response(503, "Model server is currently starting/restarting"),
                );
            }
            let url = local_base_url(port).concat(req.url.as_str());
            let body = if req.body.len() == 0 {
                None
            } else {
                Some(req.body)
            };
            ProxyAction::Forward(
                ForwardRequest {
                    method: forward_method(req.method.as_str()),
                    url,
                    headers: pass_on_headers(&req.headers),
                    body,
                },
            )
        },
    }
}

/// What came of forwarding a request.
#[derive(Debug)]
pub enum ForwardOutcome {
    /// There is no client to forward it with.
    NoClient,
    /// The model server gave no answer.
    Failed,
    /// The model server answered with this status and these headers; how long its body is, where
    /// that is known.
    Answered { status: u16, headers: Vec<HeaderLine>, content_length: Option<u64> },
}

/// How a forwarded request is answered.
#[derive(Debug)]
pub enum ProxyAnswer {
    /// With an error.
    Error(ErrorReply),
    /// With this status and these headers, and the body of the model server as it arrives.
    Stream { status: u16, headers: Vec<HeaderLine> },
}

/// What a `ProxyAnswer` says.
pub enum ProxyAnswerView {
    Error(ErrorReplyView),
    Stream { status: u16, headers: Seq<HeaderView> },
}

impl View for ProxyAnswer {
    type V = ProxyAnswerView;

    open spec fn view(&self) -> ProxyAnswerView {
        match self {
            ProxyAnswer::Error(r) => ProxyAnswerView::Error(r@),
            ProxyAnswer::Stream { status, headers } => ProxyAnswerView::Stream {
                status: *status,
                headers: header_views(headers@),
            },
        }
    }
}

/// The header that tells the length of a body.
pub open spec fn length_header(n: u64) -> HeaderView {
    HeaderView {
        field: encode_utf8("content-length"@),
        value: encode_utf8(decimal(n as nat)),
    }
}

/// How a forwarded request is answered: the model server's headers are passed on, and one that
/// tells the length of the body is added where it is known.
pub open spec fn answered(outcome: ForwardOutcome) -> ProxyAnswerView {
    match outcome {
        ForwardOutcome::NoClient => ProxyAnswerView::Error(json_reply(503, "Proxy client error"@)),
        ForwardOutcome::Failed => ProxyAnswerView::Error(
            json_reply(503, "Model server unavailable"@),
        ),
        ForwardOutcome::Answered { status, headers, content_length } => ProxyAnswerView::Stream {
            status,
            headers: match content_length {
                Some(n) => all_passed_on(header_views(headers@)).push(length_header(n)),
                None => all_passed_on(header_views(headers@)),
            },
        },
    }
}

/// Decides how a forwarded request is answered.
pub fn handle_forward_outcome(outcome: ForwardOutcome) -> (answer: ProxyAnswer)
    requires
        outcome matches ForwardOutcome::Answered { headers, .. } ==> ascii_fields(
            header_views(headers@),
        ),
    ensures
        answer@ == answered(outcome),
{
    proof {
        law_refusals_are_kept_as_they_are(503);
    }
    match outcome {
        ForwardOutcome::NoClient => ProxyAnswer::Error(error_response(503, "Proxy client error")),
        ForwardOutcome::Failed => ProxyAnswer::Error(
            error_response(503, "Model server unavailable"),
        ),
        ForwardOutcome::Answered { status, headers, content_length } => {
            let mut out = pass_on_headers(&headers);
            match content_length {
                Some(n) => {
                    let ghost before = header_views(out@);
                    let field = "content-length";
                    let digits = decimal_text(n);
                    out.push(
                        HeaderLine {
                            field: slice_to_vec(field.as_bytes()),
                            value: slice_to_vec(digits.as_str().as_bytes()),
                        },
                    );
                    proof {
                        assert(header_views(out@) =~= before.push(length_header(n)));
                    }
                },
                None => {},
            }
            ProxyAnswer::Stream { status, headers: out }
        },
    }
}

/// The address that the proxy listens on: the loopback interface only.
pub open spec fn proxy_address(port: u16) -> Seq<char> {
    "127.0.0.1:"@ + decimal(port as nat)
}

/// A reverse proxy server: whether it is to shut down, and whether the thread that serves the
/// requests is still to be told so.
#[derive(Debug)]
pub struct ProxyServer {
    pub shutdown_flag: bool,
    pub stop_pending: bool,
}

/// A proxy server that was shut down.
pub open spec fn stopped() -> ProxyServer {
    ProxyServer { shutdown_flag: true, stop_pending: false }
}

/// Whether the serving thread goes on: not once it was told to stop, nor once the shutdown flag
/// is set.
pub open spec fn keeps_serving(told_to_stop: bool, shutdown_flag: bool) -> bool {
    !told_to_stop && !shutdown_flag
}

impl ProxyServer {
    /// The address that the proxy listens on.
    pub fn address(proxy_port: u16) -> (addr: String)
        ensures
            addr@ == proxy_address(proxy_port),
    {
        let mut addr = "127.0.0.1:".to_owned();
        append_decimal(&mut addr, proxy_port as u64);
        addr
    }

    /// A proxy server that was bound to its port, or the reason why it could not be.
    pub fn new(proxy_port: u16, bound: Result<(), String>) -> (r: Result<Self, String>)
        ensures
            bound is Ok ==> r == Ok::<ProxyServer, String>(
                ProxyServer { shutdown_flag: false, stop_pending: true },
            ),
            bound matches Err(e) ==> (r matches Err(message) && message@
                == "failed to bind proxy server to "@ + proxy_address(proxy_port) + ": "@ + e@),
    {
        match bound {
            Ok(()) => Ok(ProxyServer { shutdown_flag: false, stop_pending: true }),
            Err(e) => Err(
                "failed to bind proxy server to ".to_owned().concat(
                    ProxyServer::address(proxy_port).as_str(),
                ).concat(": ").concat(e.as_str()),
            ),
        }
    }

    /// Shuts the proxy server down. Says whether the serving thread is to be told, which is so
    /// the first time only.
    pub fn stop(&mut self) -> (tell: bool)
        ensures
            *final(self) == stopped(),
            tell == old(self).stop_pending,
    {
        let tell: bool = self.stop_pending;
        self.shutdown_flag = true;
        self.stop_pending = false;
        tell
    }

    /// Whether the serving thread goes on to handle a request.
    pub fn serves(told_to_stop: bool, shutdown_flag: bool) -> (goes_on: bool)
        ensures
            goes_on == keeps_serving(told_to_stop, shutdown_flag),
    {
        !(told_to_stop || shutdown_flag)
    }
}

/// Every request that is not forwarded is answered with status 503 and a JSON body that tells an
/// error.
pub proof fn law_refusals_are_503(state: ProxyState, req: IncomingView, outcome: ForwardOutcome)
    ensures
        routed(state, req) matches ProxyActionView::Respond(r) ==> r.status == 503
            && r.content_type == "application/json"@ && error_of(r.body) is Some,
        answered(outcome) matches ProxyAnswerView::Error(r) ==> r.status == 503 && r.content_type
            == "application/json"@ && error_of(r.body) is Some,
{
    law_refusals_are_kept_as_they_are(503);
    law_error_body_reads_back(503, "No active model server in ai-switch"@);
    law_error_body_reads_back(503, "Model server is currently starting/restarting"@);
    law_error_body_reads_back(503, "Model server unavailable"@);
    law_error_body_reads_back(503, "Proxy client error"@);
}

/// A request is forwarded exactly while a model is the target and none is loading, and then to
/// the port of the target.
pub proof fn law_forwarded_only_when_ready(state: ProxyState, req: IncomingView)
    ensures
        routed(state, req) is Forward <==> state.target_port is Some && !state.is_loading,
        !state.is_loading ==> (state.target_port matches Some(port) ==> routed(state, req)
            == ProxyActionView::Forward(forwarded(port, req))),
{
}

/// Setting a target makes the proxy forward to it, whatever the state was; marking it as loading
/// or clearing it makes it refuse, and a target set after that is forwarded to again.
pub proof fn law_state_changes(state: ProxyState, port: u16, req: IncomingView)
    ensures
        routed(ProxyState { target_port: Some(port), is_loading: false }, req)
            == ProxyActionView::Forward(forwarded(port, req)),
        !(routed(ProxyState { is_loading: true, ..state }, req) is Forward),
        !(routed(ProxyState { target_port: None, is_loading: false }, req) is Forward),
{
}

/// The proxy is transparent to a request: where its headers are ASCII, its method (one of GET,
/// POST, PUT, DELETE, PATCH, HEAD and OPTIONS), path, query, headers and body reach the model
/// server as they came.
pub proof fn law_transparent_requests(port: u16, req: IncomingView)
    requires
        ascii_fields(req.headers),
        forall|i: int| 0 <= i < req.headers.len() ==> ascii((#[trigger] req.headers[i]).value),
    ensures
        forwarded(port, req).headers == req.headers,
        forwarded(port, req).url == base_url(port) + req.url,
        req.body.len() > 0 ==> forwarded(port, req).body == Some(req.body),
        req.body.len() == 0 ==> forwarded(port, req).body is None,
        (exists|m: ForwardMethod| req.method == #[trigger] method_name(m)) ==> method_name(
            forwarded(port, req).method,
        ) == req.method,
{
    assert(all_passed_on(req.headers) =~= req.headers);
    reveal_strlit("GET");
    reveal_strlit("POST");
    reveal_strlit("PUT");
    reveal_strlit("DELETE");
    reveal_strlit("PATCH");
    reveal_strlit("HEAD");
    reveal_strlit("OPTIONS");
}

/// The proxy is transparent to an answer: its status is kept, and where its headers are ASCII
/// they are kept too, in their order, with at most the length of the body behind them.
pub proof fn law_transparent_answers(
    status: u16,
    headers: Vec<HeaderLine>,
    content_length: Option<u64>,
)
    requires
        ascii_fields(header_views(headers@)),
        forall|i: int|
            0 <= i < headers@.len() ==> ascii((#[trigger] header_views(headers@)[i]).value),
    ensures
        ({
            let outcome = ForwardOutcome::Answered { status, headers, content_length };
            answered(outcome) == (ProxyAnswerView::Stream {
                status,
                headers: match content_length {
                    Some(n) => header_views(headers@).push(length_header(n)),
                    None => header_views(headers@),
                },
            })
        }),
{
    assert(all_passed_on(header_views(headers@)) =~= header_views(headers@));
}

/// Once the proxy was stopped it serves no request, and there is no one left to be told so.
pub proof fn law_stopped_serves_nothing(told_to_stop: bool)
    ensures
        !keeps_serving(told_to_stop, stopped().shutdown_flag),
        !stopped().stop_pending,
{
}

/// Each header is passed on in its place: as it is where every byte of it is below 128, and else
/// with its name and no value.
pub proof fn law_headers_passed_on(headers: Seq<HeaderView>, i: int)
    requires
        0 <= i < headers.len(),
    ensures
        all_passed_on(headers).len() == headers.len(),
        (forall|k: int| 0 <= k < headers[i].field.len() ==> #[trigger] headers[i].field[k] < 128)
            && (forall|k: int|
            0 <= k < headers[i].value.len() ==> #[trigger] headers[i].value[k] < 128)
            ==> all_passed_on(headers)[i] == headers[i],
        (exists|k: int| 0 <= k < headers[i].field.len() && #[trigger] headers[i].field[k] >= 128)
            || (exists|k: int|
            0 <= k < headers[i].value.len() && #[trigger] headers[i].value[k] >= 128) ==> {
            &&& all_passed_on(headers)[i].field == headers[i].field
            &&& all_passed_on(headers)[i].value.len() == 0
        },
{
}

/// A request keeps its method where that is one of the seven that are forwarded, and else becomes
/// a GET.
pub proof fn law_methods(method: Seq<char>)
    ensures
        forward_method_of("GET"@) == ForwardMethod::Get,
        forward_method_of("POST"@) == ForwardMethod::Post,
        forward_method_of("PUT"@) == ForwardMethod::Put,
        forward_method_of("DELETE"@) == ForwardMethod::Delete,
        forward_method_of("PATCH"@) == ForwardMethod::Patch,
        forward_method_of("HEAD"@) == ForwardMethod::Head,
        forward_method_of("OPTIONS"@) == ForwardMethod::Options,
        forward_method_of(method) is Post <==> method == "POST"@,
        forward_method_of(method) is Put <==> method == "PUT"@,
        forward_method_of(method) is Delete <==> method == "DELETE"@,
        forward_method_of(method) is Patch <==> method == "PATCH"@,
        forward_method_of(method) is Head <==> method == "HEAD"@,
        forward_method_of(method) is Options <==> method == "OPTIONS"@,
{
    reveal_strlit("GET");
    reveal_strlit("POST");
    reveal_strlit("PUT");
    reveal_strlit("DELETE");
    reveal_strlit("PATCH");
    reveal_strlit("HEAD");
    reveal_strlit("OPTIONS");
    assert("POST"@.len() == 4 && "HEAD"@.len() == 4 && "POST"@[0] != "HEAD"@[0]);
    assert("GET"@.len() == 3 && "PUT"@.len() == 3 && "GET"@[0] != "PUT"@[0]);
    assert("DELETE"@.len() == 6 && "PATCH"@.len() == 5 && "OPTIONS"@.len() == 7);
}

/// A forwarded request goes to the same path and query on the model's local port, with the headers
/// that are passed on, and with its body unless that is empty.
pub proof fn law_forwarded_requests(port: u16, req: IncomingView)
    ensures
        forwarded(port, req).method == forward_method_of(req.method),
        forwarded(port, req).url == "http://127.0.0.1:"@ + decimal(port as nat) + req.url,
        forwarded(port, req).headers == all_passed_on(req.headers),
        req.body.len() == 0 ==> forwarded(port, req).body is None,
        req.body.len() > 0 ==> forwarded(port, req).body == Some(req.body),
{
}

/// Without a target port a request is told that there is no model, whether one is loading or not;
/// with one it is told to wait while the model is loading, and is forwarded to that port otherwise.
pub proof fn law_routes(state: ProxyState, req: IncomingView, port: u16)
    ensures
        state.target_port is None ==> routed(state, req) == ProxyActionView::Respond(
            ErrorReplyView {
                status: 503,
                content_type: "application/json"@,
                body: "{\"error\": \""@ + "No active model server in ai-switch"@ + "\"}"@,
            },
        ),
        state.target_port == Some(port) && state.is_loading ==> routed(state, req)
            == ProxyActionView::Respond(
            ErrorReplyView {
                status: 503,
                content_type: "application/json"@,
                body: "{\"error\": \""@ + "Model server is currently starting/restarting"@
                    + "\"}"@,
            },
        ),
        state.target_port == Some(port) && !state.is_loading ==> routed(state, req)
            == ProxyActionView::Forward(forwarded(port, req)),
{
}

/// The answer of a model server goes back with its status and its headers as they are passed on,
/// and with one more for the length of the body where that is known; without a client or an answer
/// there is an error of status 503.
pub proof fn law_answers(status: u16, headers: Vec<HeaderLine>, n: u64)
    ensures
        answered(ForwardOutcome::Answered { status, headers, content_length: None }) == (
        ProxyAnswerView::Stream { status, headers: all_passed_on(header_views(headers@)) }),
        answered(ForwardOutcome::Answered { status, headers, content_length: Some(n) }) == (
        ProxyAnswerView::Stream {
            status,
            headers: all_passed_on(header_views(headers@)).push(
                HeaderView {
                    field: encode_utf8("content-length"@),
                    value: encode_utf8(decimal(n as nat)),
                },
            ),
        }),
        answered(ForwardOutcome::NoClient) == ProxyAnswerView::Error(
            ErrorReplyView {
                status: 503,
                content_type: "application/json"@,
                body: "{\"error\": \""@ + "Proxy client error"@ + "\"}"@,
            },
        ),
        answered(ForwardOutcome::Failed) == ProxyAnswerView::Error(
            ErrorReplyView {
                status: 503,
                content_type: "application/json"@,
                body: "{\"error\": \""@ + "Model server unavailable"@ + "\"}"@,
            },
        ),
{
}

/// An error answer has its status, says that it is JSON, and holds the escaped message as the
/// value of `error`.
pub proof fn law_error_answers(status: u16, message: Seq<char>)
    ensures
        error_reply(status, message) == (ErrorReplyView {
            status,
            content_type: "application/json"@,
            body: "{\"error\": \""@ + json_escaped(message) + "\"}"@,
        }),
{
}

/// The proxy listens on the loopback interface alone; once shut down its flag is set and its thread
/// needs to be told no more; a thread goes on exactly while neither it was told to stop nor the
/// flag is set.
pub proof fn law_proxy_server(port: u16, told_to_stop: bool, shutdown_flag: bool)
    ensures
        proxy_address(port) == "127.0.0.1:"@ + decimal(port as nat),
        stopped().shutdown_flag,
        !stopped().stop_pending,
        keeps_serving(told_to_stop, shutdown_flag) <==> told_to_stop == false && shutdown_flag
            == false,
{
}

} // verus!
