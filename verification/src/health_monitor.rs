//! Health monitoring for a starting model process.
//!
//! `/v1/models` on the model's port is polled, and the model's state goes from Starting over
//! Loading to Ready, or to Error where the health check timeout is exceeded.

use vstd::prelude::*;
use vstd::string::*;

use crate::config::opt_view;
use crate::process_manager::body_lists_models;
use crate::process_manager::lists_models;
use crate::process_manager::HttpReply;
use crate::process_manager::HttpReplyView;
use crate::process_manager::ModelState;
use crate::process_manager::ModelStateView;
use crate::process_manager::ProcessError;
use crate::process_manager::ProcessErrorView;
use crate::scan::len_before;
use crate::scan::law_length_before_a_stop;
use crate::scan::length_before;
use crate::text::append_decimal;
use crate::text::chars_of;
use crate::text::decimal;
use crate::text::find_chars;
use crate::text::find_from;
use crate::text::has_text;
use crate::text::law_contained_text_has_both_sides;
use crate::text::law_search_gives_the_first_place;
use crate::text::lemma_find_from;
use crate::text::string_of;

verus! {

/// The pause between two checks, in milliseconds.
pub const CHECK_INTERVAL_MS: u64 = 1000;

/// The base address of the server on a local port.
pub open spec fn base_url(port: u16) -> Seq<char> {
    "http://127.0.0.1:"@ + decimal(port as nat)
}

/// The base address of the server on a local port.
pub fn local_base_url(port: u16) -> (url: String)
    ensures
        url@ == base_url(port),
{
    let mut url = "http://127.0.0.1:".to_owned();
    append_decimal(&mut url, port as u64);
    url
}

/// The address under which the server on a local port lists its models.
pub fn models_url(port: u16) -> (url: String)
    ensures
        url@ == base_url(port) + "/v1/models"@,
{
    local_base_url(port).concat("/v1/models")
}

/// The name in a list of models: the first quoted text behind the first `"id"`.
pub open spec fn first_model_name(body: Seq<char>) -> Option<Seq<char>> {
    match find_from(body, "\"id\""@, 0) {
        None => None,
        Some(at) => {
            let rest = body.skip(at + "\"id\""@.len());
            let open = len_before(rest, '"') as int;
            if open >= rest.len() {
                None
            } else {
                let name = rest.skip(open + 1);
                let close = len_before(name, '"') as int;
                if close >= name.len() {
                    None
                } else {
                    Some(name.take(close))
                }
            }
        },
    }
}

/// The name in a list of models.
pub fn find_model_name(body: &str) -> (name: Option<String>)
    ensures
        opt_view(name) == first_model_name(body@),
{
    let chars = chars_of(body);
    let key = chars_of("\"id\"");
    let total: usize = chars.len();
    proof {
        lemma_find_from(body@, "\"id\""@, 0);
    }
    match find_chars(&chars, &key, 0) {
        None => None,
        Some(at) => {
            let start: usize = at + key.len();
            let open: usize = start + length_before(&chars, start, '"');
            if open >= total {
                return None;
            }
            let close: usize = open + 1 + length_before(&chars, open + 1, '"');
            proof {
                assert(chars@.skip(start as int).skip(open - start + 1) =~= chars@.skip(open + 1));
            }
            if close >= total {
                return None;
            }
            proof {
                assert(chars@.skip(open + 1).take(close - open - 1) =~= chars@.subrange(
                    open + 1,
                    close as int,
                ));
            }
            Some(string_of(&chars, open + 1, close))
        },
    }
}

/// What a reply over HTTP, or the reason why there is none, says.
pub open spec fn reply_view(r: Result<HttpReply, String>) -> Result<HttpReplyView, Seq<char>> {
    match r {
        Ok(reply) => Ok(reply@),
        Err(e) => Err(e@),
    }
}

/// What a health check says.
pub open spec fn check_view(r: Result<bool, ProcessError>) -> Result<bool, ProcessErrorView> {
    match r {
        Ok(b) => Ok(b),
        Err(e) => Err(e@),
    }
}

/// Whether a model is ready, by the reply on `/v1/models`.
pub open spec fn health(port: u16, reply: Result<HttpReplyView, Seq<char>>) -> Result<
    bool,
    ProcessErrorView,
> {
    match reply {
        Ok(r) => Ok(r.success_body() matches Some(body) && lists_models(body)),
        Err(e) => Err(
            ProcessErrorView::HealthCheckFailed(
                "could not reach "@ + (base_url(port) + "/v1/models"@) + ": "@ + e,
            ),
        ),
    }
}

/// How far a model that is not ready has come, by the reply on `/v1/models`.
pub open spec fn progress(reply: Result<HttpReplyView, Seq<char>>) -> Option<Seq<char>> {
    match reply {
        Ok(r) => match r.success_body() {
            Some(body) => match first_model_name(body) {
                Some(name) => Some("loading: "@ + name),
                None => None,
            },
            None => None,
        },
        Err(_) => None,
    }
}

/// Health monitor: polls `/v1/models` to track model startup progress.
#[derive(Debug, Clone, Copy)]
pub struct HealthMonitor {
    pub port: u16,
    pub timeout_sec: u16,
}

/// A wait for a model: its monitor, and the state last seen.
#[derive(Debug)]
pub struct HealthWait {
    pub monitor: HealthMonitor,
    pub state: ModelState,
}

/// What a `HealthWait` holds.
pub struct HealthWaitView {
    pub monitor: HealthMonitor,
    pub state: ModelStateView,
}

impl View for HealthWait {
    type V = HealthWaitView;

    open spec fn view(&self) -> HealthWaitView {
        HealthWaitView { monitor: self.monitor, state: self.state@ }
    }
}

/// The next step of a wait.
#[derive(Debug)]
pub enum HealthStep {
    /// Check whether the model is ready.
    Check(HealthWait),
    /// Ask how far the model has come.
    AskProgress(HealthWait),
    /// Read the clock.
    ReadClock(HealthWait),
    /// Pause, then check again.
    Pause(HealthWait),
    /// The wait is over.
    Done(ModelState),
}

/// What a `HealthStep` says.
pub enum HealthView {
    Check(HealthWaitView),
    AskProgress(HealthWaitView),
    ReadClock(HealthWaitView),
    Pause(HealthWaitView),
    Done(ModelStateView),
}

impl View for HealthStep {
    type V = HealthView;

    open spec fn view(&self) -> HealthView {
        match self {
            HealthStep::Check(w) => HealthView::Check(w@),
            HealthStep::AskProgress(w) => HealthView::AskProgress(w@),
            HealthStep::ReadClock(w) => HealthView::ReadClock(w@),
            HealthStep::Pause(w) => HealthView::Pause(w@),
            HealthStep::Done(s) => HealthView::Done(s@),
        }
    }
}

impl HealthMonitor {
    /// The time that the model has to become ready, in milliseconds.
    pub open spec fn timeout_ms(self) -> int {
        self.timeout_sec * 1000
    }

    /// The state of a model that did not become ready in time.
    pub open spec fn timed_out(self) -> ModelStateView {
        ModelStateView::Error(
            "health check timeout after "@ + decimal(self.timeout_sec as nat) + "s"@,
        )
    }

    /// A wait that has just begun.
    pub open spec fn begun(self) -> HealthWaitView {
        HealthWaitView { monitor: self, state: ModelStateView::Starting }
    }

    /// A health monitor for the given port and timeout.
    pub fn new(port: u16, timeout_sec: u16) -> (monitor: Self)
        ensures
            monitor.port == port,
            monitor.timeout_sec == timeout_sec,
    {
        HealthMonitor { port, timeout_sec }
    }

    /// Waits until the model is Ready or the timeout is exceeded: the first step.
    pub fn wait_until_ready(&self) -> (step: HealthStep)
        ensures
            step@ == HealthView::Check(self.begun()),
    {
        HealthStep::Check(HealthWait { monitor: *self, state: ModelState::Starting })
    }

    /// Whether the model is healthy (Ready), by the reply on `/v1/models`.
    pub fn check_health(&self, reply: &Result<HttpReply, String>) -> (r: Result<bool, ProcessError>)
        ensures
            check_view(r) == health(self.port, reply_view(*reply)),
    {
        match reply {
            Ok(resp) => {
                match resp.success_body() {
                    Some(body) => Ok(body_lists_models(body.as_str())),
                    None => Ok(false),
                }
            },
            Err(e) => {
                let message = "could not reach ".to_owned().concat(
                    models_url(self.port).as_str(),
                ).concat(": ").concat(e.as_str());
                Err(ProcessError::HealthCheckFailed(message))
            },
        }
    }

    /// The current loading progress (best effort), by the reply on `/v1/models`.
    pub fn get_loading_progress(reply: &Result<HttpReply, String>) -> (p: Option<String>)
        ensures
            opt_view(p) == progress(reply_view(*reply)),
    {
        match reply {
            Ok(resp) => {
                match resp.success_body() {
                    Some(body) => match find_model_name(body.as_str()) {
                        Some(name) => Some("loading: ".to_owned().concat(name.as_str())),
                        None => None,
                    },
                    None => None,
                }
            },
            Err(_) => None,
        }
    }

    fn timeout_state(&self) -> (state: ModelState)
        ensures
            state@ == self.timed_out(),
    {
        let mut message = "health check timeout after ".to_owned();
        append_decimal(&mut message, self.timeout_sec as u64);
        message.append("s");
        ModelState::Error(message)
    }
}

impl HealthWaitView {
    /// The step after a check. A model that cannot be reached may still be starting up, so
    /// nothing but the clock ends the wait for it.
    pub open spec fn after_check(self, check: Result<bool, ProcessErrorView>) -> HealthView {
        match check {
            Ok(ready) => if ready {
                HealthView::Done(ModelStateView::Ready)
            } else {
                HealthView::AskProgress(self)
            },
            Err(_) => HealthView::ReadClock(self),
        }
    }

    /// The step after the model was asked how far it has come.
    pub open spec fn after_progress(self, p: Option<Seq<char>>) -> HealthView {
        HealthView::ReadClock(
            HealthWaitView {
                state: if p is Some {
                    ModelStateView::Loading
                } else {
                    ModelStateView::Starting
                },
                ..self
            },
        )
    }

    /// The step after the clock was read, `elapsed_ms` into the wait.
    pub open spec fn after_clock(self, elapsed_ms: u64) -> HealthView {
        if elapsed_ms >= self.monitor.timeout_ms() {
            HealthView::Done(self.monitor.timed_out())
        } else {
            HealthView::Pause(self)
        }
    }
}

impl HealthWait {
    /// Takes back a check.
    pub fn checked(self, check: Result<bool, ProcessError>) -> (step: HealthStep)
        ensures
            step@ == self@.after_check(check_view(check)),
    {
        match check {
            Ok(true) => HealthStep::Done(ModelState::Ready),
            Ok(false) => HealthStep::AskProgress(self),
            Err(_) => HealthStep::ReadClock(self),
        }
    }

    /// Takes back how far the model has come.
    pub fn progressed(self, p: Option<String>) -> (step: HealthStep)
        ensures
            step@ == self@.after_progress(opt_view(p)),
    {
        let state = match p {
            Some(_) => ModelState::Loading,
            None => ModelState::Starting,
        };
        HealthStep::ReadClock(HealthWait { monitor: self.monitor, state })
    }

    /// Takes back the clock, `elapsed_ms` into the wait.
    pub fn clock_read(self, elapsed_ms: u64) -> (step: HealthStep)
        ensures
            step@ == self@.after_clock(elapsed_ms),
    {
        let timeout_ms: u64 = self.monitor.timeout_sec as u64 * 1000;
        if elapsed_ms >= timeout_ms {
            HealthStep::Done(self.monitor.timeout_state())
        } else {
            HealthStep::Pause(self)
        }
    }

    /// Goes on after a pause.
    pub fn paused(self) -> (step: HealthStep)
        ensures
            step@ == HealthView::Check(self@),
    {
        HealthStep::Check(self)
    }
}

/// What came of the outside work of one step of a wait; each step reads the part that concerns
/// it.
pub struct HealthAnswer {
    pub check: Result<bool, ProcessErrorView>,
    pub progress: Option<Seq<char>>,
    pub elapsed_ms: u64,
}

/// The step after the outside work of a step.
pub open spec fn health_advance(step: HealthView, answer: HealthAnswer) -> HealthView {
    match step {
        HealthView::Check(w) => w.after_check(answer.check),
        HealthView::AskProgress(w) => w.after_progress(answer.progress),
        HealthView::ReadClock(w) => w.after_clock(answer.elapsed_ms),
        HealthView::Pause(w) => HealthView::Check(w),
        HealthView::Done(_) => step,
    }
}

/// The step after the outside work of as many steps as there are answers.
pub open spec fn health_run(step: HealthView, answers: Seq<HealthAnswer>) -> HealthView
    decreases answers.len(),
{
    if answers.len() == 0 {
        step
    } else {
        health_run(health_advance(step, answers[0]), answers.drop_first())
    }
}

/// A wait of this monitor for a model that is Starting or Loading.
pub open spec fn is_waiting(monitor: HealthMonitor, wait: HealthWaitView) -> bool {
    wait.monitor == monitor && (wait.state is Starting || wait.state is Loading)
}

/// A step of a wait of this monitor that shows no state but Starting or Loading before its end,
/// and ends in Ready or in the timeout.
pub open spec fn expected_step(monitor: HealthMonitor, step: HealthView) -> bool {
    match step {
        HealthView::Check(w) => is_waiting(monitor, w),
        HealthView::AskProgress(w) => is_waiting(monitor, w),
        HealthView::ReadClock(w) => is_waiting(monitor, w),
        HealthView::Pause(w) => is_waiting(monitor, w),
        HealthView::Done(s) => s is Ready || s == monitor.timed_out(),
    }
}

/// A check found the model ready.
pub open spec fn found_ready(answers: Seq<HealthAnswer>) -> bool {
    exists|i: int|
        0 <= i < answers.len() && (#[trigger] answers[i]).check == Ok::<bool, ProcessErrorView>(
            true,
        )
}

/// The clock showed that the timeout is exceeded.
pub open spec fn found_late(monitor: HealthMonitor, answers: Seq<HealthAnswer>) -> bool {
    exists|i: int|
        0 <= i < answers.len() && (#[trigger] answers[i]).elapsed_ms >= monitor.timeout_ms()
}

proof fn lemma_later_answers(monitor: HealthMonitor, answers: Seq<HealthAnswer>)
    requires
        answers.len() > 0,
    ensures
        found_ready(answers.drop_first()) ==> found_ready(answers),
        found_late(monitor, answers.drop_first()) ==> found_late(monitor, answers),
{
    let later = answers.drop_first();
    if found_ready(later) {
        let i = choose|i: int|
            0 <= i < later.len() && (#[trigger] later[i]).check == Ok::<bool, ProcessErrorView>(
                true,
            );
        assert(answers[i + 1] == later[i]);
    }
    if found_late(monitor, later) {
        let i = choose|i: int|
            0 <= i < later.len() && (#[trigger] later[i]).elapsed_ms >= monitor.timeout_ms();
        assert(answers[i + 1] == later[i]);
    }
}

proof fn lemma_wait_states(monitor: HealthMonitor, step: HealthView, answers: Seq<HealthAnswer>)
    requires
        expected_step(monitor, step),
    ensures
        expected_step(monitor, health_run(step, answers)),
        !(step is Done) && health_run(step, answers) == HealthView::Done(ModelStateView::Ready)
            ==> found_ready(answers),
        !(step is Done) && health_run(step, answers) == HealthView::Done(monitor.timed_out())
            ==> found_late(monitor, answers),
    decreases answers.len(),
{
    if answers.len() > 0 {
        let next = health_advance(step, answers[0]);
        lemma_wait_states(monitor, next, answers.drop_first());
        lemma_later_answers(monitor, answers);
        if !(step is Done) && next is Done {
            lemma_health_done_stays(next, answers.drop_first());
            assert(answers[0].check == Ok::<bool, ProcessErrorView>(true) || answers[0].elapsed_ms
                >= monitor.timeout_ms());
        }
    }
}

/// A model is Starting or Loading while it is waited for, and in the end it is Ready or the
/// health check timed out: Ready only where a check found it so, timed out only where the clock
/// showed that the timeout is exceeded.
pub proof fn law_wait_states(monitor: HealthMonitor, answers: Seq<HealthAnswer>)
    ensures
        ({
            let end = health_run(HealthView::Check(monitor.begun()), answers);
            &&& expected_step(monitor, end)
            &&& end == HealthView::Done(ModelStateView::Ready) ==> found_ready(answers)
            &&& end == HealthView::Done(monitor.timed_out()) ==> found_late(monitor, answers)
        }),
{
    lemma_wait_states(monitor, HealthView::Check(monitor.begun()), answers);
}

/// A model that cannot be reached is waited for like any other: whatever the check that failed
/// said, the wait goes on, unchanged, to the next check while the timeout is not exceeded.
pub proof fn law_unreachable_model_is_waited_for(
    wait: HealthWaitView,
    e: ProcessErrorView,
    elapsed_ms: u64,
)
    requires
        elapsed_ms < wait.monitor.timeout_ms(),
    ensures
        wait.after_check(Err(e)) == HealthView::ReadClock(wait),
        wait.after_clock(elapsed_ms) == HealthView::Pause(wait),
{
}

proof fn lemma_health_done_stays(step: HealthView, answers: Seq<HealthAnswer>)
    requires
        step is Done,
    ensures
        health_run(step, answers) == step,
    decreases answers.len(),
{
    if answers.len() > 0 {
        lemma_health_done_stays(step, answers.drop_first());
    }
}

/// Once the clock has passed the deadline, a wait ends within four steps, whatever is found.
pub proof fn law_wait_ends(monitor: HealthMonitor, step: HealthView, answers: Seq<HealthAnswer>)
    requires
        expected_step(monitor, step),
        answers.len() >= 4,
        forall|i: int|
            0 <= i < answers.len() ==> (#[trigger] answers[i]).elapsed_ms >= monitor.timeout_ms(),
    ensures
        health_run(step, answers) is Done,
{
    let rest = answers.drop_first().drop_first().drop_first().drop_first();
    let s1 = health_advance(step, answers[0]);
    let s2 = health_advance(s1, answers[1]);
    let s3 = health_advance(s2, answers[2]);
    let s4 = health_advance(s3, answers[3]);
    reveal_with_fuel(health_run, 5);
    assert(health_run(step, answers) == health_run(s4, rest));
    assert(s4 is Done);
    lemma_health_done_stays(s4, rest);
}

/// A model is healthy exactly where the reply on `/v1/models` has a status from 200 to 299 and a
/// body that holds `"id"`, with its quotes, and `model`; any other reply says that it is not, and
/// no reply is an error that tells the address and the reason.
pub proof fn law_healthy_replies(port: u16, status: u16, body: Seq<char>, reason: Seq<char>)
    ensures
        ({
            let with_body = HttpReplyView { status, body: Some(body) };
            let without_body = HttpReplyView { status, body: None };
            &&& 200 <= status <= 299 && has_text(body, "\"id\""@) && has_text(body, "model"@)
                ==> health(port, Ok(with_body)) == Ok::<bool, ProcessErrorView>(true)
            &&& status < 200 || status > 299 || !has_text(body, "\"id\""@) || !has_text(
                body,
                "model"@,
            ) ==> health(port, Ok(with_body)) == Ok::<bool, ProcessErrorView>(false)
            &&& health(port, Ok(without_body)) == Ok::<bool, ProcessErrorView>(false)
            &&& health(port, Err(reason)) == Err::<bool, ProcessErrorView>(
                ProcessErrorView::HealthCheckFailed(
                    "could not reach http://127.0.0.1:"@ + decimal(port as nat) + "/v1/models: "@
                        + reason,
                ),
            )
        }),
{
    reveal_strlit("could not reach ");
    reveal_strlit("http://127.0.0.1:");
    reveal_strlit("could not reach http://127.0.0.1:");
    reveal_strlit("/v1/models");
    reveal_strlit(": ");
    reveal_strlit("/v1/models: ");
    assert("could not reach "@ + "http://127.0.0.1:"@ =~= "could not reach http://127.0.0.1:"@);
    assert("/v1/models"@ + ": "@ =~= "/v1/models: "@);
    let d = decimal(port as nat);
    assert("could not reach "@ + (("http://127.0.0.1:"@ + d) + "/v1/models"@) + ": "@ + reason
        =~= "could not reach http://127.0.0.1:"@ + d + "/v1/models: "@ + reason);
}

/// A body that has both marks of a model between any other text is healthy, in either order of
/// the two.
pub proof fn law_healthy_bodies(port: u16, status: u16, a: Seq<char>, b: Seq<char>, c: Seq<char>)
    requires
        200 <= status <= 299,
    ensures
        health(
            port,
            Ok(HttpReplyView { status, body: Some(a + "\"id\""@ + b + "model"@ + c) }),
        ) == Ok::<bool, ProcessErrorView>(true),
        health(
            port,
            Ok(HttpReplyView { status, body: Some(a + "model"@ + b + "\"id\""@ + c) }),
        ) == Ok::<bool, ProcessErrorView>(true),
{
    let id = "\"id\""@;
    let model = "model"@;
    assert(a + id + b + model + c =~= a + id + (b + model + c));
    assert(a + id + b + model + c =~= (a + id + b) + model + c);
    assert(a + model + b + id + c =~= a + model + (b + id + c));
    assert(a + model + b + id + c =~= (a + model + b) + id + c);
    law_contained_text_has_both_sides(a + id + b + model + c, id);
    law_contained_text_has_both_sides(a + id + b + model + c, model);
    law_contained_text_has_both_sides(a + model + b + id + c, id);
    law_contained_text_has_both_sides(a + model + b + id + c, model);
}

/// The base address names the local host and the port, in decimal.
pub proof fn law_base_address(port: u16)
    ensures
        base_url(port) == "http://127.0.0.1:"@ + decimal(port as nat),
{
}

/// The name in a list of models is the text between the first two quotes behind the first `"id"`:
/// a reply with success that lists it tells that this name is loading.
pub proof fn law_loading_progress(
    status: u16,
    before: Seq<char>,
    between: Seq<char>,
    name: Seq<char>,
    after: Seq<char>,
)
    requires
        !between.contains('"'),
        !name.contains('"'),
        forall|i: int|
            0 <= i < before.len() ==> #[trigger] (before + "\"id\""@ + (between.push('"')
                + name.push('"') + after)).subrange(i, i + "\"id\""@.len()) != "\"id\""@,
    ensures
        ({
            let body = before + "\"id\""@ + (between.push('"') + name.push('"') + after);
            let reply = HttpReplyView { status, body: Some(body) };
            &&& first_model_name(body) == Some(name)
            &&& 200 <= status <= 299 ==> progress(Ok(reply)) == Some("loading: "@ + name)
            &&& status < 200 || status > 299 ==> progress(Ok(reply)) is None
        }),
{
    let id = "\"id\""@;
    let rest = between.push('"') + name.push('"') + after;
    let body = before + id + rest;
    law_search_gives_the_first_place(body, id, 0);
    assert(body.subrange(before.len() as int, before.len() as int + id.len()) =~= id);
    assert(find_from(body, id, 0) == Some(before.len() as int));
    assert(body.skip(before.len() as int + id.len()) =~= rest);
    assert(rest =~= between + (seq!['"'] + (name.push('"') + after)));
    law_length_before_a_stop(between, '"', name.push('"') + after);
    let open = between.len() as int;
    let tail = rest.skip(open + 1);
    assert(tail =~= name + (seq!['"'] + after));
    law_length_before_a_stop(name, '"', after);
    let close = name.len() as int;
    assert(tail.take(close) =~= name);
}

proof fn lemma_stop_is_found(s: Seq<char>, stop: char)
    ensures
        len_before(s, stop) <= s.len(),
        len_before(s, stop) < s.len() ==> s[len_before(s, stop) as int] == stop,
    decreases s.len(),
{
    if s.len() > 0 && s[0] != stop {
        lemma_stop_is_found(s.drop_first(), stop);
    }
}

/// Nothing is known of the progress where there is no reply, no body, no `"id"`, or no name in
/// quotes behind it.
pub proof fn law_no_loading_progress(
    status: u16,
    before: Seq<char>,
    rest: Seq<char>,
    body: Seq<char>,
    reason: Seq<char>,
)
    requires
        !has_text(body, "\"id\""@),
        forall|i: int|
            0 <= i < before.len() ==> #[trigger] (before + "\"id\""@ + rest).subrange(
                i,
                i + "\"id\""@.len(),
            ) != "\"id\""@,
        forall|i: int, j: int| 0 <= i < j < rest.len() ==> rest[i] != '"' || rest[j] != '"',
    ensures
        progress(Err(reason)) is None,
        progress(Ok(HttpReplyView { status, body: None })) is None,
        progress(Ok(HttpReplyView { status, body: Some(body) })) is None,
        progress(Ok(HttpReplyView { status, body: Some(before + "\"id\""@ + rest) })) is None,
{
    let id = "\"id\""@;
    lemma_find_from(body, id, 0);
    let listed = before + id + rest;
    law_search_gives_the_first_place(listed, id, 0);
    assert(listed.subrange(before.len() as int, before.len() as int + id.len()) =~= id);
    assert(find_from(listed, id, 0) == Some(before.len() as int));
    assert(listed.skip(before.len() as int + id.len()) =~= rest);
    lemma_stop_is_found(rest, '"');
    let open = len_before(rest, '"') as int;
    if open < rest.len() {
        let tail = rest.skip(open + 1);
        lemma_stop_is_found(tail, '"');
        let close = len_before(tail, '"') as int;
        if close < tail.len() {
            assert(tail[close] == rest[open + 1 + close]);
        }
    }
}

/// A check that finds the model ready ends the wait so; one that finds it not ready asks for its
/// progress, and one that fails reads the clock, both with the wait as it is.
pub proof fn law_after_a_check(wait: HealthWaitView, e: ProcessErrorView)
    ensures
        wait.after_check(Ok(true)) == HealthView::Done(ModelStateView::Ready),
        wait.after_check(Ok(false)) == HealthView::AskProgress(wait),
        wait.after_check(Err(e)) == HealthView::ReadClock(wait),
{
}

/// A model that tells its progress is Loading and one that does not is Starting, of the same
/// monitor; the clock is read next.
pub proof fn law_after_progress(wait: HealthWaitView, p: Seq<char>)
    ensures
        wait.after_progress(Some(p)) == HealthView::ReadClock(
            HealthWaitView { monitor: wait.monitor, state: ModelStateView::Loading },
        ),
        wait.after_progress(None) == HealthView::ReadClock(
            HealthWaitView { monitor: wait.monitor, state: ModelStateView::Starting },
        ),
{
}

/// The wait times out exactly once as many thousand milliseconds have passed as the monitor allows
/// seconds, and pauses before that; the state then tells how many seconds were allowed.
pub proof fn law_after_the_clock(wait: HealthWaitView, elapsed_ms: u64)
    ensures
        elapsed_ms >= 1000 * wait.monitor.timeout_sec ==> wait.after_clock(elapsed_ms)
            == HealthView::Done(
            ModelStateView::Error(
                "health check timeout after "@ + decimal(wait.monitor.timeout_sec as nat) + "s"@,
            ),
        ),
        elapsed_ms < 1000 * wait.monitor.timeout_sec ==> wait.after_clock(elapsed_ms)
            == HealthView::Pause(wait),
{
}

/// A wait begins with its own monitor, Starting.
pub proof fn law_wait_begins(monitor: HealthMonitor)
    ensures
        monitor.begun().monitor == monitor,
        monitor.begun().state == ModelStateView::Starting,
{
}

} // verus!
