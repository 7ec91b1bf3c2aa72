//! Terminating a model's process group: SIGTERM first, SIGKILL where that is not enough, and
//! never a signal to the group that ai-switch itself belongs to.

use vstd::prelude::*;
use vstd::string::*;

use crate::io_error::IoError;
use crate::io_error::IoErrorKind;
use crate::io_error::IoErrorView;
use crate::process_manager::outcome;
use crate::process_manager::LinuxProcessGuard;
use crate::process_manager::ProcessError;
use crate::process_manager::ProcessErrorView;
use crate::text::signed_decimal;
use crate::text::signed_decimal_text;

verus! {

/// How long a killed process group may take to go, in milliseconds.
pub const KILL_TIMEOUT_MS: u64 = 5000;

/// What was found out about the process group of a process.
#[derive(Debug)]
pub enum GroupLookup {
    /// The process belongs to this group.
    Found(i32),
    /// There is no such process.
    Gone,
    /// It could not be found out; the reason.
    Failed(IoError),
}

/// What came of sending a signal to a process group.
#[derive(Debug)]
pub enum SignalOutcome {
    /// The signal was sent.
    Delivered,
    /// There is no such group.
    Gone,
    /// The signal could not be sent; the reason.
    Failed(IoError),
}

/// What a look at a child process found.
#[derive(Debug, Clone, Copy, PartialEq, Eq, Structural)]
pub enum WaitOutcome {
    /// The child runs.
    StillAlive,
    /// The child exited with this code.
    Exited(i32),
    /// The child ended, or stopped, in another way.
    Ended,
    /// There is no such child.
    Failed,
}

/// A signal.
#[derive(Debug, Clone, Copy, PartialEq, Eq, Structural)]
pub enum StopSignal {
    Term,
    Kill,
}

/// A termination in progress: the process `pid`, and how long its group may take to shut down
/// once it was asked to, in milliseconds.
#[derive(Debug, Clone, Copy, PartialEq, Eq, Structural)]
pub struct Target {
    pub pid: i32,
    pub grace_ms: u64,
}

/// The next step of a termination.
#[derive(Debug)]
pub enum TerminationStep {
    /// Find out the process group of the target and the own one.
    LookUpGroup(Target),
    /// Send the signal to the group with this number.
    Send(Target, i32, StopSignal),
    /// See whether the target, in the group with this number, still lives after the signal.
    Look(Target, i32, StopSignal),
    /// Wait a moment, then look again.
    Wait(Target, i32, StopSignal),
    /// The termination is over.
    Done(Result<(), ProcessError>),
}

/// What a `TerminationStep` says.
pub enum TerminationView {
    LookUpGroup(Target),
    Send(Target, i32, StopSignal),
    Look(Target, i32, StopSignal),
    Wait(Target, i32, StopSignal),
    Done(Result<(), ProcessErrorView>),
}

impl View for TerminationStep {
    type V = TerminationView;

    open spec fn view(&self) -> TerminationView {
        match self {
            TerminationStep::LookUpGroup(t) => TerminationView::LookUpGroup(*t),
            TerminationStep::Send(t, g, s) => TerminationView::Send(*t, *g, *s),
            TerminationStep::Look(t, g, s) => TerminationView::Look(*t, *g, *s),
            TerminationStep::Wait(t, g, s) => TerminationView::Wait(*t, *g, *s),
            TerminationStep::Done(r) => TerminationView::Done(outcome(*r)),
        }
    }
}

/// The first step of terminating the group of process `pid`: only a positive number is a process.
pub open spec fn termination_begins(pid: i32, timeout_sec: u16) -> TerminationView {
    if pid <= 0 {
        TerminationView::Done(
            Err(
                ProcessErrorView::Io(
                    IoErrorView {
                        kind: IoErrorKind::InvalidInput,
                        text: "cannot signal PID "@ + signed_decimal(pid as int)
                            + " (must be positive)"@,
                    },
                ),
            ),
        )
    } else {
        TerminationView::LookUpGroup(Target { pid, grace_ms: (timeout_sec * 1000) as u64 })
    }
}

/// The step after the group of the target was looked up; `own_group` is the own one, negative
/// where it is not known.
pub open spec fn after_lookup(target: Target, lookup: GroupLookup, own_group: i32) -> TerminationView {
    match lookup {
        GroupLookup::Gone => TerminationView::Done(Ok(())),
        GroupLookup::Failed(e) => TerminationView::Done(Err(ProcessErrorView::Signal(e@))),
        GroupLookup::Found(group) => if own_group >= 0 && group == own_group {
            TerminationView::Done(
                Err(ProcessErrorView::CannotSignalOwnProcessGroup { pid: target.pid }),
            )
        } else {
            TerminationView::Send(target, group, StopSignal::Term)
        },
    }
}

/// The step after a signal was sent. A group that is gone is looked at like any other.
pub open spec fn after_signal(
    target: Target,
    group: i32,
    signal: StopSignal,
    sent: SignalOutcome,
) -> TerminationView {
    match sent {
        SignalOutcome::Failed(e) => TerminationView::Done(Err(ProcessErrorView::Io(e@))),
        _ => TerminationView::Look(target, group, signal),
    }
}

/// How long the group may take to go after a signal, in milliseconds.
pub open spec fn patience(target: Target, signal: StopSignal) -> u64 {
    match signal {
        StopSignal::Term => target.grace_ms,
        StopSignal::Kill => KILL_TIMEOUT_MS,
    }
}

/// The step after a look at the target, `elapsed_ms` after the signal.
pub open spec fn after_look(
    target: Target,
    group: i32,
    signal: StopSignal,
    seen: WaitOutcome,
    elapsed_ms: u64,
) -> TerminationView {
    if !(seen is StillAlive) {
        TerminationView::Done(Ok(()))
    } else if elapsed_ms < patience(target, signal) {
        TerminationView::Wait(target, group, signal)
    } else {
        match signal {
            StopSignal::Term => TerminationView::Send(target, group, StopSignal::Kill),
            StopSignal::Kill => TerminationView::Done(
                Err(ProcessErrorView::ShutdownTimeout("unknown"@)),
            ),
        }
    }
}

impl LinuxProcessGuard {
    /// Terminates the process: the first step. A guard without a process has nothing to do.
    pub fn terminate(&self) -> (step: TerminationStep)
        ensures
            step@ == (match self.pid {
                Some(pid) => termination_begins(pid, self.shutdown_timeout_sec),
                None => TerminationView::Done(Ok(())),
            }),
    {
        match self.pid {
            Some(pid) => LinuxProcessGuard::terminate_process_group(pid, self.shutdown_timeout_sec),
            None => TerminationStep::Done(Ok(())),
        }
    }

    /// Terminates the process group of `pid`: the first step.
    pub fn terminate_process_group(pid: i32, timeout_sec: u16) -> (step: TerminationStep)
        ensures
            step@ == termination_begins(pid, timeout_sec),
    {
        if pid <= 0 {
            let message = "cannot signal PID ".to_owned().concat(
                signed_decimal_text(pid).as_str(),
            ).concat(" (must be positive)");
            return TerminationStep::Done(
                Err(ProcessError::Io(IoError::new(IoErrorKind::InvalidInput, message))),
            );
        }
        TerminationStep::LookUpGroup(Target { pid, grace_ms: timeout_sec as u64 * 1000 })
    }

    /// Takes back the process group of the target and the own one.
    pub fn group_looked_up(target: Target, lookup: GroupLookup, own_group: i32) -> (step:
        TerminationStep)
        ensures
            step@ == after_lookup(target, lookup, own_group),
    {
        match lookup {
            GroupLookup::Gone => TerminationStep::Done(Ok(())),
            GroupLookup::Failed(e) => TerminationStep::Done(Err(ProcessError::Signal(e))),
            GroupLookup::Found(group) => {
                if own_group >= 0 && group == own_group {
                    TerminationStep::Done(
                        Err(ProcessError::CannotSignalOwnProcessGroup { pid: target.pid }),
                    )
                } else {
                    TerminationStep::Send(target, group, StopSignal::Term)
                }
            },
        }
    }

    /// Takes back what came of sending a signal.
    pub fn signal_sent(target: Target, group: i32, signal: StopSignal, sent: SignalOutcome) -> (step:
        TerminationStep)
        ensures
            step@ == after_signal(target, group, signal, sent),
    {
        match sent {
            SignalOutcome::Failed(e) => TerminationStep::Done(Err(ProcessError::Io(e))),
            SignalOutcome::Delivered => TerminationStep::Look(target, group, signal),
            SignalOutcome::Gone => TerminationStep::Look(target, group, signal),
        }
    }

    /// Takes back what a look at the target found, `elapsed_ms` after the signal.
    pub fn looked(
        target: Target,
        group: i32,
        signal: StopSignal,
        seen: WaitOutcome,
        elapsed_ms: u64,
    ) -> (step: TerminationStep)
        ensures
            step@ == after_look(target, group, signal, seen, elapsed_ms),
    {
        match seen {
            WaitOutcome::StillAlive => {
                let patience_ms: u64 = match signal {
                    StopSignal::Term => target.grace_ms,
                    StopSignal::Kill => KILL_TIMEOUT_MS,
                };
                if elapsed_ms < patience_ms {
                    return TerminationStep::Wait(target, group, signal);
                }
                match signal {
                    StopSignal::Term => TerminationStep::Send(target, group, StopSignal::Kill),
                    StopSignal::Kill => TerminationStep::Done(
                        Err(ProcessError::ShutdownTimeout("unknown".to_owned())),
                    ),
                }
            },
            WaitOutcome::Exited(_) => TerminationStep::Done(Ok(())),
            WaitOutcome::Ended => TerminationStep::Done(Ok(())),
            WaitOutcome::Failed => TerminationStep::Done(Ok(())),
        }
    }
}

impl LinuxProcessGuard {
    /// Goes on after a wait.
    pub fn waited(target: Target, group: i32, signal: StopSignal) -> (step: TerminationStep)
        ensures
            step@ == TerminationView::Look(target, group, signal),
    {
        TerminationStep::Look(target, group, signal)
    }
}

/// What came of the outside work of one step of a termination; each step reads the part that
/// concerns it.
pub struct TerminationAnswer {
    pub lookup: GroupLookup,
    pub own_group: i32,
    pub sent: SignalOutcome,
    pub seen: WaitOutcome,
    pub elapsed_ms: u64,
}

/// The step after the outside work of a step.
pub open spec fn termination_advance(step: TerminationView, answer: TerminationAnswer) -> TerminationView {
    match step {
        TerminationView::LookUpGroup(t) => after_lookup(t, answer.lookup, answer.own_group),
        TerminationView::Send(t, g, s) => after_signal(t, g, s, answer.sent),
        TerminationView::Look(t, g, s) => after_look(t, g, s, answer.seen, answer.elapsed_ms),
        TerminationView::Wait(t, g, s) => TerminationView::Look(t, g, s),
        TerminationView::Done(_) => step,
    }
}

/// The step after the outside work of as many steps as there are answers.
pub open spec fn termination_run(step: TerminationView, answers: Seq<TerminationAnswer>) -> TerminationView
    decreases answers.len(),
{
    if answers.len() == 0 {
        step
    } else {
        termination_run(termination_advance(step, answers[0]), answers.drop_first())
    }
}

/// A step that a termination may take where `own_group` is the own process group: its target is
/// a process, and no signal goes to the own group.
pub open spec fn spares_own_group(step: TerminationView, own_group: i32) -> bool {
    match step {
        TerminationView::LookUpGroup(t) => t.pid > 0,
        TerminationView::Send(t, g, _) => t.pid > 0 && g != own_group,
        TerminationView::Look(t, g, _) => t.pid > 0 && g != own_group,
        TerminationView::Wait(t, g, _) => t.pid > 0 && g != own_group,
        TerminationView::Done(_) => true,
    }
}

/// A termination never signals the own process group, nor anything for a number that is no
/// process, whatever comes of its steps.
pub proof fn law_own_group_is_spared(
    pid: i32,
    timeout_sec: u16,
    own_group: i32,
    answers: Seq<TerminationAnswer>,
)
    requires
        own_group >= 0,
        forall|i: int| 0 <= i < answers.len() ==> (#[trigger] answers[i]).own_group == own_group,
    ensures
        spares_own_group(
            termination_run(termination_begins(pid, timeout_sec), answers),
            own_group,
        ),
{
    lemma_run_spares_own_group(termination_begins(pid, timeout_sec), own_group, answers);
}

proof fn lemma_run_spares_own_group(
    step: TerminationView,
    own_group: i32,
    answers: Seq<TerminationAnswer>,
)
    requires
        own_group >= 0,
        forall|i: int| 0 <= i < answers.len() ==> (#[trigger] answers[i]).own_group == own_group,
        spares_own_group(step, own_group),
    ensures
        spares_own_group(termination_run(step, answers), own_group),
    decreases answers.len(),
{
    if answers.len() > 0 {
        assert(answers[0].own_group == own_group);
        assert forall|i: int| 0 <= i < answers.drop_first().len() implies (
        #[trigger] answers.drop_first()[i]).own_group == own_group by {
            assert(answers.drop_first()[i] == answers[i + 1]);
        }
        lemma_run_spares_own_group(
            termination_advance(step, answers[0]),
            own_group,
            answers.drop_first(),
        );
    }
}

/// SIGKILL is sent only to a group that was sent SIGTERM before and was seen alive when the time
/// for an orderly shutdown was over.
pub proof fn law_kill_follows_term(step: TerminationView, answer: TerminationAnswer)
    requires
        termination_advance(step, answer) matches TerminationView::Send(_, _, StopSignal::Kill),
    ensures
        step matches TerminationView::Look(t, _, StopSignal::Term) && answer.seen is StillAlive
            && answer.elapsed_ms >= t.grace_ms,
{
}

/// A target that is no longer alive ends the termination with success, after either signal.
pub proof fn law_gone_target_ends_termination(
    target: Target,
    group: i32,
    signal: StopSignal,
    seen: WaitOutcome,
    elapsed_ms: u64,
)
    requires
        !(seen is StillAlive),
    ensures
        after_look(target, group, signal, seen, elapsed_ms) == TerminationView::Done(
            Ok::<(), ProcessErrorView>(()),
        ),
{
}

proof fn lemma_termination_done_stays(step: TerminationView, answers: Seq<TerminationAnswer>)
    requires
        step is Done,
    ensures
        termination_run(step, answers) == step,
    decreases answers.len(),
{
    if answers.len() > 0 {
        lemma_termination_done_stays(step, answers.drop_first());
    }
}

/// A termination whose clock has passed both deadlines ends within five steps, whatever comes of
/// them.
pub proof fn law_termination_ends(pid: i32, timeout_sec: u16, answers: Seq<TerminationAnswer>)
    requires
        answers.len() >= 5,
        forall|i: int|
            0 <= i < answers.len() ==> (#[trigger] answers[i]).elapsed_ms >= timeout_sec * 1000
                && answers[i].elapsed_ms >= KILL_TIMEOUT_MS,
    ensures
        termination_run(termination_begins(pid, timeout_sec), answers) is Done,
{
    let rest = answers.drop_first().drop_first().drop_first().drop_first().drop_first();
    let first = termination_begins(pid, timeout_sec);
    let s1 = termination_advance(first, answers[0]);
    let s2 = termination_advance(s1, answers[1]);
    let s3 = termination_advance(s2, answers[2]);
    let s4 = termination_advance(s3, answers[3]);
    let s5 = termination_advance(s4, answers[4]);
    reveal_with_fuel(termination_run, 6);
    assert(termination_run(first, answers) == termination_run(s5, rest));
    assert(s5 is Done);
    lemma_termination_done_stays(s5, rest);
}

/// Only a positive number is a process: any other is refused with its number, and a process has its
/// group looked up and as many thousand milliseconds as seconds are allowed.
pub proof fn law_termination_begins(pid: i32, timeout_sec: u16)
    ensures
        pid <= 0 ==> termination_begins(pid, timeout_sec) == TerminationView::Done(
            Err::<(), ProcessErrorView>(
                ProcessErrorView::Io(
                    IoErrorView {
                        kind: IoErrorKind::InvalidInput,
                        text: "cannot signal PID "@ + signed_decimal(pid as int)
                            + " (must be positive)"@,
                    },
                ),
            ),
        ),
        pid > 0 ==> (termination_begins(pid, timeout_sec) matches TerminationView::LookUpGroup(t)
            && t.pid == pid && t.grace_ms == timeout_sec * 1000),
{
}

/// A process that is gone needs no signal, one whose group cannot be looked up is an error, and so
/// is one in the own group; any other group is sent SIGTERM first, even where the own one is not
/// known.
pub proof fn law_after_the_group_was_looked_up(
    target: Target,
    group: i32,
    own_group: i32,
    e: IoError,
)
    ensures
        after_lookup(target, GroupLookup::Gone, own_group) == TerminationView::Done(
            Ok::<(), ProcessErrorView>(()),
        ),
        after_lookup(target, GroupLookup::Failed(e), own_group) == TerminationView::Done(
            Err::<(), ProcessErrorView>(ProcessErrorView::Signal(e@)),
        ),
        group == own_group && own_group >= 0 ==> after_lookup(
            target,
            GroupLookup::Found(group),
            own_group,
        ) == TerminationView::Done(
            Err::<(), ProcessErrorView>(
                ProcessErrorView::CannotSignalOwnProcessGroup { pid: target.pid },
            ),
        ),
        group != own_group || own_group < 0 ==> after_lookup(
            target,
            GroupLookup::Found(group),
            own_group,
        ) == TerminationView::Send(target, group, StopSignal::Term),
{
}

/// After a signal, sent or to a group that is gone, the target is looked at; a signal that could
/// not be sent is an error.
pub proof fn law_after_a_signal(target: Target, group: i32, signal: StopSignal, e: IoError)
    ensures
        after_signal(target, group, signal, SignalOutcome::Delivered) == TerminationView::Look(
            target,
            group,
            signal,
        ),
        after_signal(target, group, signal, SignalOutcome::Gone) == TerminationView::Look(
            target,
            group,
            signal,
        ),
        after_signal(target, group, signal, SignalOutcome::Failed(e)) == TerminationView::Done(
            Err::<(), ProcessErrorView>(ProcessErrorView::Io(e@)),
        ),
{
}

/// A target that no longer lives ends the termination well. One that does is waited for, the time
/// it was allowed after SIGTERM and five seconds after SIGKILL; then SIGTERM is followed by
/// SIGKILL to the same group, and SIGKILL by the timeout.
pub proof fn law_after_a_look(target: Target, group: i32, code: i32, elapsed_ms: u64)
    ensures
        forall|signal: StopSignal|
            {
                let ended = TerminationView::Done(Ok::<(), ProcessErrorView>(()));
                &&& #[trigger] after_look(
                    target,
                    group,
                    signal,
                    WaitOutcome::Exited(code),
                    elapsed_ms,
                ) == ended
                &&& after_look(target, group, signal, WaitOutcome::Ended, elapsed_ms) == ended
                &&& after_look(target, group, signal, WaitOutcome::Failed, elapsed_ms) == ended
            },
        ({
            let alive = WaitOutcome::StillAlive;
            &&& elapsed_ms < target.grace_ms ==> after_look(
                target,
                group,
                StopSignal::Term,
                alive,
                elapsed_ms,
            ) == TerminationView::Wait(target, group, StopSignal::Term)
            &&& elapsed_ms >= target.grace_ms ==> after_look(
                target,
                group,
                StopSignal::Term,
                alive,
                elapsed_ms,
            ) == TerminationView::Send(target, group, StopSignal::Kill)
            &&& elapsed_ms < 5000 ==> after_look(target, group, StopSignal::Kill, alive, elapsed_ms)
                == TerminationView::Wait(target, group, StopSignal::Kill)
            &&& elapsed_ms >= 5000 ==> after_look(
                target,
                group,
                StopSignal::Kill,
                alive,
                elapsed_ms,
            ) == TerminationView::Done(
                Err::<(), ProcessErrorView>(ProcessErrorView::ShutdownTimeout("unknown"@)),
            )
        }),
{
}

} // verus!
