//! Spawning a model's script: what the child does before it becomes the script, and how the
//! parent watches it until it may be taken as started.

use vstd::prelude::*;
use vstd::string::*;

use crate::io_error::other_error;
use crate::io_error::IoError;
use crate::io_error::IoErrorKind;
use crate::io_error::IoErrorView;
use crate::process_manager::spawn_result;
use crate::process_manager::LinuxProcessGuard;
use crate::process_manager::ProcessError;
use crate::process_manager::ProcessErrorView;
use crate::termination::termination_begins;
use crate::termination::TerminationStep;
use crate::termination::TerminationView;
use crate::termination::WaitOutcome;
use crate::text::signed_decimal;
use crate::text::signed_decimal_text;

verus! {

/// How often the parent looks at a new child before it takes it as started.
pub const STARTUP_LOOKS: u32 = 50;

/// How long a started process may take to shut down once it is asked to, in seconds.
pub const SHUTDOWN_TIMEOUT_SEC: u16 = 10;

/// The side of a fork that a process finds itself on.
#[derive(Debug, Clone, Copy, PartialEq, Eq, Structural)]
pub enum ForkSide {
    /// There is no child.
    Failed,
    /// This is the child.
    Child,
    /// This is the parent; the child's number.
    Parent(i32),
}

/// The side of a fork that its result tells.
pub fn fork_side(fork_result: i32) -> (side: ForkSide)
    ensures
        fork_result < 0 ==> side == ForkSide::Failed,
        fork_result == 0 ==> side == ForkSide::Child,
        fork_result > 0 ==> side == ForkSide::Parent(fork_result),
{
    if fork_result < 0 {
        ForkSide::Failed
    } else if fork_result == 0 {
        ForkSide::Child
    } else {
        ForkSide::Parent(fork_result)
    }
}

/// What a child has to do next on its way to the script.
#[derive(Debug, Clone, Copy, PartialEq, Eq, Structural)]
pub enum ChildStep {
    /// Ask for SIGTERM when the parent dies.
    SetDeathSignal,
    /// Find out the number of the parent.
    CheckParent,
    /// Become the leader of a new session.
    NewSession,
    /// Become the script.
    Exec,
    /// Give up.
    Exit,
}

/// The step after one whose call returned `result`; `parent_pid` is the number that the parent
/// had before the fork.
pub open spec fn child_next(step: ChildStep, result: i32, parent_pid: i32) -> ChildStep {
    match step {
        ChildStep::SetDeathSignal => if result == 0 {
            ChildStep::CheckParent
        } else {
            ChildStep::Exit
        },
        ChildStep::CheckParent => if result == parent_pid {
            ChildStep::NewSession
        } else {
            ChildStep::Exit
        },
        ChildStep::NewSession => if result >= 0 {
            ChildStep::Exec
        } else {
            ChildStep::Exit
        },
        ChildStep::Exec => ChildStep::Exit,
        ChildStep::Exit => ChildStep::Exit,
    }
}

/// The step after one whose call returned `result`.
pub fn next_child_step(step: ChildStep, result: i32, parent_pid: i32) -> (next: ChildStep)
    ensures
        next == child_next(step, result, parent_pid),
{
    match step {
        ChildStep::SetDeathSignal => if result == 0 {
            ChildStep::CheckParent
        } else {
            ChildStep::Exit
        },
        ChildStep::CheckParent => if result == parent_pid {
            ChildStep::NewSession
        } else {
            ChildStep::Exit
        },
        ChildStep::NewSession => if result >= 0 {
            ChildStep::Exec
        } else {
            ChildStep::Exit
        },
        ChildStep::Exec => ChildStep::Exit,
        ChildStep::Exit => ChildStep::Exit,
    }
}

/// A child becomes the script exactly when it asked for a signal at its parent's death, its
/// parent was still alive after that, and it leads a session of its own.
pub proof fn law_child_outlives_no_parent(
    death_signal: i32,
    seen_parent: i32,
    session: i32,
    parent_pid: i32,
)
    ensures
        child_next(
            child_next(
                child_next(ChildStep::SetDeathSignal, death_signal, parent_pid),
                seen_parent,
                parent_pid,
            ),
            session,
            parent_pid,
        ) == ChildStep::Exec <==> death_signal == 0 && seen_parent == parent_pid && session >= 0,
{
}

/// A new child under watch: its number, the port its model is to listen on, and how many more
/// looks it is given.
#[derive(Debug, Clone, Copy, PartialEq, Eq, Structural)]
pub struct SpawnWatch {
    pub pid: i32,
    pub port: u16,
    pub looks_left: u32,
}

/// The next step of watching a new child.
#[derive(Debug)]
pub enum SpawnStep {
    /// See whether the child is alive.
    Look(SpawnWatch),
    /// Wait a moment.
    Wait(SpawnWatch),
    /// The watch is over.
    Done(Result<LinuxProcessGuard, ProcessError>),
}

/// What a `SpawnStep` says.
pub enum SpawnView {
    Look(SpawnWatch),
    Wait(SpawnWatch),
    Done(Result<LinuxProcessGuard, ProcessErrorView>),
}

impl View for SpawnStep {
    type V = SpawnView;

    open spec fn view(&self) -> SpawnView {
        match self {
            SpawnStep::Look(w) => SpawnView::Look(*w),
            SpawnStep::Wait(w) => SpawnView::Wait(*w),
            SpawnStep::Done(r) => SpawnView::Done(spawn_result(*r)),
        }
    }
}

impl SpawnWatch {
    /// The guard of the child, once it is taken as started.
    pub open spec fn started(self) -> SpawnView {
        SpawnView::Done(
            Ok(
                LinuxProcessGuard {
                    pid: Some(self.pid),
                    port: self.port,
                    shutdown_timeout_sec: SHUTDOWN_TIMEOUT_SEC,
                },
            ),
        )
    }

    /// The same watch with one look less.
    pub open spec fn looked(self) -> SpawnWatch {
        SpawnWatch {
            looks_left: if self.looks_left > 0 {
                (self.looks_left - 1) as u32
            } else {
                0
            },
            ..self
        }
    }

    /// The step after a look at the child: one that ended is a failure, one that cannot be
    /// looked at is taken as started.
    pub open spec fn after_look(self, seen: WaitOutcome) -> SpawnView {
        match seen {
            WaitOutcome::StillAlive => SpawnView::Wait(self.looked()),
            WaitOutcome::Exited(code) => SpawnView::Done(
                Err(
                    ProcessErrorView::Spawn(
                        other_error(
                            "child process exited with code "@ + signed_decimal(code as int),
                        ),
                    ),
                ),
            ),
            WaitOutcome::Ended => SpawnView::Done(
                Err(ProcessErrorView::Spawn(other_error("child process exited unexpectedly"@))),
            ),
            WaitOutcome::Failed => self.started(),
        }
    }

    /// The step after a wait.
    pub open spec fn after_wait(self) -> SpawnView {
        if self.looks_left == 0 {
            self.started()
        } else {
            SpawnView::Look(self)
        }
    }

    fn start_guard(&self) -> (step: SpawnStep)
        ensures
            step@ == self.started(),
    {
        SpawnStep::Done(
            Ok(
                LinuxProcessGuard {
                    pid: Some(self.pid),
                    port: self.port,
                    shutdown_timeout_sec: SHUTDOWN_TIMEOUT_SEC,
                },
            ),
        )
    }

    /// Takes back what a look at the child found.
    pub fn child_seen(self, seen: WaitOutcome) -> (step: SpawnStep)
        ensures
            step@ == self.after_look(seen),
    {
        match seen {
            WaitOutcome::StillAlive => SpawnStep::Wait(
                SpawnWatch {
                    pid: self.pid,
                    port: self.port,
                    looks_left: if self.looks_left > 0 {
                        self.looks_left - 1
                    } else {
                        0
                    },
                },
            ),
            WaitOutcome::Exited(code) => {
                let message = "child process exited with code ".to_owned().concat(
                    signed_decimal_text(code).as_str(),
                );
                SpawnStep::Done(Err(ProcessError::Spawn(IoError::other(message))))
            },
            WaitOutcome::Ended => SpawnStep::Done(
                Err(
                    ProcessError::Spawn(
                        IoError::other("child process exited unexpectedly".to_owned()),
                    ),
                ),
            ),
            WaitOutcome::Failed => self.start_guard(),
        }
    }

    /// Goes on after a wait.
    pub fn waited(self) -> (step: SpawnStep)
        ensures
            step@ == self.after_wait(),
    {
        if self.looks_left == 0 {
            self.start_guard()
        } else {
            SpawnStep::Look(self)
        }
    }
}

/// What watching a child comes to after each fork; `reason` says why there is no child where the
/// fork failed.
pub open spec fn watch_begins(side: ForkSide, port: u16, reason: IoErrorView) -> SpawnView {
    match side {
        ForkSide::Parent(pid) => SpawnView::Look(
            SpawnWatch { pid, port, looks_left: STARTUP_LOOKS },
        ),
        _ => SpawnView::Done(Err(ProcessErrorView::Spawn(reason))),
    }
}

impl LinuxProcessGuard {
    /// Sets up a model process in the parent, once the fork was made: the first step of watching
    /// the child, or the failure of the fork.
    pub fn setup(side: ForkSide, port: u16, reason: IoError) -> (step: SpawnStep)
        requires
            side != ForkSide::Child,
        ensures
            step@ == watch_begins(side, port, reason@),
    {
        match side {
            ForkSide::Parent(pid) => SpawnStep::Look(
                SpawnWatch { pid, port, looks_left: STARTUP_LOOKS },
            ),
            _ => SpawnStep::Done(Err(ProcessError::Spawn(reason))),
        }
    }
}

/// A guard of a model process: how the process is set up and terminated on a platform.
pub trait ProcessGuard: Sized {
    /// Sets up a model process in the parent, once the fork was made.
    fn setup(side: ForkSide, port: u16, reason: IoError) -> (step: SpawnStep)
        requires
            side != ForkSide::Child,
    ;

    /// Terminates the process: the first step.
    fn terminate(&self) -> (step: TerminationStep);
}

impl ProcessGuard for LinuxProcessGuard {
    fn setup(side: ForkSide, port: u16, reason: IoError) -> (step: SpawnStep)
        ensures
            step@ == watch_begins(side, port, reason@),
    {
        LinuxProcessGuard::setup(side, port, reason)
    }

    fn terminate(&self) -> (step: TerminationStep)
        ensures
            step@ == (match self.pid {
                Some(pid) => termination_begins(pid, self.shutdown_timeout_sec),
                None => TerminationView::Done(Ok(())),
            }),
    {
        LinuxProcessGuard::terminate(self)
    }
}

/// The step after a look and, where the child is alive, the wait that follows.
pub open spec fn watch_round(step: SpawnView, seen: WaitOutcome) -> SpawnView {
    match step {
        SpawnView::Look(w) => match w.after_look(seen) {
            SpawnView::Wait(v) => v.after_wait(),
            other => other,
        },
        _ => step,
    }
}

/// The step after as many rounds as there are looks.
pub open spec fn watch_run(step: SpawnView, seen: Seq<WaitOutcome>) -> SpawnView
    decreases seen.len(),
{
    if seen.len() == 0 {
        step
    } else {
        watch_round(watch_run(step, seen.drop_last()), seen.last())
    }
}

proof fn lemma_alive_rounds(
    pid: i32,
    port: u16,
    reason: IoErrorView,
    seen: Seq<WaitOutcome>,
)
    requires
        seen.len() < STARTUP_LOOKS,
        forall|i: int| 0 <= i < seen.len() ==> #[trigger] seen[i] == WaitOutcome::StillAlive,
    ensures
        watch_run(watch_begins(ForkSide::Parent(pid), port, reason), seen) == SpawnView::Look(
            SpawnWatch { pid, port, looks_left: (STARTUP_LOOKS - seen.len()) as u32 },
        ),
    decreases seen.len(),
{
    if seen.len() > 0 {
        lemma_alive_rounds(pid, port, reason, seen.drop_last());
        assert(seen[seen.len() - 1] == WaitOutcome::StillAlive);
    }
}

/// A child that is alive at every one of the first fifty looks is taken as started, under its
/// number and port.
pub proof fn law_surviving_child_is_started(
    pid: i32,
    port: u16,
    reason: IoErrorView,
    seen: Seq<WaitOutcome>,
)
    requires
        seen.len() == STARTUP_LOOKS,
        forall|i: int| 0 <= i < seen.len() ==> #[trigger] seen[i] == WaitOutcome::StillAlive,
    ensures
        watch_run(watch_begins(ForkSide::Parent(pid), port, reason), seen) == SpawnView::Done(
            Ok::<LinuxProcessGuard, ProcessErrorView>(
                LinuxProcessGuard {
                    pid: Some(pid),
                    port,
                    shutdown_timeout_sec: SHUTDOWN_TIMEOUT_SEC,
                },
            ),
        ),
{
    lemma_alive_rounds(pid, port, reason, seen.drop_last());
    assert(seen[seen.len() - 1] == WaitOutcome::StillAlive);
}

/// A child that exits at one of the first fifty looks, having been alive at those before, is
/// reported as a failed spawn with its exit code.
pub proof fn law_exited_child_is_reported(
    pid: i32,
    port: u16,
    reason: IoErrorView,
    seen: Seq<WaitOutcome>,
    code: i32,
)
    requires
        seen.len() < STARTUP_LOOKS,
        forall|i: int| 0 <= i < seen.len() ==> #[trigger] seen[i] == WaitOutcome::StillAlive,
    ensures
        watch_run(
            watch_begins(ForkSide::Parent(pid), port, reason),
            seen.push(WaitOutcome::Exited(code)),
        ) == SpawnView::Done(
            Err::<LinuxProcessGuard, ProcessErrorView>(
                ProcessErrorView::Spawn(
                    other_error("child process exited with code "@ + signed_decimal(code as int)),
                ),
            ),
        ),
{
    lemma_alive_rounds(pid, port, reason, seen);
    assert(seen.push(WaitOutcome::Exited(code)).drop_last() =~= seen);
}

/// A child goes from each step to the next exactly where the call of that step succeeded, and else
/// gives up; from the script it comes back only to give up.
pub proof fn law_steps_of_a_child(result: i32, parent_pid: i32)
    ensures
        ({
            let (a, b, c) = (
                child_next(ChildStep::SetDeathSignal, result, parent_pid),
                child_next(ChildStep::CheckParent, result, parent_pid),
                child_next(ChildStep::NewSession, result, parent_pid),
            );
            &&& result == 0 ==> a == ChildStep::CheckParent
            &&& result != 0 ==> a == ChildStep::Exit
            &&& result == parent_pid ==> b == ChildStep::NewSession
            &&& result != parent_pid ==> b == ChildStep::Exit
            &&& result >= 0 ==> c == ChildStep::Exec
            &&& result < 0 ==> c == ChildStep::Exit
            &&& child_next(ChildStep::Exec, result, parent_pid) == ChildStep::Exit
            &&& child_next(ChildStep::Exit, result, parent_pid) == ChildStep::Exit
        }),
{
}

/// A child that was forked is watched for up to fifty looks under its own number and port; a fork
/// that failed is a failed spawn with its reason.
pub proof fn law_watch_begins(pid: i32, port: u16, reason: IoErrorView)
    ensures
        watch_begins(ForkSide::Parent(pid), port, reason) == SpawnView::Look(
            SpawnWatch { pid, port, looks_left: 50 },
        ),
        watch_begins(ForkSide::Failed, port, reason) == SpawnView::Done(
            Err::<LinuxProcessGuard, ProcessErrorView>(ProcessErrorView::Spawn(reason)),
        ),
{
}

/// A child that is alive costs one look and is waited for; one that exited or ended is a failed
/// spawn; one that cannot be looked at is taken as started, with ten seconds to shut down.
pub proof fn law_after_a_look_at_a_child(watch: SpawnWatch, code: i32)
    ensures
        watch.looks_left > 0 ==> (watch.after_look(
            WaitOutcome::StillAlive,
        ) matches SpawnView::Wait(w) && w.pid == watch.pid && w.port == watch.port && w.looks_left
            == watch.looks_left - 1),
        watch.looks_left == 0 ==> watch.after_look(WaitOutcome::StillAlive) == SpawnView::Wait(
            watch,
        ),
        watch.after_look(WaitOutcome::Exited(code)) == SpawnView::Done(
            Err::<LinuxProcessGuard, ProcessErrorView>(
                ProcessErrorView::Spawn(
                    IoErrorView {
                        kind: IoErrorKind::Other,
                        text: "child process exited with code "@ + signed_decimal(code as int),
                    },
                ),
            ),
        ),
        watch.after_look(WaitOutcome::Ended) == SpawnView::Done(
            Err::<LinuxProcessGuard, ProcessErrorView>(
                ProcessErrorView::Spawn(
                    IoErrorView {
                        kind: IoErrorKind::Other,
                        text: "child process exited unexpectedly"@,
                    },
                ),
            ),
        ),
        watch.after_look(WaitOutcome::Failed) == SpawnView::Done(
            Ok::<LinuxProcessGuard, ProcessErrorView>(
                LinuxProcessGuard {
                    pid: Some(watch.pid),
                    port: watch.port,
                    shutdown_timeout_sec: 10,
                },
            ),
        ),
{
}

/// After a wait a child is looked at again while looks are left, and else taken as started.
pub proof fn law_after_a_wait_for_a_child(watch: SpawnWatch)
    ensures
        watch.looks_left > 0 ==> watch.after_wait() == SpawnView::Look(watch),
        watch.looks_left == 0 ==> watch.after_wait() == SpawnView::Done(
            Ok::<LinuxProcessGuard, ProcessErrorView>(
                LinuxProcessGuard {
                    pid: Some(watch.pid),
                    port: watch.port,
                    shutdown_timeout_sec: 10,
                },
            ),
        ),
{
}

} // verus!
