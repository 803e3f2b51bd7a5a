//! The lifecycle controller: the decisions of the supervisor's restart loop.
//!
//! The loop around this module spawns the child, polls its state, sleeps,
//! and watches the shutdown flag; every decision — whether to spawn, poll or
//! shut down, how long to sleep, when to join the output readers and when to
//! remove the PID file — is taken here.  The controller guarantees that a
//! dead child is respawned after exactly the fixed restart delay, that a
//! failed spawn is retried after exactly the fixed backoff, and that once
//! shutdown is requested no child is ever spawned again.

use vstd::prelude::*;

verus! {

/// Backoff after a failed spawn, in milliseconds.
pub const RETRY_DELAY_MS: u64 = 5000;

/// Pause between a child's exit and its restart, in milliseconds.
pub const RESTART_DELAY_MS: u64 = 2000;

/// Pause between two polls of a running child, in milliseconds.
pub const POLL_INTERVAL_MS: u64 = 200;

/// The lifecycle phases of one supervisor.
#[derive(Clone, Copy, PartialEq, Eq, Structural, Debug)]
pub enum Phase {
    /// No child is running; one should be started.
    Idle,
    /// A spawn attempt is in flight.
    Starting,
    /// A child is running and being polled.
    Running,
    /// Shutdown was observed; the child is being torn down.
    Stopping,
    /// The supervisor is done.
    Terminated,
}

/// What the loop must do next.
#[derive(Clone, Copy, PartialEq, Eq, Structural, Debug)]
pub enum Directive {
    /// Attempt to spawn the child and report the outcome.
    SpawnChild,
    /// Poll the running child (the PID is informational) and report the
    /// outcome.
    PollChild { pid: u32 },
    /// Shut down: kill and await the child if one is given, join the output
    /// readers, and remove the supervisor's own PID file.
    BeginShutdown { child_to_kill: Option<u32>, remove_pid_file: bool },
}

/// What one poll of the child observed.
#[derive(Clone, Copy, PartialEq, Eq, Structural, Debug)]
pub enum ChildEvent {
    /// The child is still running.
    StillRunning,
    /// The child exited, with its reported success and exit code.
    Exited { success: bool, code: i32 },
    /// The child's state could not be read; the child is given up and
    /// restarted.
    PollFailed,
}

/// What the loop must do after a poll: whether to join the output readers,
/// and how long to sleep before the next iteration.
#[derive(Clone, Copy, PartialEq, Eq, Structural, Debug)]
pub struct PollStep {
    pub join_readers: bool,
    pub delay_ms: u64,
}

/// The controller's state: its phase and the child it owns, if any.  At most
/// one live child exists at a time.
#[derive(Clone, Copy, PartialEq, Eq, Structural, Debug)]
pub struct Controller {
    pub phase: Phase,
    pub child: Option<u32>,
}

/// The decision the controller takes at the top of each loop iteration.
pub open spec fn next_directive_spec(c: Controller, shutdown: bool) -> (Controller, Directive) {
    if shutdown {
        (
            Controller { phase: Phase::Stopping, child: c.child },
            Directive::BeginShutdown { child_to_kill: c.child, remove_pid_file: true },
        )
    } else {
        match c.child {
            None => (Controller { phase: Phase::Starting, child: None }, Directive::SpawnChild),
            Some(pid) => (c, Directive::PollChild { pid }),
        }
    }
}

/// The controller's reaction to a spawn outcome: the delay before the next
/// iteration.
pub open spec fn on_spawn_result_spec(c: Controller, pid: Option<u32>) -> (Controller, u64) {
    match pid {
        Some(p) => (Controller { phase: Phase::Running, child: Some(p) }, 0),
        None => (Controller { phase: Phase::Idle, child: None }, RETRY_DELAY_MS),
    }
}

/// The controller's reaction to a poll outcome.
pub open spec fn on_child_poll_spec(c: Controller, ev: ChildEvent, shutdown: bool) -> (
    Controller,
    PollStep,
) {
    match ev {
        ChildEvent::StillRunning => (c, PollStep { join_readers: false, delay_ms: POLL_INTERVAL_MS }),
        ChildEvent::Exited { success, code } => (
            Controller { phase: Phase::Idle, child: None },
            PollStep {
                join_readers: true,
                delay_ms: if shutdown {
                    0
                } else {
                    RESTART_DELAY_MS
                },
            },
        ),
        ChildEvent::PollFailed => (
            Controller { phase: Phase::Idle, child: None },
            PollStep { join_readers: true, delay_ms: RESTART_DELAY_MS },
        ),
    }
}

impl Controller {
    /// The child handle exists exactly while a child is running or being
    /// torn down.
    pub open spec fn wf(&self) -> bool {
        match self.phase {
            Phase::Idle => self.child.is_none(),
            Phase::Starting => self.child.is_none(),
            Phase::Running => self.child.is_some(),
            Phase::Stopping => true,
            Phase::Terminated => self.child.is_none(),
        }
    }

    /// A fresh controller: no child, nothing started yet.
    pub fn new() -> (r: Controller)
        ensures
            r.wf(),
            r.phase == Phase::Idle,
            r.child.is_none(),
    {
        Controller { phase: Phase::Idle, child: None }
    }

    /// One decision of the poll loop.  On shutdown the directive orders the
    /// child (if any) killed and the PID file removed; otherwise a missing
    /// child is spawned and a present one polled.  Never directs a spawn
    /// once shutdown is requested.
    pub fn next_directive(&mut self, shutdown: bool) -> (r: Directive)
        requires
            old(self).wf(),
            old(self).phase == Phase::Idle || old(self).phase == Phase::Running,
        ensures
            (*final(self), r) == next_directive_spec(*old(self), shutdown),
            final(self).wf(),
    {
        if shutdown {
            self.phase = Phase::Stopping;
            Directive::BeginShutdown { child_to_kill: self.child, remove_pid_file: true }
        } else {
            match self.child {
                None => {
                    self.phase = Phase::Starting;
                    Directive::SpawnChild
                },
                Some(pid) => Directive::PollChild { pid },
            }
        }
    }

    /// Records the launcher's outcome: the new child on success, or a failed
    /// spawn that is retried after the fixed backoff.  Returns the
    /// milliseconds to sleep before the next iteration.
    pub fn on_spawn_result(&mut self, pid: Option<u32>) -> (delay_ms: u64)
        requires
            old(self).wf(),
            old(self).phase == Phase::Starting,
        ensures
            (*final(self), delay_ms) == on_spawn_result_spec(*old(self), pid),
            final(self).wf(),
    {
        match pid {
            Some(p) => {
                self.phase = Phase::Running;
                self.child = Some(p);
                0
            },
            None => {
                self.phase = Phase::Idle;
                self.child = None;
                RETRY_DELAY_MS
            },
        }
    }

    /// Records one poll of the running child.  An exit or a failed poll
    /// drops the handle, orders the output readers joined so no line is
    /// lost, and — unless shutdown was requested meanwhile — waits the fixed
    /// restart delay.
    pub fn on_child_poll(&mut self, ev: ChildEvent, shutdown: bool) -> (r: PollStep)
        requires
            old(self).wf(),
            old(self).phase == Phase::Running,
        ensures
            (*final(self), r) == on_child_poll_spec(*old(self), ev, shutdown),
            final(self).wf(),
    {
        match ev {
            ChildEvent::StillRunning => PollStep {
                join_readers: false,
                delay_ms: POLL_INTERVAL_MS,
            },
            ChildEvent::Exited { success: _, code: _ } => {
                self.phase = Phase::Idle;
                self.child = None;
                PollStep { join_readers: true, delay_ms: if shutdown { 0 } else { RESTART_DELAY_MS } }
            },
            ChildEvent::PollFailed => {
                self.phase = Phase::Idle;
                self.child = None;
                PollStep { join_readers: true, delay_ms: RESTART_DELAY_MS }
            },
        }
    }

    /// Completes the shutdown: the child is gone and the loop exits.
    pub fn on_shutdown_complete(&mut self)
        requires
            old(self).phase == Phase::Stopping,
        ensures
            final(self).phase == Phase::Terminated,
            final(self).child.is_none(),
            final(self).wf(),
    {
        self.phase = Phase::Terminated;
        self.child = None;
    }
}

/// Once shutdown is requested, the controller never directs another spawn:
/// whatever its state, the directive under a raised shutdown flag is a
/// shutdown, not a spawn.
pub proof fn lemma_no_spawn_after_shutdown(c: Controller)
    ensures
        next_directive_spec(c, true).1 != Directive::SpawnChild,
        next_directive_spec(c, true).1 == (Directive::BeginShutdown {
            child_to_kill: c.child,
            remove_pid_file: true,
        }),
{
}

/// Every shutdown directive orders the supervisor's own PID file removed, so
/// after a clean shutdown the PID file no longer exists.
pub proof fn lemma_shutdown_removes_pid_file(c: Controller)
    ensures
        next_directive_spec(c, true).1 matches Directive::BeginShutdown {
            remove_pid_file,
            ..
        } && remove_pid_file,
{
}

/// After an observed child exit without a shutdown request, the controller
/// waits exactly the fixed restart delay and the very next directive is a
/// spawn; with a shutdown request, no delay and no spawn follow.
pub proof fn lemma_restart_policy(c: Controller, success: bool, code: i32)
    requires
        c.wf(),
        c.phase == Phase::Running,
    ensures
        ({
            let (c2, step) = on_child_poll_spec(c, ChildEvent::Exited { success, code }, false);
            step == (PollStep { join_readers: true, delay_ms: RESTART_DELAY_MS })
                && next_directive_spec(c2, false).1 == Directive::SpawnChild
        }),
        ({
            let (c3, step3) = on_child_poll_spec(c, ChildEvent::Exited { success, code }, true);
            step3.delay_ms == 0 && next_directive_spec(c3, true).1 != Directive::SpawnChild
        }),
{
}

} // verus!
