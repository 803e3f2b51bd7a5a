//! Delivery of the termination signal to a running supervisor.
//!
//! The PID registry is the only channel between invocations of the tool, so
//! stopping a supervisor means signaling the PID its file stores.  Delivery
//! can fail — the PID may be gone or owned by another user — and a failure
//! is reported, never fatal: a sweep goes on to the remaining PIDs.

use vstd::prelude::*;

use crate::leave::SweepPlan;

verus! {

#[verifier::external_type_specification]
#[verifier::external_body]
pub struct ExErrno(nix::errno::Errno);

/// A failed signal delivery: the target PID was unreachable or permission
/// was denied.  Carries the OS errno for reporting.
pub struct SignalError {
    pub errno: nix::errno::Errno,
}

/// Relies on `nix::sys::signal::kill`: delivers SIGTERM to the process with
/// the given id, and returns the OS errno when the kernel refuses.  Whether
/// the signal is accepted depends on the processes alive at that moment, so
/// nothing more can be promised of the outcome.
#[verifier::external_body]
fn sigterm_raw(pid: i32) -> (r: Result<(), nix::errno::Errno>) {
    nix::sys::signal::kill(nix::unistd::Pid::from_raw(pid), Some(nix::sys::signal::Signal::SIGTERM))
}

/// Delivers SIGTERM to one supervisor.  The outcome reports whether the OS
/// accepted the signal; no outcome aborts the caller.
pub fn deliver_sigterm(pid: u32) -> (r: Result<(), SignalError>) {
    let raw: i32 = #[verifier::truncate] (pid as i32);
    match sigterm_raw(raw) {
        Ok(()) => Ok(()),
        Err(e) => Err(SignalError { errno: e }),
    }
}

/// The report of one attempted delivery of a sweep.
pub struct SignalReport {
    /// The program name the PID file was named after.
    pub name: String,
    /// The PID that was signaled.
    pub pid: u32,
    /// Whether the OS accepted the signal.
    pub outcome: Result<(), SignalError>,
}

/// Attempts every signal of a sweep plan, in order, regardless of earlier
/// failures: the reports correspond one to one to the planned signals, so a
/// PID that cannot be signaled never blocks the rest.
pub fn signal_all(plan: &SweepPlan) -> (r: Vec<SignalReport>)
    ensures
        r@.len() == plan.signals@.len(),
        forall|k: int|
            0 <= k < r@.len() ==> (#[trigger] r@[k]).name@ == plan.signals@[k].0@ && r@[k].pid
                == plan.signals@[k].1,
{
    let mut reports: Vec<SignalReport> = Vec::new();
    let mut i: usize = 0;
    while i < plan.signals.len()
        invariant
            i <= plan.signals@.len(),
            reports@.len() == i,
            forall|k: int|
                0 <= k < i ==> (#[trigger] reports@[k]).name@ == plan.signals@[k].0@
                    && reports@[k].pid == plan.signals@[k].1,
        decreases plan.signals@.len() - i,
    {
        let name = plan.signals[i].0.clone();
        let pid = plan.signals[i].1;
        let outcome = deliver_sigterm(pid);
        reports.push(SignalReport { name, pid, outcome });
        i += 1;
    }
    reports
}

} // verus!
