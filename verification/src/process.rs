use vstd::prelude::*;

use crate::types::SpawnedProcess;

verus! {

/// One step of the teardown escalation, to be performed by the
/// process-owning frontend.
#[derive(Debug)]
pub enum KillStep {
    /// Send the graceful terminate signal to the whole process group.
    SignalGroupTerm(i64),
    /// Wait the grace period, in milliseconds.
    WaitMillis(u64),
    /// Send the forceful kill signal to the whole process group.
    SignalGroupKill(i64),
    /// Kill the primary handle directly, ignoring "already exited".
    KillHandle,
    /// Wait for the handle so no zombie remains.
    WaitHandle,
    /// Best-effort sweep by the original command string, for processes
    /// that left the group.
    SweepPattern(String),
}

/// The teardown plan for one spawned helper: nothing for a handle-less
/// record; otherwise terminate the group, wait 150 ms, kill the group,
/// kill and reap the handle, then sweep by the command pattern.
pub fn teardown_steps(p: &SpawnedProcess) -> (r: Vec<KillStep>)
    ensures
        !p.has_handle ==> r@.len() == 0,
        p.has_handle ==> {
            &&& r@.len() == 6
            &&& r@[0] == KillStep::SignalGroupTerm(p.group_id)
            &&& r@[1] == KillStep::WaitMillis(150u64)
            &&& r@[2] == KillStep::SignalGroupKill(p.group_id)
            &&& r@[3] == KillStep::KillHandle
            &&& r@[4] == KillStep::WaitHandle
            &&& r@[5] matches KillStep::SweepPattern(pat) && pat@ == p.command@
        },
{
    let mut r: Vec<KillStep> = Vec::new();
    if p.has_handle {
        r.push(KillStep::SignalGroupTerm(p.group_id));
        r.push(KillStep::WaitMillis(150));
        r.push(KillStep::SignalGroupKill(p.group_id));
        r.push(KillStep::KillHandle);
        r.push(KillStep::WaitHandle);
        r.push(KillStep::SweepPattern(p.command.clone()));
    }
    r
}

} // verus!
