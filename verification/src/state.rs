//! Container state: the on-disk record and the status computation.

use vstd::prelude::*;

verus! {

/// The OCI state version the runtime reports.
pub const OCI_STATE_VERSION: &'static str = "1.0.2-dev";

/// The lifecycle status of a container.
#[derive(Copy, Clone, Debug, PartialEq, Eq, Structural)]
pub enum ContainerStatus {
    /// The container directory exists but init has not reached its
    /// pre-start checkpoint.
    Creating,
    /// Init stands ready behind the exec gate.
    Created,
    /// The exec gate was opened; the user command runs.
    Running,
    /// The init process is gone.
    Stopped,
}

/// The textual name of a status.
pub open spec fn status_str(s: ContainerStatus) -> Seq<char> {
    match s {
        ContainerStatus::Creating => "creating"@,
        ContainerStatus::Created => "created"@,
        ContainerStatus::Running => "running"@,
        ContainerStatus::Stopped => "stopped"@,
    }
}

impl ContainerStatus {
    pub fn as_str(&self) -> (r: &'static str)
        ensures
            r@ == status_str(*self),
    {
        match self {
            ContainerStatus::Creating => "creating",
            ContainerStatus::Created => "created",
            ContainerStatus::Running => "running",
            ContainerStatus::Stopped => "stopped",
        }
    }
}

/// What the process table says about a recorded PID.
#[derive(Copy, Clone, Debug, PartialEq, Eq, Structural)]
pub enum ProcessKind {
    /// The process exists as a zombie.
    Zombie,
    /// The process exists but is dead.
    Dead,
    /// The process exists in any live state.
    Other,
}

/// The container's runtime state record, as reported to callers and to
/// pre-start hooks.
pub struct State {
    pub version: String,
    pub id: String,
    pub status: String,
    pub pid: Option<i32>,
    pub bundle: String,
    pub annotations: Option<Vec<(String, String)>>,
}

/// The status a container is in, from what the filesystem and process
/// table show: no recorded PID means creation is still under way; a
/// vanished, zombie or dead process means stopped; otherwise the exec
/// gate still standing means created, and its absence running.
pub fn container_status(
    pid: Option<i32>,
    process: Option<ProcessKind>,
    fifo_exists: bool,
) -> (r: ContainerStatus)
    ensures
        pid is None ==> r == ContainerStatus::Creating,
        pid is Some && process is None ==> r == ContainerStatus::Stopped,
        pid is Some && (process == Some(ProcessKind::Zombie) || process == Some(
            ProcessKind::Dead,
        )) ==> r == ContainerStatus::Stopped,
        pid is Some && process == Some(ProcessKind::Other) && fifo_exists ==> r
            == ContainerStatus::Created,
        pid is Some && process == Some(ProcessKind::Other) && !fifo_exists ==> r
            == ContainerStatus::Running,
{
    match pid {
        Option::None => ContainerStatus::Creating,
        Option::Some(_) => {
            match process {
                Option::None => ContainerStatus::Stopped,
                Option::Some(ProcessKind::Zombie) => ContainerStatus::Stopped,
                Option::Some(ProcessKind::Dead) => ContainerStatus::Stopped,
                Option::Some(ProcessKind::Other) => {
                    if fifo_exists {
                        ContainerStatus::Created
                    } else {
                        ContainerStatus::Running
                    }
                },
            }
        },
    }
}

/// Why a container cannot be deleted.
#[derive(Copy, Clone, Debug, PartialEq, Eq, Structural)]
pub enum DeleteError {
    /// The container is not stopped and force was not given.
    StillRunning,
}

/// What deletion must do before removing the container directory.
#[derive(Copy, Clone, Debug, PartialEq, Eq, Structural)]
pub struct DeleteAction {
    /// Send SIGKILL to the recorded init process first.
    pub kill_first: bool,
}

/// Decide a deletion request.  A stopped container is removed plainly.
/// One that is not stopped is refused without force; with force, a
/// container past creation is killed before its directory goes.
pub fn plan_delete(status: ContainerStatus, force: bool) -> (r: Result<DeleteAction, DeleteError>)
    ensures
        status == ContainerStatus::Stopped ==> r == Ok::<DeleteAction, DeleteError>(
            DeleteAction { kill_first: false },
        ),
        status != ContainerStatus::Stopped && !force ==> r == Err::<DeleteAction, DeleteError>(
            DeleteError::StillRunning,
        ),
        status != ContainerStatus::Stopped && force ==> r == Ok::<DeleteAction, DeleteError>(
            DeleteAction { kill_first: status != ContainerStatus::Creating },
        ),
{
    if status == ContainerStatus::Stopped {
        Ok(DeleteAction { kill_first: false })
    } else if !force {
        Err(DeleteError::StillRunning)
    } else {
        Ok(DeleteAction { kill_first: status != ContainerStatus::Creating })
    }
}

/// What a kill request amounts to.
#[derive(Copy, Clone, Debug, PartialEq, Eq, Structural)]
pub enum KillDecision {
    /// The container is already stopped: nothing to do.
    AlreadyStopped,
    /// Signalling all container processes is not supported.
    AllUnsupported,
    /// Only created and running containers can be signalled.
    InvalidState,
    /// Send the signal to the recorded init process.
    Send,
}

/// Decide a kill request, in the order the checks apply: stopped
/// containers need nothing, the all-processes form is unsupported, and
/// only created or running containers receive the signal.
pub fn plan_kill(status: ContainerStatus, all: bool) -> (r: KillDecision)
    ensures
        status == ContainerStatus::Stopped ==> r == KillDecision::AlreadyStopped,
        status != ContainerStatus::Stopped && all ==> r == KillDecision::AllUnsupported,
        status != ContainerStatus::Stopped && !all && status != ContainerStatus::Created && status
            != ContainerStatus::Running ==> r == KillDecision::InvalidState,
        (status == ContainerStatus::Created || status == ContainerStatus::Running) && !all ==> r
            == KillDecision::Send,
{
    if status == ContainerStatus::Stopped {
        KillDecision::AlreadyStopped
    } else if all {
        KillDecision::AllUnsupported
    } else if status != ContainerStatus::Created && status != ContainerStatus::Running {
        KillDecision::InvalidState
    } else {
        KillDecision::Send
    }
}

/// Prefix a bare signal name with `SIG`: `TERM` becomes `SIGTERM`, a
/// name already so prefixed stands unchanged.
pub fn normalize_signal_name(sig: &str) -> (r: String)
    ensures
        r@ == if sig@.len() >= 3 && sig@.take(3) == "SIG"@ {
            sig@
        } else {
            "SIG"@ + sig@
        },
{
    let n = sig.unicode_len();
    if n >= 3 {
        let head = sig.substring_char(0, 3);
        proof {
            assert(sig@.subrange(0, 3) == sig@.take(3));
        }
        if crate::paths::str_eq(head, "SIG") {
            return sig.to_owned();
        }
    }
    let mut out = String::from_str("SIG");
    out.append(sig);
    out
}

} // verus!
