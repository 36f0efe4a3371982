//! How the results of one session's parts combine into its outcome.

use vstd::prelude::*;
use crate::protocol::ProtocolError;
use crate::session::{after_published, Phase};

verus! {

/// A failure of input, output, or of the process and threads around them.
#[derive(Clone, Copy, Debug, PartialEq, Eq, Structural)]
pub enum IoFault {
    /// The AI process could not be started.
    Spawn,
    /// One of the AI process's three streams was not available.
    MissingStream,
    /// Reading from the AI process failed.
    Read,
    /// Writing to the AI process failed.
    Write,
    /// A session thread stopped without returning a result.
    ThreadFault,
    /// The AI process exited with a failure status.
    ChildFailed,
}

/// Why a session failed.
#[derive(Clone, Copy, Debug, PartialEq, Eq, Structural)]
pub enum Failure {
    Io(IoFault),
    Protocol(ProtocolError),
}

/// The outcome of a session: a control-loop failure first, then a failure
/// of the debug relay, then an unsuccessful exit of the AI process.
pub open spec fn session_outcome_of(
    control: Result<(), Failure>,
    debug: Result<(), Failure>,
    exit_ok: bool,
) -> Result<(), Failure> {
    match control {
        Err(e) => Err(e),
        Ok(_) => match debug {
            Err(e) => Err(e),
            Ok(_) => if exit_ok {
                Ok(())
            } else {
                Err(Failure::Io(IoFault::ChildFailed))
            },
        },
    }
}

/// What the control loop returns once its session has finished.
pub open spec fn control_result_of(p: Phase) -> Result<(), Failure> {
    match p {
        Phase::Finished(Err(e)) => Err(Failure::Protocol(e)),
        _ => Ok(()),
    }
}

/// Combines the control loop's result, the debug relay's result and
/// whether the AI process exited successfully.
pub fn session_outcome(control: Result<(), Failure>, debug: Result<(), Failure>, exit_ok: bool) -> (r:
    Result<(), Failure>)
    ensures
        r == session_outcome_of(control, debug, exit_ok),
{
    match control {
        Err(e) => Err(e),
        Ok(_) => match debug {
            Err(e) => Err(e),
            Ok(_) => if exit_ok {
                Ok(())
            } else {
                Err(Failure::Io(IoFault::ChildFailed))
            },
        },
    }
}

/// The control loop's result for a finished session.
pub fn control_result(p: Phase) -> (r: Result<(), Failure>)
    requires
        p is Finished,
    ensures
        r == control_result_of(p),
{
    match p {
        Phase::Finished(Err(e)) => Err(Failure::Protocol(e)),
        _ => Ok(()),
    }
}

/// A command consumer that has gone away ends the control loop without
/// failure; the session's outcome is then decided by the debug relay and by
/// how the AI process exited.
pub proof fn lemma_consumer_gone(debug: Result<(), Failure>, exit_ok: bool)
    ensures
        control_result_of(after_published(false)) == Ok::<(), Failure>(()),
        session_outcome_of(control_result_of(after_published(false)), debug, exit_ok) == (
        match debug {
            Err(e) => Err(e),
            Ok(_) => if exit_ok {
                Ok(())
            } else {
                Err(Failure::Io(IoFault::ChildFailed))
            },
        }),
{
}

} // verus!
