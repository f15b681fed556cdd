//! How a run of the whole exchange ends.

use vstd::prelude::*;

verus! {

/// After how many seconds a development build shuts itself down.
pub const AUTOMATIC_SHUTDOWN_AFTER_SECS: u64 = 3600;

/// How many connections to the database the pool holds at most.
pub const DATABASE_MAX_CONNECTIONS: u32 = 20;

/// Why a run of the exchange failed.
#[derive(Clone, Copy, Debug, PartialEq, Eq, Structural)]
pub enum StartFullstackError {
    /// The web server failed.
    Webserver,
    /// The database could not be reached.
    Database,
    /// The process was interrupted.
    Interrupted,
}

/// What ended the run: the first of these to happen.
#[derive(Clone, Copy, Debug, PartialEq, Eq, Structural)]
pub enum StopEvent {
    /// The web server returned, with or without an error.
    ServerReturned { failed: bool },
    /// The automatic shutdown of a development build came due.
    AutomaticShutdown,
    /// An interrupt signal arrived.
    Interrupt,
}

/// The result of a run that `event` ended: an automatic shutdown and a
/// server that returned without error are a success; a server that failed
/// and an interrupt are errors.
pub fn run_result(event: StopEvent) -> (r: Result<(), StartFullstackError>)
    ensures
        r == (match event {
            StopEvent::ServerReturned { failed } => if failed {
                Err::<(), StartFullstackError>(StartFullstackError::Webserver)
            } else {
                Ok::<(), StartFullstackError>(())
            },
            StopEvent::AutomaticShutdown => Ok::<(), StartFullstackError>(()),
            StopEvent::Interrupt => Err::<(), StartFullstackError>(
                StartFullstackError::Interrupted,
            ),
        }),
{
    match event {
        StopEvent::ServerReturned { failed } => if failed {
            Err(StartFullstackError::Webserver)
        } else {
            Ok(())
        },
        StopEvent::AutomaticShutdown => Ok(()),
        StopEvent::Interrupt => Err(StartFullstackError::Interrupted),
    }
}

impl StartFullstackError {
    /// The error in words.
    pub fn message(&self) -> (m: &'static str)
        ensures
            m@ == match *self {
                StartFullstackError::Webserver => "webserver error"@,
                StartFullstackError::Database => "database error"@,
                StartFullstackError::Interrupted => "interrupted"@,
            },
    {
        match self {
            StartFullstackError::Webserver => "webserver error",
            StartFullstackError::Database => "database error",
            StartFullstackError::Interrupted => "interrupted",
        }
    }
}

} // verus!
