//! A peer-to-peer directory mirror: the operation log that suppresses
//! echoes, the byte format of the change requests that peers exchange,
//! and the decisions taken by the change watcher and the sync server.
use vstd::prelude::*;

pub mod index;
pub mod net;
pub mod server;
pub mod watcher;

verus! {

/// Why the daemon stopped.
#[derive(Debug)]
pub enum RunError {
    Server(server::Error),
}

impl From<server::Error> for RunError {
    fn from(e: server::Error) -> (r: RunError) {
        RunError::Server(e)
    }
}

impl vstd::std_specs::convert::FromSpecImpl<server::Error> for RunError {
    open spec fn obeys_from_spec() -> bool {
        true
    }

    open spec fn from_spec(e: server::Error) -> RunError {
        RunError::Server(e)
    }
}

} // verus!
