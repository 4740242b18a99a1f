//! Supervision of a helper process that announces its network port on stdout.
//!
//! The library holds the decisions of the supervisor: how a line of output is
//! classified against the `SERVER_PORT=<port>` handshake, what the port registry
//! holds and answers, how the event reader reacts to each event of the child, and
//! how the process slot hands the child over to the shutdown sequence exactly once.
//! Spawning, locking, waiting and printing belong to the host application.
pub mod handshake;
pub mod reader;
pub mod registry;
pub mod supervisor;

pub use handshake::{classify_stdout, parse_port, LineKind};
pub use registry::{query_port, PortRegistry, PortState, QueryError};
pub use supervisor::{ProcessSlot, SupervisorError, SHUTDOWN_GRACE_MILLIS};
pub use reader::{decode_line, EventReader, Notice, SupervisorEvent};
