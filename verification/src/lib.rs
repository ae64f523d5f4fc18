//! Building blocks of a statically wired actor system: bounded mailboxes and
//! the handles that feed them, the wiring protocol between actor builders, a
//! deadline service, the bookkeeping of long-running operations and the
//! runtime that starts and stops the actors.

pub mod config_manager;
pub mod link;
pub mod mailbox;
pub mod operations;
pub mod options;
pub mod runtime;
pub mod setup;
pub mod timer;
