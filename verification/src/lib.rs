//! Verified core of a monitor that follows the content of one file across
//! deletion, replacement and renaming of the file or of any directory above it.
//!
//! The crate holds the decisions; a driver performs the reads, the watch
//! registrations and the waits that those decisions ask for.

pub mod paths;
pub mod protocol;
pub mod watch_set;
pub mod matcher;
pub mod waiter;
pub mod encoding;
pub mod poller;
pub mod lifecycle;
pub mod cycles;
