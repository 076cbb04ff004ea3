//! What the commands of a command line client share: asking for confirmation,
//! printing results, reading inline maps and JSON options, naming files, and the
//! decisions between the requests to a node or a faucet.
//!
//! Nothing here reads, writes, waits or connects. A function that decides what to
//! do next returns a state that says so, and takes what came of it as an event.

pub mod confirm;
pub mod error;
pub mod inline_map;
pub mod json;
pub mod ledger;
pub mod output;
pub mod paths;
pub mod text;
pub mod vanity;
