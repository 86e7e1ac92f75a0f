//! A fault-tolerant atomic register over fixed-size disk sectors.
//!
//! A fixed set of processes, each with a disk of its own, offers clients one
//! atomic register per sector, and goes on doing so while a minority of the
//! processes is down. This library holds what the processes decide and the
//! bytes they exchange; reading sockets and writing files is left to the
//! program around it.
//!
//! - `command`, `codec`, `decoder`, `mac`, `bytes`: the messages and their
//!   authenticated wire format.
//! - `storage`, `journal`: what a replica keeps of each sector, and how it is
//!   written down.
//! - `quorum`, `register`, `replica`, `backlog`: the two-phase protocol, from
//!   one coordinator's bookkeeping to a whole process and the requests that
//!   wait for it.
//! - `atomicity`: what the order of writes and the size of quorums give.
//! - `config`: the text of a process's configuration file.
//! - `handlers`, `report`, `timer`, `fibonacci`: small state machines and
//!   helpers for programs that exercise a message-passing runtime.

pub mod atomicity;
pub mod backlog;
pub mod bytes;
pub mod codec;
pub mod command;
pub mod config;
pub mod decoder;
pub mod fibonacci;
pub mod handlers;
pub mod journal;
pub mod mac;
pub mod quorum;
pub mod register;
pub mod replica;
pub mod report;
pub mod storage;
pub mod timer;
