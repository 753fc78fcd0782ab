//! Core of a supervisor for interactive coding-agent child processes.
//!
//! The library keeps the decision logic of the supervisor: pricing and cost
//! accounting, transcript-line parsing, attribution of transcript files to
//! registered agents, incremental folding of per-message usage into cumulative
//! counters, repetitive-output detection, and the persistent session store.
//! Process handling, filesystem watching and other I/O stay with the caller,
//! which hands plain values in and takes plain values back.

pub mod assoc;
pub mod cost;
pub mod db;
pub mod import;
pub mod loop_detector;
pub mod num;
pub mod parser;
pub mod pty;
pub mod text;
pub mod watcher;
