//! Rustodian: project discovery, triage and housekeeping logic.

pub mod bootstrap;
pub mod brief;
pub mod commands;
pub mod custodian;
pub mod detection;
pub mod docs;
pub mod error;
pub mod git;
pub mod janitor;
pub mod log_buffer;
pub mod markdown;
pub mod order;
pub mod paths;
pub mod rag;
pub mod remote;
pub mod report;
pub mod runner;
pub mod scanner;
pub mod storage;
pub mod text;
pub mod time;
pub mod types;
