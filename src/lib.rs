//! Scanning a program's accounts for newly created liquidity pools.
//!
//! The library holds the scanner's logic: the account filters of a scan,
//! validation of the startup configuration, the text of the console report,
//! and the poll cycle as a state machine. The network call, the timer and the
//! console stay with the caller.

pub mod filter;
pub mod address;
pub mod config;
pub mod report;
pub mod poller;
