//! An embedded WebSocket server core for trading-platform clients:
//! connection pool, session state machine, JSON protocol handler,
//! heartbeat reaper, performance monitor, and the control surface a host
//! UI drives.
//!
//! All server logic is a deterministic state machine over plain values:
//! the host process supplies the current time, performs the socket and
//! timer I/O, and carries out the actions the core hands back.

pub mod client;
pub mod clock;
pub mod json;
pub mod laws;
pub mod manager;
pub mod metrics;
pub mod parse;
pub mod pool;
pub mod protocol;
pub mod quality;
