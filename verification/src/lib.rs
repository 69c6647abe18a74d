//! Token Monitor: a local API proxy that takes Chat Completions, Responses
//! and Anthropic Messages requests, sends each to the upstream format of the
//! channel the scheduler picks, converts replies and streams back, and keeps
//! per-minute request and token statistics.
//!
//! This library holds the proxy's logic with its contracts: request and
//! response conversion, stream conversion event by event, the channel
//! scheduler and its limits, the concurrency gate, retry and refusal rules,
//! the statistics buckets, the settings stored in the configuration file,
//! the connection probe, the balance query and the Codeg session monitor.
//! Networking, the store and the desktop commands run around it.
use vstd::prelude::*;

pub mod text;
pub mod scheduler;
pub mod clock;
pub mod stats;
pub mod proxy;
pub mod json;
pub mod convert;
pub mod respond;
pub mod sse;
pub mod stream;
pub mod route;
pub mod balance;
pub mod probe;
pub mod codeg;
pub mod settings;

verus! {

} // verus!
