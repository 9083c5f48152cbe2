//! Probe configuration, as handed in by the caller.

use vstd::prelude::*;

verus! {

/// Settings for one probing campaign. The record is read-only to the probe
/// logic; values arrive already populated.
#[derive(Clone)]
pub struct Config {
    /// Fully-qualified probe target. The URL's authority carries the
    /// effective port.
    pub url: String,
    /// Advisory only for the HTTP probe; retained for parity with other
    /// probe kinds.
    pub tcp_port: u16,
    /// Number of timed HEAD requests per candidate.
    pub ping_times: u32,
    /// Status acceptance rule: `0` accepts only status `0` (nothing real),
    /// a value in `100..=599` accepts exactly that status, and any other
    /// value accepts `200`, `301` and `302`.
    pub httping_status_code: u16,
    /// Comma-separated allow-list of three-letter edge-location codes;
    /// empty means "accept any location".
    pub httping_cf_colo: String,
}

} // verus!
