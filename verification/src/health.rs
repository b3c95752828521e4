//! Health state behind the liveness and readiness probes.
//!
//! The process is live whenever it runs; it is ready to serve traffic
//! only while both the market feeds and the chain client are healthy.
//! The HTTP endpoints that expose these flags live at the boundary and
//! read the state assembled here.

use vstd::prelude::*;

verus! {

/// Component health flags polled by the readiness probe.
#[derive(Debug, Clone)]
pub struct HealthState {
    /// Whether the market feeds are connected.
    pub feeds_healthy: bool,
    /// Whether the chain client is connected.
    pub chain_healthy: bool,
    /// Whether the engine is running (not paused by the breaker).
    pub engine_running: bool,
}

impl HealthState {
    /// A fresh state reports every component healthy.
    pub fn new() -> (r: HealthState)
        ensures
            r.feeds_healthy,
            r.chain_healthy,
            r.engine_running,
    {
        HealthState { feeds_healthy: true, chain_healthy: true, engine_running: true }
    }

    /// Ready to serve traffic: feeds and chain both healthy.  The
    /// engine flag reports breaker pauses but does not gate readiness.
    pub fn is_ready(&self) -> (r: bool)
        ensures
            r == (self.feeds_healthy && self.chain_healthy),
    {
        self.feeds_healthy && self.chain_healthy
    }

    /// Record the feed connection health.
    pub fn set_feeds_healthy(&mut self, healthy: bool)
        ensures
            *final(self) == (HealthState { feeds_healthy: healthy, ..*old(self) }),
    {
        self.feeds_healthy = healthy;
    }

    /// Record the chain connection health.
    pub fn set_chain_healthy(&mut self, healthy: bool)
        ensures
            *final(self) == (HealthState { chain_healthy: healthy, ..*old(self) }),
    {
        self.chain_healthy = healthy;
    }

    /// Record whether the engine is running.
    pub fn set_engine_running(&mut self, running: bool)
        ensures
            *final(self) == (HealthState { engine_running: running, ..*old(self) }),
    {
        self.engine_running = running;
    }
}

/// The health endpoint's configuration: the state it reports and the
/// port it binds.  The listener itself lives at the boundary.
#[derive(Debug, Clone)]
pub struct HealthServer {
    /// Health state the endpoints report.
    pub state: HealthState,
    /// Port to bind.
    pub port: u16,
}

impl HealthServer {
    /// Create a health server configuration.
    pub fn new(state: HealthState, port: u16) -> (r: HealthServer)
        ensures
            r.state == state,
            r.port == port,
    {
        HealthServer { state, port }
    }
}

} // verus!
