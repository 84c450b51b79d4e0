//! The metrics dashboard's server handle.  The dashboard is a peripheral
//! tool beside the encryption engine; its HTTP serving is I/O and lives
//! outside this library.  What stands here is the state that a server
//! carries: the port it will bind and the shared metrics collector handed
//! to its request handlers.

use std::sync::Arc;
use vstd::prelude::*;

verus! {

/// Collects operation metrics, keeping at most a fixed number of history
/// samples.
pub struct MetricsCollector {
    max_history: usize,
}

impl MetricsCollector {
    /// How many history samples this collector keeps at most.
    pub closed spec fn spec_max_history(self) -> usize {
        self.max_history
    }

    /// Create a collector bounded to `max_history` samples.
    pub fn new(max_history: usize) -> (r: Self)
        ensures
            r.spec_max_history() == max_history,
    {
        MetricsCollector { max_history }
    }

    /// The bound this collector was created with.
    pub fn max_history(&self) -> (r: usize)
        ensures
            r == self.spec_max_history(),
    {
        self.max_history
    }
}

/// Relies on `std::sync::Arc::clone`: the clone refers to the same value.
#[verifier::external_body]
fn arc_clone<T>(a: &Arc<T>) -> (r: Arc<T>)
    ensures
        r == *a,
{
    Arc::clone(a)
}

/// The dashboard web server's state: its port and its shared collector.
pub struct DashboardServer {
    collector: Arc<MetricsCollector>,
    port: u16,
}

impl DashboardServer {
    /// The port the server will bind.
    pub closed spec fn spec_port(self) -> u16 {
        self.port
    }

    /// The collector the server shares with its request handlers.
    pub closed spec fn spec_collector(self) -> Arc<MetricsCollector> {
        self.collector
    }

    /// Create a new dashboard server for `port`, with a collector that
    /// keeps up to 1000 history samples.
    pub fn new(port: u16) -> (r: Self)
        ensures
            r.spec_port() == port,
            r.spec_collector().spec_max_history() == 1000,
    {
        DashboardServer { collector: Arc::new(MetricsCollector::new(1000)), port }
    }

    /// Get a metrics collector reference.
    pub fn collector(&self) -> (r: Arc<MetricsCollector>)
        ensures
            r == self.spec_collector(),
    {
        arc_clone(&self.collector)
    }
}

} // verus!
