//! The dashboard server handle: construction carries the port and a
//! collector bounded to 1000 history samples.

use pqfile::dashboard::DashboardServer;

#[test]
fn dashboard_server_carries_port_and_collector() {
    let server = DashboardServer::new(8080);
    let collector = server.collector();
    assert_eq!(collector.max_history(), 1000);
    let again = server.collector();
    assert_eq!(again.max_history(), 1000);
}
