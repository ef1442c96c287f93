use moproxy::addr::{Address, Host};
use moproxy::dispatch::{self, Relay};
use moproxy::monitor::Monitor;
use moproxy::proxy::{ProxyProto, ProxyServer, Traffic};
use moproxy::web::{Route, Status, route};

fn v4(a: u8, b: u8, c: u8, d: u8, port: u16) -> Address {
    Address { host: Host::V4 { octets: [a, b, c, d] }, port }
}

fn server(port: u16) -> ProxyServer {
    ProxyServer::new(
        v4(127, 0, 0, 1, port),
        ProxyProto::Http { allow_connect_payload: false },
        v4(8, 8, 8, 8, 53),
        None,
        None,
    )
}

#[test]
fn update_servers_replaces_exactly_in_order() {
    let mut m = Monitor::new(vec![server(1), server(2)]);
    m.update_servers(vec![server(3), server(4), server(5)]);
    let s = m.servers();
    assert_eq!(s.len(), 3);
    assert_eq!(s[0].addr().port, 3);
    assert_eq!(s[1].addr().port, 4);
    assert_eq!(s[2].addr().port, 5);
}

#[test]
fn update_servers_twice_is_idempotent() {
    let mut m1 = Monitor::new(vec![server(1)]);
    m1.update_servers(vec![server(7), server(8)]);
    let mut m2 = Monitor::new(vec![server(1)]);
    m2.update_servers(vec![server(7), server(8)]);
    m2.update_servers(vec![server(7), server(8)]);
    assert_eq!(m1.servers().len(), m2.servers().len());
    for i in 0..m1.servers().len() {
        assert_eq!(m1.server_at(i).addr().port, m2.server_at(i).addr().port);
        assert_eq!(m1.server_at(i).snapshot_stats(), m2.server_at(i).snapshot_stats());
    }
    assert_eq!(m1.throughputs(), m2.throughputs());
}

#[test]
fn hot_reload_leaves_running_relay_alone() {
    let mut m = Monitor::new(vec![server(1), server(2)]);
    // a relay holds its own handle on the upstream it won
    let mut handle = m.server_at(0).clone_server();
    handle.inc_alive();
    // the list is replaced by one that omits that upstream
    m.update_servers(vec![server(2)]);
    assert_eq!(m.servers().len(), 1);
    assert_eq!(m.server_at(0).addr().port, 2);
    // the relay still completes and its statistics still update
    let mut relay = Relay::begin();
    let mut global = Traffic { tx_bytes: 0, rx_bytes: 0 };
    dispatch::record_tx(&mut relay, &mut handle, &mut global, 64);
    handle.dec_alive();
    assert_eq!(handle.traffic().tx_bytes, 64);
    assert_eq!(handle.conn_total(), 1);
    // new dispatches never see the removed upstream
    let ranked = moproxy::rank::ranked_indices(m.servers());
    let cands = dispatch::pick_candidates(m.servers(), &ranked, 1);
    assert_eq!(cands, vec![0]);
    assert_eq!(m.server_at(cands[0]).addr().port, 2);
}

#[test]
fn relay_accounting_matches_bytes_copied() {
    let mut upstream = server(1);
    let mut relay = Relay::begin();
    let mut global = Traffic { tx_bytes: 0, rx_bytes: 0 };
    let chunks: Vec<u64> = vec![4, 0, 1500, 12];
    dispatch::account_tx_chunks(&mut relay, &mut upstream, &mut global, &chunks);
    let total: u64 = chunks.iter().sum();
    assert_eq!(relay.tx, total);
    assert_eq!(upstream.traffic().tx_bytes, total);
    assert_eq!(global.tx_bytes, total);
    let back: Vec<u64> = vec![900, 33];
    dispatch::account_rx_chunks(&mut relay, &mut upstream, &mut global, &back);
    assert_eq!(relay.rx, 933);
    assert_eq!(upstream.traffic().rx_bytes, 933);
    assert_eq!(global.rx_bytes, 933);
    assert_eq!(upstream.traffic().tx_bytes, total);
}

#[test]
fn throughput_sampling_rates_the_window() {
    let mut m = Monitor::new(vec![server(1)]);
    // a relay through the monitor's upstream cannot be simulated without
    // sockets; drive the counters through a fresh list instead
    let mut s = server(1);
    let mut relay = Relay::begin();
    let mut global = Traffic { tx_bytes: 0, rx_bytes: 0 };
    dispatch::record_tx(&mut relay, &mut s, &mut global, 2000);
    dispatch::record_rx(&mut relay, &mut s, &mut global, 500);
    m.update_servers(vec![s]);
    // counters moved before the window opened: the baseline starts there
    m.sample_throughputs(1);
    assert_eq!(m.throughputs()[0].tx_bps, 0);
    assert_eq!(m.throughputs()[0].rx_bps, 0);
}

#[test]
fn status_snapshot_pairs_servers_with_throughputs() {
    let mut a = server(1);
    a.update_delay(42);
    let m = Monitor::new(vec![a, server(2)]);
    let st = Status::from(17, &m);
    assert_eq!(st.uptime_secs, 17);
    assert_eq!(st.servers.len(), 2);
    assert_eq!(st.servers[0].server.score(), Some(42));
    assert_eq!(st.servers[0].server.addr().port, 1);
    assert_eq!(st.servers[0].throughput.unwrap().tx_bps, 0);
    assert_eq!(st.throughput.tx_bps, 0);
    assert_eq!(st.throughput.rx_bps, 0);
}

#[test]
fn routes_of_the_status_surface() {
    assert_eq!(route(true, b"/"), Route::Home);
    assert_eq!(route(true, b"/plain"), Route::Plain);
    assert_eq!(route(true, b"/version"), Route::Version);
    assert_eq!(route(true, b"/status"), Route::Status);
    assert_eq!(route(true, b"/nope"), Route::NotFound);
    assert_eq!(route(false, b"/"), Route::NotFound);
}

#[test]
fn traffic_through_the_monitor_yields_throughput() {
    let mut m = Monitor::new(vec![server(1)]);
    m.add_traffic(0, 2000, 500);
    m.sample_throughputs(2);
    assert_eq!(m.throughputs()[0].tx_bps, 1000);
    assert_eq!(m.throughputs()[0].rx_bps, 250);
    assert_eq!(m.server_at(0).traffic(), Traffic { tx_bytes: 2000, rx_bytes: 500 });
    // a second window with no movement rates zero
    m.sample_throughputs(1);
    assert_eq!(m.throughputs()[0].tx_bps, 0);
}
