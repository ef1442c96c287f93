use moproxy::addr::{Address, Host};
use moproxy::dispatch;
use moproxy::monitor::Monitor;
use moproxy::proxy::{ProxyProto, ProxyServer};
use moproxy::rank::ranked_indices;

fn v4(a: u8, b: u8, c: u8, d: u8, port: u16) -> Address {
    Address { host: Host::V4 { octets: [a, b, c, d] }, port }
}

fn server(port: u16, base: Option<i32>) -> ProxyServer {
    ProxyServer::new(
        v4(127, 0, 0, 1, port),
        ProxyProto::Http { allow_connect_payload: false },
        v4(8, 8, 8, 8, 53),
        None,
        base,
    )
}

#[test]
fn default_tag_is_port_decimal() {
    let s = server(8081, None);
    assert_eq!(s.tag().as_slice(), b"8081");
    let tagged = ProxyServer::new(
        v4(127, 0, 0, 1, 1080),
        ProxyProto::Socks5 { fake_handshake: false },
        v4(8, 8, 8, 8, 53),
        Some(b"fast".to_vec()),
        None,
    );
    assert_eq!(tagged.tag().as_slice(), b"fast");
}

#[test]
fn ewma_first_sample_then_filtered() {
    let mut s = server(1, None);
    assert_eq!(s.score(), None);
    s.update_delay(100);
    assert_eq!(s.score(), Some(100));
    assert_eq!(s.delay(), Some(100));
    s.update_delay(200);
    // three tenths of the new sample, seven tenths of the old score
    assert_eq!(s.score(), Some((3 * 200 + 7 * 100) / 10));
    s.mark_dead();
    assert_eq!(s.score(), None);
    assert_eq!(s.delay(), None);
}

#[test]
fn conn_counters_alive_never_exceeds_total() {
    let mut s = server(1, None);
    s.inc_alive();
    s.inc_alive();
    assert_eq!(s.conn_alive(), 2);
    assert_eq!(s.conn_total(), 2);
    s.dec_alive();
    assert_eq!(s.conn_alive(), 1);
    assert_eq!(s.conn_total(), 2);
    s.dec_alive();
    assert_eq!(s.conn_alive(), 0);
    assert!(s.conn_alive() <= s.conn_total());
}

#[test]
fn ranking_orders_by_effective_score() {
    let mut a = server(1, None);
    let mut b = server(2, None);
    let mut c = server(3, Some(-50));
    a.update_delay(100);
    b.update_delay(80);
    c.update_delay(110); // effective 60 with the base
    let servers = vec![a, b, c];
    let ranked = ranked_indices(&servers);
    assert_eq!(ranked, vec![2, 1, 0]);
}

#[test]
fn ranking_puts_dead_last_in_registration_order() {
    let mut a = server(1, None);
    let b = server(2, None); // never probed: no score
    let mut c = server(3, None);
    a.update_delay(100);
    c.mark_dead();
    let servers = vec![a, b, c];
    let ranked = ranked_indices(&servers);
    assert_eq!(ranked, vec![0, 1, 2]);
}

#[test]
fn ranking_breaks_ties_by_load_then_position() {
    let mut a = server(1, None);
    let mut b = server(2, None);
    let mut c = server(3, None);
    a.update_delay(100);
    b.update_delay(100);
    c.update_delay(100);
    a.inc_alive();
    let servers = vec![a, b, c];
    let ranked = ranked_indices(&servers);
    assert_eq!(ranked, vec![1, 2, 0]);
}

#[test]
fn candidates_scored_prefix_cut_to_parallelism() {
    let mut a = server(1, None);
    let mut b = server(2, None);
    let c = server(3, None); // no score
    a.update_delay(50);
    b.update_delay(60);
    let servers = vec![a, b, c];
    let ranked = ranked_indices(&servers);
    assert_eq!(ranked, vec![0, 1, 2]);
    let cands = dispatch::pick_candidates(&servers, &ranked, 2);
    assert_eq!(cands, vec![0, 1]);
    let one = dispatch::pick_candidates(&servers, &ranked, 0);
    assert_eq!(one, vec![0]);
}

#[test]
fn candidates_fall_back_to_registration_order_when_all_dead() {
    let a = server(1, None);
    let b = server(2, None);
    let servers = vec![a, b];
    let ranked = ranked_indices(&servers);
    let cands = dispatch::pick_candidates(&servers, &ranked, 1);
    assert_eq!(cands, vec![0]);
    let two = dispatch::pick_candidates(&servers, &ranked, 2);
    assert_eq!(two, vec![0, 1]);
}

#[test]
fn next_batch_walks_the_ranked_list() {
    let ranked = vec![4usize, 2, 0, 1, 3];
    assert_eq!(dispatch::next_batch(&ranked, 2, 2), vec![0, 1]);
    assert_eq!(dispatch::next_batch(&ranked, 4, 2), vec![3]);
    assert_eq!(dispatch::next_batch(&ranked, 5, 2), vec![]);
}

#[test]
fn probe_failure_removes_from_selection_until_revival() {
    let mut a = server(1, None);
    let mut b = server(2, None);
    a.update_delay(10);
    b.update_delay(20);
    let mut m = Monitor::new(vec![a, b]);
    // the fast upstream becomes unreachable
    m.record_probe(0, None);
    assert_eq!(m.server_at(0).score(), None);
    let ranked = ranked_indices(m.servers());
    let cands = dispatch::pick_candidates(m.servers(), &ranked, 1);
    assert_eq!(cands, vec![1]);
    // reachability returns
    m.record_probe(0, Some(10));
    assert_eq!(m.server_at(0).score(), Some(10));
    let ranked = ranked_indices(m.servers());
    let cands = dispatch::pick_candidates(m.servers(), &ranked, 1);
    assert_eq!(cands, vec![0]);
}

#[test]
fn race_counts_only_the_winner() {
    let mut a = server(1, None);
    let mut b = server(2, None);
    a.update_delay(10);
    b.update_delay(20);
    let mut m = Monitor::new(vec![a, b]);
    let ranked = ranked_indices(m.servers());
    let cands = dispatch::pick_candidates(m.servers(), &ranked, 2);
    assert_eq!(cands, vec![0, 1]);
    // the second candidate answered first: only its counters move
    m.conn_open(1);
    assert_eq!(m.server_at(0).conn_total(), 0);
    assert_eq!(m.server_at(0).conn_alive(), 0);
    assert_eq!(m.server_at(1).conn_total(), 1);
    assert_eq!(m.server_at(1).conn_alive(), 1);
}

#[test]
fn sni_peek_decision() {
    assert!(dispatch::needs_sni_peek(true, 443));
    assert!(!dispatch::needs_sni_peek(false, 443));
    assert!(!dispatch::needs_sni_peek(true, 80));
    assert_eq!(dispatch::dispatch_parallelism(true, 443, 4), 4);
    assert_eq!(dispatch::dispatch_parallelism(true, 80, 4), 0);
    assert_eq!(dispatch::dispatch_parallelism(false, 443, 4), 0);
}

#[test]
fn empty_list_yields_no_candidates() {
    let servers: Vec<ProxyServer> = Vec::new();
    let ranked = ranked_indices(&servers);
    assert!(ranked.is_empty());
    let cands = dispatch::pick_candidates(&servers, &ranked, 3);
    assert!(cands.is_empty());
}

#[test]
fn parallelism_larger_than_pool_is_clipped() {
    let mut a = server(1, None);
    let mut b = server(2, None);
    a.update_delay(10);
    b.update_delay(20);
    let servers = vec![a, b];
    let ranked = ranked_indices(&servers);
    let cands = dispatch::pick_candidates(&servers, &ranked, 9);
    assert_eq!(cands, vec![0, 1]);
}

#[test]
fn fallback_on_handshake_failure() {
    let mut a = server(1, None);
    let mut b = server(2, None);
    a.update_delay(10);
    b.update_delay(20);
    let mut m = Monitor::new(vec![a, b]);
    let ranked = ranked_indices(m.servers());
    // with one attempt at a time, only the best-ranked is tried first
    let first = dispatch::pick_candidates(m.servers(), &ranked, 1);
    assert_eq!(first, vec![0]);
    // its handshake comes back as a refusal, so the driver takes the next batch
    let refusal = b"HTTP/1.1 503 Unavailable\r\n\r\n".to_vec();
    assert_eq!(
        moproxy::http::parse_connect_response(&refusal),
        moproxy::http::ConnectReply::Refused
    );
    let next = dispatch::next_batch(&ranked, first.len(), 1);
    assert_eq!(next, vec![1]);
    m.conn_open(1);
    // the refused upstream's totals never moved
    assert_eq!(m.server_at(0).conn_total(), 0);
    assert_eq!(m.server_at(1).conn_total(), 1);
}
