use moproxy::addr::{Address, Host};
use moproxy::http;
use moproxy::socks5;

fn v4(a: u8, b: u8, c: u8, d: u8, port: u16) -> Address {
    Address { host: Host::V4 { octets: [a, b, c, d] }, port }
}

#[test]
fn connect_request_v4_exact() {
    let r = http::build_request(&v4(1, 2, 3, 4, 443));
    let expected =
        b"CONNECT 1.2.3.4:443 HTTP/1.1\r\nHost: 1.2.3.4:443\r\nConnection: close\r\n\r\n";
    assert_eq!(r.as_slice(), expected.as_slice());
}

#[test]
fn connect_request_v6_exact() {
    let addr = Address {
        host: Host::V6 { segs: [0x2001, 0x0db8, 0, 0, 0, 0, 0, 1] },
        port: 443,
    };
    let r = http::build_request(&addr);
    let expected = b"CONNECT [2001:db8::1]:443 HTTP/1.1\r\nHost: [2001:db8::1]:443\r\nConnection: close\r\n\r\n";
    assert_eq!(r.as_slice(), expected.as_slice());
}

#[test]
fn connect_request_name_host() {
    let addr = Address { host: Host::Name { name: b"example.com".to_vec() }, port: 8080 };
    let r = http::build_request(&addr);
    let expected =
        b"CONNECT example.com:8080 HTTP/1.1\r\nHost: example.com:8080\r\nConnection: close\r\n\r\n";
    assert_eq!(r.as_slice(), expected.as_slice());
}

#[test]
fn ipv6_all_zero_and_loopback() {
    let unspec = Address { host: Host::V6 { segs: [0; 8] }, port: 80 };
    let r = http::build_request(&unspec);
    assert!(r.starts_with(b"CONNECT [::]:80 "));
    let lo = Address { host: Host::V6 { segs: [0, 0, 0, 0, 0, 0, 0, 1] }, port: 80 };
    let r = http::build_request(&lo);
    assert!(r.starts_with(b"CONNECT [::1]:80 "));
    let full = Address {
        host: Host::V6 { segs: [1, 2, 3, 4, 5, 6, 7, 8] },
        port: 80,
    };
    let r = http::build_request(&full);
    assert!(r.starts_with(b"CONNECT [1:2:3:4:5:6:7:8]:80 "));
}

#[test]
fn connect_response_success_keeps_leftover() {
    let buf = b"HTTP/1.1 200 OK\r\nServer: x\r\n\r\nPING".to_vec();
    match http::parse_connect_response(&buf) {
        http::ConnectReply::Success { leftover_start } => {
            assert_eq!(&buf[leftover_start..], b"PING");
        }
        _ => panic!("expected success"),
    }
}

#[test]
fn connect_response_refused_and_incomplete() {
    let refused = b"HTTP/1.1 503 Unavailable\r\n\r\n".to_vec();
    assert_eq!(http::parse_connect_response(&refused), http::ConnectReply::Refused);
    let partial = b"HTTP/1.1 200 OK\r\nServer:".to_vec();
    assert_eq!(http::parse_connect_response(&partial), http::ConnectReply::Incomplete);
    let nothing = b"HTTP/1.1".to_vec();
    assert_eq!(http::parse_connect_response(&nothing), http::ConnectReply::Incomplete);
}

#[test]
fn connect_response_bare_newline_terminator() {
    let buf = b"HTTP/1.1 200 OK\nX: y\n\nrest".to_vec();
    match http::parse_connect_response(&buf) {
        http::ConnectReply::Success { leftover_start } => {
            assert_eq!(&buf[leftover_start..], b"rest");
        }
        _ => panic!("expected success"),
    }
}

#[test]
fn socks5_request_v4_exact() {
    let r = socks5::build_request(&v4(10, 0, 0, 1, 80));
    assert_eq!(r.as_slice(), &[0x05, 0x01, 0x00, 0x01, 0x0a, 0x00, 0x00, 0x01, 0x00, 0x50]);
}

#[test]
fn socks5_request_domain_exact() {
    let addr = Address { host: Host::Name { name: b"example.com".to_vec() }, port: 443 };
    let r = socks5::build_request(&addr);
    let mut expected = vec![0x05, 0x01, 0x00, 0x03, 11];
    expected.extend_from_slice(b"example.com");
    expected.extend_from_slice(&[0x01, 0xbb]);
    assert_eq!(r, expected);
}

#[test]
fn socks5_request_v6_exact() {
    let addr = Address {
        host: Host::V6 { segs: [0x2001, 0x0db8, 0, 0, 0, 0, 0, 1] },
        port: 53,
    };
    let r = socks5::build_request(&addr);
    let mut expected = vec![0x05, 0x01, 0x00, 0x04];
    expected.extend_from_slice(&[0x20, 0x01, 0x0d, 0xb8, 0, 0, 0, 0, 0, 0, 0, 0, 0, 0, 0, 1]);
    expected.extend_from_slice(&[0x00, 53]);
    assert_eq!(r, expected);
}

#[test]
fn socks5_greeting_and_method_reply() {
    assert_eq!(socks5::build_greeting(), vec![5, 1, 0]);
    assert_eq!(socks5::parse_method_reply(&vec![5, 0]), socks5::MethodReply::NoAuth);
    assert_eq!(socks5::parse_method_reply(&vec![5, 2]), socks5::MethodReply::Other);
    assert_eq!(socks5::parse_method_reply(&vec![4, 0]), socks5::MethodReply::Malformed);
    assert_eq!(socks5::parse_method_reply(&vec![5]), socks5::MethodReply::Incomplete);
}

#[test]
fn socks5_reply_parsing() {
    let granted = vec![5, 0, 0, 1, 127, 0, 0, 1, 0x1f, 0x90, 9, 9];
    match socks5::parse_connect_reply(&granted) {
        socks5::ConnectReply::Granted { consumed } => assert_eq!(consumed, 10),
        _ => panic!("expected granted"),
    }
    let refused = vec![5, 5, 0, 1, 0, 0, 0, 0, 0, 0];
    assert_eq!(socks5::parse_connect_reply(&refused), socks5::ConnectReply::Refused);
    let short = vec![5, 0, 0];
    assert_eq!(socks5::parse_connect_reply(&short), socks5::ConnectReply::Incomplete);
    let bad = vec![4, 0, 0, 1, 0, 0, 0, 0, 0, 0];
    assert_eq!(socks5::parse_connect_reply(&bad), socks5::ConnectReply::Malformed);
    let domain = vec![5, 0, 0, 3, 3, 97, 98, 99, 0, 80];
    match socks5::parse_connect_reply(&domain) {
        socks5::ConnectReply::Granted { consumed } => assert_eq!(consumed, 10),
        _ => panic!("expected granted"),
    }
}

#[test]
fn socks5_coalesced_request_appends_payload() {
    let addr = v4(10, 0, 0, 1, 80);
    let payload = b"GET / HTTP/1.0\r\n\r\n".to_vec();
    let r = socks5::coalesced_request(&addr, &payload);
    let mut expected = socks5::build_request(&addr);
    expected.extend_from_slice(&payload);
    assert_eq!(r, expected);
}

#[test]
fn single_upstream_http_flow() {
    // one HTTP upstream; the client payload follows the CONNECT header
    let upstream_addr = v4(127, 0, 0, 1, 8081);
    let dest = v4(93, 184, 216, 34, 80);
    let server = moproxy::proxy::ProxyServer::new(
        upstream_addr,
        moproxy::proxy::ProxyProto::Http { allow_connect_payload: false },
        v4(8, 8, 8, 8, 53),
        None,
        None,
    );
    let mut m = moproxy::monitor::Monitor::new(vec![server]);
    let request = http::build_request(&dest);
    assert!(request.starts_with(b"CONNECT 93.184.216.34:80 "));
    let reply = b"HTTP/1.1 200 OK\r\n\r\n".to_vec();
    let leftover_start = match http::parse_connect_response(&reply) {
        http::ConnectReply::Success { leftover_start } => leftover_start,
        _ => panic!("expected success"),
    };
    assert_eq!(leftover_start, reply.len());
    // what the upstream then sees is exactly the client's first bytes
    let stream = moproxy::dispatch::prepend_peeked(&b"PING".to_vec(), &Vec::new());
    assert_eq!(stream, b"PING");
    m.conn_open(0);
    assert_eq!(m.server_at(0).conn_total(), 1);
    assert_eq!(m.server_at(0).conn_alive(), 1);
}

#[test]
fn hex_groups_format_lower_case() {
    let addr = Address {
        host: Host::V6 { segs: [0xabcd, 0xef01, 0, 0, 0, 0, 0x23, 0] },
        port: 1,
    };
    let r = http::build_request(&addr);
    assert!(r.starts_with(b"CONNECT [abcd:ef01::23:0]:1 "));
}

#[test]
fn zero_port_tag() {
    let s = http::HttpProxyServer::new(v4(127, 0, 0, 1, 0));
    assert_eq!(s.tag().as_slice(), b"0");
    assert_eq!(s.addr().port, 0);
    let req = s.connect_request_for(&v4(1, 2, 3, 4, 65535));
    assert!(req.starts_with(b"CONNECT 1.2.3.4:65535 "));
}

#[test]
fn connect_payload_piggybacks_after_request() {
    let dest = v4(1, 2, 3, 4, 80);
    let payload = b"PING".to_vec();
    let r = http::request_with_payload(&dest, &payload);
    let mut expected = http::build_request(&dest);
    expected.extend_from_slice(b"PING");
    assert_eq!(r, expected);
}
