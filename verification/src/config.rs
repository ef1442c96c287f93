//! The decisions behind the configuration surface: protocol names, server
//! address normalization, and assembly of one upstream from its parsed
//! fields. Reading files and argument strings happens outside; this module
//! fixes what each parsed value means.

use vstd::prelude::*;
use crate::addr::Address;
use crate::proxy::{ProxyProto, ProxyServer};

verus! {

/// "socks5" as bytes.
pub open spec fn socks5_word() -> Seq<u8> {
    seq![115u8, 111u8, 99u8, 107u8, 115u8, 53u8]
}

/// "socksv5" as bytes.
pub open spec fn socksv5_word() -> Seq<u8> {
    seq![115u8, 111u8, 99u8, 107u8, 115u8, 118u8, 53u8]
}

/// "http" as bytes.
pub open spec fn http_word() -> Seq<u8> {
    seq![104u8, 116u8, 116u8, 112u8]
}

/// The protocol a lower-cased configuration name stands for, with its mode
/// flag folded in: `socks5` and `socksv5` take the fake-handshake flag,
/// `http` takes the connect-payload flag, anything else is refused.
pub open spec fn proto_of(name: Seq<u8>, fake_handshake: bool, allow_connect_payload: bool)
    -> Option<ProxyProto> {
    if name == socks5_word() || name == socksv5_word() {
        Some(ProxyProto::Socks5 { fake_handshake })
    } else if name == http_word() {
        Some(ProxyProto::Http { allow_connect_payload })
    } else {
        None
    }
}

/// Reads a protocol name, exactly as `proto_of` states.
pub fn parse_protocol(name: &[u8], fake_handshake: bool, allow_connect_payload: bool)
    -> (r: Option<ProxyProto>)
    ensures
        r == proto_of(name@, fake_handshake, allow_connect_payload),
{
    let socks5: [u8; 6] = [115, 111, 99, 107, 115, 53];
    let socksv5: [u8; 7] = [115, 111, 99, 107, 115, 118, 53];
    let http: [u8; 4] = [104, 116, 116, 112];
    proof {
        assert(socks5@ =~= socks5_word());
        assert(socksv5@ =~= socksv5_word());
        assert(http@ =~= http_word());
    }
    if crate::web::bytes_eq(name, socks5.as_slice())
        || crate::web::bytes_eq(name, socksv5.as_slice()) {
        Some(ProxyProto::Socks5 { fake_handshake })
    } else if crate::web::bytes_eq(name, http.as_slice()) {
        Some(ProxyProto::Http { allow_connect_payload })
    } else {
        None
    }
}

/// Whether a byte string holds a colon.
pub open spec fn has_colon(s: Seq<u8>) -> bool {
    exists|i: int| 0 <= i < s.len() && s[i] == 58
}

/// "127.0.0.1:" as bytes.
pub open spec fn loopback_prefix() -> Seq<u8> {
    seq![49u8, 50u8, 55u8, 46u8, 48u8, 46u8, 48u8, 46u8, 49u8, 58u8]
}

/// A server given on the command line may be a bare port: without a colon,
/// the loopback host is prefixed; with one, the text stands as given.
pub open spec fn normalized_server_addr(s: Seq<u8>) -> Seq<u8> {
    if has_colon(s) {
        s
    } else {
        loopback_prefix() + s
    }
}

/// Normalizes one command-line server address, exactly as
/// `normalized_server_addr` states.
pub fn normalize_server_addr(s: &[u8]) -> (r: Vec<u8>)
    ensures
        r@ == normalized_server_addr(s@),
{
    let mut i: usize = 0;
    let mut found: bool = false;
    while i < s.len()
        invariant
            i <= s@.len(),
            found == exists|j: int| 0 <= j < i && s@[j] == 58,
        decreases s@.len() - i,
    {
        if s[i] == 58 {
            found = true;
        }
        i = i + 1;
    }
    let mut r: Vec<u8> = Vec::new();
    if !found {
        assert(!has_colon(s@));
        let prefix: [u8; 10] = [49, 50, 55, 46, 48, 46, 48, 46, 49, 58];
        assert(prefix@ =~= loopback_prefix());
        crate::addr::push_bytes(&mut r, prefix.as_slice());
    }
    crate::addr::push_bytes(&mut r, s);
    assert(r@ =~= normalized_server_addr(s@));
    r
}

/// Why a configured upstream is refused.
#[derive(Clone, Copy, PartialEq, Eq, Structural, Debug)]
pub enum ConfigError {
    /// The protocol name is none of the known ones.
    UnknownProtocol,
}

/// One upstream from its parsed configuration fields: the protocol name
/// decides, a missing probe target falls back to the default, statistics
/// start empty. Refused exactly when the protocol name is unknown.
pub fn server_from_config(
    addr: Address,
    proto_name: &[u8],
    fake_handshake: bool,
    allow_connect_payload: bool,
    test_dns: Option<Address>,
    default_test_dns: &Address,
    tag: Option<Vec<u8>>,
    score_base: Option<i32>,
) -> (r: Result<ProxyServer, ConfigError>)
    ensures
        match r {
            Ok(s) => {
                &&& proto_of(proto_name@, fake_handshake, allow_connect_payload)
                    == Some(s@.proto)
                &&& s@.wf()
                &&& s@.addr == addr@
                &&& s@.test_dns == (match test_dns {
                    Some(t) => t@,
                    None => default_test_dns@,
                })
                &&& s@.tag == (match tag {
                    Some(t) => t@,
                    None => crate::addr::dec_digits(addr.port as nat),
                })
                &&& s@.score_base == score_base
                &&& s@.score == Option::<u32>::None
                &&& s@.delay == Option::<u32>::None
                &&& s@.conn_alive == 0u32
                &&& s@.conn_total == 0u32
            },
            Err(e) => {
                &&& e == ConfigError::UnknownProtocol
                &&& proto_of(proto_name@, fake_handshake, allow_connect_payload) is None
            },
        },
{
    let proto = match parse_protocol(proto_name, fake_handshake, allow_connect_payload) {
        Some(p) => p,
        None => {
            return Err(ConfigError::UnknownProtocol);
        }
    };
    let test_dns = match test_dns {
        Some(t) => t,
        None => default_test_dns.clone_addr(),
    };
    Ok(ProxyServer::new(addr, proto, test_dns, tag, score_base))
}

/// A path whose file is to be removed when the owner is done with it; the
/// removal itself happens at the edge that owns the file system.
pub struct AutoRemoveFile {
    path: Vec<u8>,
}

impl AutoRemoveFile {
    pub closed spec fn spec_path(&self) -> Seq<u8> {
        self.path@
    }

    pub fn new(path: Vec<u8>) -> (r: Self)
        ensures
            r.spec_path() == path@,
    {
        AutoRemoveFile { path }
    }

    pub fn path(&self) -> (r: &Vec<u8>)
        ensures
            r@ == self.spec_path(),
    {
        &self.path
    }
}

} // verus!
