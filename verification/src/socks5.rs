//! The SOCKS5 client handshake (RFC 1928, no-auth only): exact framing of
//! the greeting and the connect request, and parsing of the server's
//! replies.

use vstd::prelude::*;
use crate::addr::{Address, AddressV, Host, HostV, push_bytes};

verus! {

/// A 16-bit value in network byte order.
pub open spec fn be16(n: u16) -> Seq<u8> {
    seq![(n / 256) as u8, (n % 256) as u8]
}

/// The greeting: version 5, one method offered, no authentication.
pub open spec fn greeting() -> Seq<u8> {
    seq![5u8, 1u8, 0u8]
}

/// IPv6 groups in network byte order.
pub open spec fn be_segs(segs: Seq<u16>) -> Seq<u8>
    decreases segs.len(),
{
    if segs.len() == 0 {
        Seq::empty()
    } else {
        be16(segs[0]) + be_segs(segs.drop_first())
    }
}

/// The address part of a request: ATYP 1 with four octets, ATYP 3 with a
/// length-prefixed name, or ATYP 4 with sixteen address bytes.
pub open spec fn request_addr(h: HostV) -> Seq<u8> {
    match h {
        HostV::V4 { octets } => seq![1u8] + octets,
        HostV::Name { name } => seq![3u8, name.len() as u8] + name,
        HostV::V6 { segs } => seq![4u8] + be_segs(segs),
    }
}

/// The connect request for a destination: version 5, command connect,
/// reserved zero, then the address and the port in network order.
pub open spec fn connect_request(dest: AddressV) -> Seq<u8> {
    seq![5u8, 1u8, 0u8] + request_addr(dest.host) + be16(dest.port)
}

/// Builds the greeting.
pub fn build_greeting() -> (r: Vec<u8>)
    ensures
        r@ == greeting(),
{
    let mut v: Vec<u8> = Vec::new();
    v.push(5);
    v.push(1);
    v.push(0);
    assert(v@ =~= greeting());
    v
}

/// Builds the connect request for `dest`, byte for byte as
/// `connect_request` states.
pub fn build_request(dest: &Address) -> (r: Vec<u8>)
    requires
        dest.host is Name ==> dest.host->name@.len() <= 255,
    ensures
        r@ == connect_request(dest@),
{
    let mut v: Vec<u8> = Vec::new();
    v.push(5);
    v.push(1);
    v.push(0);
    match &dest.host {
        Host::V4 { octets } => {
            v.push(1);
            push_bytes(&mut v, octets.as_slice());
        }
        Host::Name { name } => {
            v.push(3);
            v.push(name.len() as u8);
            push_bytes(&mut v, name.as_slice());
        }
        Host::V6 { segs } => {
            v.push(4);
            let mut i: usize = 0;
            while i < 8
                invariant
                    i <= 8,
                    segs@.len() == 8,
                    v@ == seq![5u8, 1u8, 0u8, 4u8] + be_segs(segs@.subrange(0, i as int)),
                decreases 8 - i,
            {
                let s = segs[i];
                v.push((s / 256) as u8);
                v.push((s % 256) as u8);
                proof {
                    let sub = segs@.subrange(0, i as int + 1);
                    assert(sub.drop_first() =~= segs@.subrange(1, i as int + 1));
                    lemma_be_segs_snoc(segs@, i as int);
                }
                i = i + 1;
            }
            assert(segs@.subrange(0, 8) =~= segs@);
        }
    }
    v.push((dest.port / 256) as u8);
    v.push((dest.port % 256) as u8);
    assert(v@ =~= connect_request(dest@));
    v
}

/// Appending one more group to a prefix extends its network-order bytes by
/// that group's two bytes.
proof fn lemma_be_segs_snoc(segs: Seq<u16>, i: int)
    requires
        0 <= i < segs.len(),
    ensures
        be_segs(segs.subrange(0, i + 1))
            == be_segs(segs.subrange(0, i)) + be16(segs[i]),
    decreases i,
{
    let a = segs.subrange(0, i + 1);
    let b = segs.subrange(0, i);
    if i == 0 {
        assert(a =~= seq![segs[0]]);
        assert(b =~= Seq::<u16>::empty());
        assert(be_segs(a) == be16(a[0]) + be_segs(a.drop_first()));
        assert(a.drop_first().len() == 0);
        assert(be_segs(a.drop_first()) == Seq::<u8>::empty());
        assert(be_segs(a) =~= be16(segs[0]));
        assert(be_segs(b) + be16(segs[0]) =~= be16(segs[0]));
    } else {
        lemma_be_segs_snoc(segs.drop_first(), i - 1);
        assert(a.drop_first() =~= segs.drop_first().subrange(0, i));
        assert(b.drop_first() =~= segs.drop_first().subrange(0, i - 1));
        assert(segs.drop_first()[i - 1] == segs[i]);
        assert(be_segs(a) == be16(a[0]) + be_segs(a.drop_first()));
        assert(be_segs(b) == be16(b[0]) + be_segs(b.drop_first()));
        assert(be_segs(a) =~= be_segs(b) + be16(segs[i]));
    }
}

/// The request coalesced with the first inbound payload: what a
/// fake-handshake upstream is sent in a single write, so that the request
/// and the first client bytes cannot desynchronize.
pub fn coalesced_request(dest: &Address, payload: &Vec<u8>) -> (r: Vec<u8>)
    requires
        dest.host is Name ==> dest.host->name@.len() <= 255,
    ensures
        r@ == connect_request(dest@) + payload@,
{
    let mut v = build_request(dest);
    push_bytes(&mut v, payload.as_slice());
    v
}

/// What the server's method-selection reply amounts to.
#[derive(Clone, Copy, PartialEq, Eq, Structural, Debug)]
pub enum MethodReply {
    /// Version 5, no authentication selected.
    NoAuth,
    /// Version 5, but some other method: this client cannot continue.
    Other,
    /// Not a version-5 reply at all.
    Malformed,
    /// More bytes must be read.
    Incomplete,
}

/// The meaning of a method-selection buffer.
pub open spec fn method_reply_of(buf: Seq<u8>) -> MethodReply {
    if buf.len() < 2 {
        MethodReply::Incomplete
    } else if buf[0] != 5 {
        MethodReply::Malformed
    } else if buf[1] == 0 {
        MethodReply::NoAuth
    } else {
        MethodReply::Other
    }
}

/// Reads a method-selection reply: exactly `method_reply_of`.
pub fn parse_method_reply(buf: &Vec<u8>) -> (r: MethodReply)
    ensures
        r == method_reply_of(buf@),
{
    if buf.len() < 2 {
        MethodReply::Incomplete
    } else if buf[0] != 5 {
        MethodReply::Malformed
    } else if buf[1] == 0 {
        MethodReply::NoAuth
    } else {
        MethodReply::Other
    }
}

/// What the server's connect reply amounts to.
#[derive(Clone, Copy, PartialEq, Eq, Structural, Debug)]
pub enum ConnectReply {
    /// Version 5, reply code zero, a whole bound address: the tunnel stands.
    /// The reply takes `consumed` bytes; anything after them already belongs
    /// to the tunnel.
    Granted { consumed: usize },
    /// Version 5 with a nonzero reply code: handshake failure.
    Refused,
    /// Not a version-5 reply, or an unknown address type.
    Malformed,
    /// More bytes must be read.
    Incomplete,
}

/// The meaning of a connect-reply buffer: undecided until the version,
/// reply code, address type and whole bound address are in; refused as soon
/// as a nonzero reply code shows.
pub open spec fn connect_reply_of(buf: Seq<u8>) -> ConnectReply {
    if buf.len() < 4 {
        ConnectReply::Incomplete
    } else if buf[0] != 5 {
        ConnectReply::Malformed
    } else if buf[1] != 0 {
        ConnectReply::Refused
    } else if buf[3] == 1 || buf[3] == 4 {
        let need = if buf[3] == 1 { 10int } else { 22int };
        if buf.len() < need {
            ConnectReply::Incomplete
        } else {
            ConnectReply::Granted { consumed: need as usize }
        }
    } else if buf[3] == 3 {
        if buf.len() < 5 {
            ConnectReply::Incomplete
        } else if buf.len() < 7 + buf[4] {
            ConnectReply::Incomplete
        } else {
            ConnectReply::Granted { consumed: (7 + buf[4]) as usize }
        }
    } else {
        ConnectReply::Malformed
    }
}

/// Reads a connect reply as far as it goes: exactly `connect_reply_of`.
pub fn parse_connect_reply(buf: &Vec<u8>) -> (r: ConnectReply)
    ensures
        r == connect_reply_of(buf@),
{
    if buf.len() < 4 {
        ConnectReply::Incomplete
    } else if buf[0] != 5 {
        ConnectReply::Malformed
    } else if buf[1] != 0 {
        ConnectReply::Refused
    } else if buf[3] == 1 || buf[3] == 4 {
        let need: usize = if buf[3] == 1 { 10 } else { 22 };
        if buf.len() < need {
            ConnectReply::Incomplete
        } else {
            ConnectReply::Granted { consumed: need }
        }
    } else if buf[3] == 3 {
        if buf.len() < 5 {
            ConnectReply::Incomplete
        } else {
            let need: usize = 7 + (buf[4] as usize);
            if buf.len() < need {
                ConnectReply::Incomplete
            } else {
                ConnectReply::Granted { consumed: need }
            }
        }
    } else {
        ConnectReply::Malformed
    }
}

} // verus!
