//! The HTTP CONNECT handshake: exact framing of the request and parsing of
//! the upstream's response, with any bytes past the header terminator kept
//! for the relay.

use vstd::prelude::*;
use crate::addr::{Address, AddressV, dec_digits, endpoint_token, push_endpoint_token, push_bytes};

verus! {

/// "CONNECT " as bytes.
pub open spec fn connect_word() -> Seq<u8> {
    seq![67u8, 79u8, 78u8, 78u8, 69u8, 67u8, 84u8, 32u8]
}

/// " HTTP/1.1\r\nHost: " as bytes.
pub open spec fn host_header_glue() -> Seq<u8> {
    seq![32u8, 72u8, 84u8, 84u8, 80u8, 47u8, 49u8, 46u8, 49u8, 13u8, 10u8, 72u8, 111u8, 115u8,
        116u8, 58u8, 32u8]
}

/// "\r\nConnection: close\r\n\r\n" as bytes.
pub open spec fn connection_close_tail() -> Seq<u8> {
    seq![13u8, 10u8, 67u8, 111u8, 110u8, 110u8, 101u8, 99u8, 116u8, 105u8, 111u8, 110u8, 58u8,
        32u8, 99u8, 108u8, 111u8, 115u8, 101u8, 13u8, 10u8, 13u8, 10u8]
}

/// "HTTP/1.1 2" as bytes: the prefix a successful response status line bears.
pub open spec fn success_prefix() -> Seq<u8> {
    seq![72u8, 84u8, 84u8, 80u8, 47u8, 49u8, 46u8, 49u8, 32u8, 50u8]
}

/// The full CONNECT request for a destination:
/// `CONNECT host:port HTTP/1.1\r\nHost: host:port\r\nConnection: close\r\n\r\n`.
pub open spec fn connect_request(dest: AddressV) -> Seq<u8> {
    connect_word() + endpoint_token(dest) + host_header_glue() + endpoint_token(dest)
        + connection_close_tail()
}

/// Builds the CONNECT request for `dest`, byte for byte as
/// `connect_request` states.
pub fn build_request(dest: &Address) -> (r: Vec<u8>)
    ensures
        r@ == connect_request(dest@),
{
    let mut v: Vec<u8> = Vec::new();
    let word: [u8; 8] = [67, 79, 78, 78, 69, 67, 84, 32];
    let glue: [u8; 17] = [32, 72, 84, 84, 80, 47, 49, 46, 49, 13, 10, 72, 111, 115, 116, 58, 32];
    let tail: [u8; 23] = [13, 10, 67, 111, 110, 110, 101, 99, 116, 105, 111, 110, 58, 32, 99, 108,
        111, 115, 101, 13, 10, 13, 10];
    push_bytes(&mut v, word.as_slice());
    push_endpoint_token(&mut v, dest);
    push_bytes(&mut v, glue.as_slice());
    push_endpoint_token(&mut v, dest);
    push_bytes(&mut v, tail.as_slice());
    assert(word@ =~= connect_word());
    assert(glue@ =~= host_header_glue());
    assert(tail@ =~= connection_close_tail());
    assert(v@ =~= connect_request(dest@));
    v
}

/// The CONNECT request with the client's first bytes piggybacked after it:
/// what an upstream that allows connect payload is sent in a single write,
/// before its response has arrived.
pub fn request_with_payload(dest: &Address, payload: &Vec<u8>) -> (r: Vec<u8>)
    ensures
        r@ == connect_request(dest@) + payload@,
{
    let mut v = build_request(dest);
    push_bytes(&mut v, payload.as_slice());
    v
}

/// The position just past the first newline at or after `from`, if any.
pub open spec fn line_end(buf: Seq<u8>, from: int) -> Option<int>
    decreases buf.len() - from
        when 0 <= from <= buf.len()
{
    if from >= buf.len() {
        None
    } else if buf[from] == 10 {
        Some(from + 1)
    } else {
        line_end(buf, from + 1)
    }
}

/// A found line end lies past its start and within the buffer.
pub proof fn lemma_line_end_bounds(buf: Seq<u8>, from: int)
    requires
        0 <= from <= buf.len(),
    ensures
        match line_end(buf, from) {
            Some(e) => from < e <= buf.len(),
            None => true,
        },
    decreases buf.len() - from,
{
    if from < buf.len() && buf[from] != 10 {
        lemma_line_end_bounds(buf, from + 1);
    }
}

/// The line starting at `from` and ending just before `end` is blank:
/// a bare newline or a carriage return and newline.
pub open spec fn blank_line(buf: Seq<u8>, from: int, end: int) -> bool {
    end - from == 1 || (end - from == 2 && buf[from] == 13)
}

/// The position just past the header terminator, scanning whole lines from
/// `from` until a blank line, if the buffer holds one.
pub open spec fn headers_end(buf: Seq<u8>, from: int) -> Option<int>
    decreases buf.len() - from
        when 0 <= from <= buf.len()
        via headers_end_decreases
{
    match line_end(buf, from) {
        None => None,
        Some(e) => if blank_line(buf, from, e) {
            Some(e)
        } else {
            headers_end(buf, e)
        },
    }
}

#[via_fn]
proof fn headers_end_decreases(buf: Seq<u8>, from: int) {
    lemma_line_end_bounds(buf, from);
}

/// What a received CONNECT response amounts to so far.
#[derive(Clone, Copy, PartialEq, Eq, Structural, Debug)]
pub enum ConnectReply {
    /// The status line was a 2XX and a blank line ended the headers; the
    /// bytes from `leftover_start` on were read past the terminator and
    /// belong to the tunnel: the relay must forward them first.
    Success { leftover_start: usize },
    /// A complete status line that is not `HTTP/1.1 2XX`: handshake failure.
    Refused,
    /// No decision yet: more bytes must be read.
    Incomplete,
}

/// The meaning of a response buffer: undecided until a full status line is
/// in, refused unless the status line opens with `HTTP/1.1 2`, then
/// undecided until a blank line closes the headers.
pub open spec fn connect_reply_of(buf: Seq<u8>) -> ConnectReply {
    match line_end(buf, 0) {
        None => ConnectReply::Incomplete,
        Some(e) => {
            if buf.len() >= 10 && buf.subrange(0, 10) == success_prefix() {
                match headers_end(buf, e) {
                    None => ConnectReply::Incomplete,
                    Some(h) => ConnectReply::Success { leftover_start: h as usize },
                }
            } else {
                ConnectReply::Refused
            }
        }
    }
}

/// The first newline at or after `from`, as the position just past it.
fn find_line_end(buf: &Vec<u8>, from: usize) -> (r: Option<usize>)
    requires
        from <= buf@.len(),
    ensures
        match r {
            Some(e) => Some(e as int) == line_end(buf@, from as int) && from < e <= buf@.len(),
            None => line_end(buf@, from as int) is None,
        },
{
    let mut i: usize = from;
    while i < buf.len()
        invariant
            from <= i <= buf@.len(),
            line_end(buf@, from as int) == line_end(buf@, i as int),
        decreases buf@.len() - i,
    {
        if buf[i] == 10 {
            return Some(i + 1);
        }
        i = i + 1;
    }
    None
}

/// Reads a response buffer as far as it goes: exactly `connect_reply_of`.
pub fn parse_connect_response(buf: &Vec<u8>) -> (r: ConnectReply)
    ensures
        r == connect_reply_of(buf@),
{
    let first = match find_line_end(buf, 0) {
        None => {
            return ConnectReply::Incomplete;
        }
        Some(e) => e,
    };
    // status line prefix check: HTTP/1.1 2
    let prefix: [u8; 10] = [72, 84, 84, 80, 47, 49, 46, 49, 32, 50];
    assert(prefix@ =~= success_prefix());
    if buf.len() < 10 {
        assert(connect_reply_of(buf@) == ConnectReply::Refused);
        return ConnectReply::Refused;
    }
    let mut k: usize = 0;
    while k < 10
        invariant
            k <= 10,
            buf@.len() >= 10,
            prefix@ =~= success_prefix(),
            line_end(buf@, 0) == Some(first as int),
            first <= buf@.len(),
            forall|j: int| 0 <= j < k ==> buf@[j] == success_prefix()[j],
        decreases 10 - k,
    {
        if buf[k] != prefix[k] {
            proof {
                assert(buf@.subrange(0, 10)[k as int] != success_prefix()[k as int]);
                assert(buf@.subrange(0, 10) != success_prefix());
            }
            return ConnectReply::Refused;
        }
        k = k + 1;
    }
    assert(buf@.subrange(0, 10) =~= success_prefix());
    // scan header lines for the blank one
    let mut cur: usize = first;
    loop
        invariant
            cur <= buf@.len(),
            first <= buf@.len(),
            line_end(buf@, 0) == Some(first as int),
            buf@.len() >= 10 && buf@.subrange(0, 10) == success_prefix(),
            headers_end(buf@, first as int) == headers_end(buf@, cur as int),
        decreases buf@.len() - cur,
    {
        match find_line_end(buf, cur) {
            None => {
                return ConnectReply::Incomplete;
            }
            Some(e) => {
                if e - cur == 1 || (e - cur == 2 && buf[cur] == 13) {
                    return ConnectReply::Success { leftover_start: e };
                }
                cur = e;
            }
        }
    }
}

/// One upstream reached over HTTP CONNECT, tagged by default with the
/// decimal form of its port.
pub struct HttpProxyServer {
    tag: Vec<u8>,
    addr: Address,
}

impl HttpProxyServer {
    pub closed spec fn spec_tag(&self) -> Seq<u8> {
        self.tag@
    }

    pub closed spec fn spec_addr(&self) -> AddressV {
        self.addr@
    }

    pub fn new(addr: Address) -> (r: HttpProxyServer)
        ensures
            r.spec_tag() == dec_digits(addr.port as nat),
            r.spec_addr() == addr@,
    {
        let mut tag: Vec<u8> = Vec::new();
        crate::addr::push_decimal(&mut tag, addr.port);
        HttpProxyServer { tag, addr }
    }

    pub fn tag(&self) -> (r: &Vec<u8>)
        ensures
            r@ == self.spec_tag(),
    {
        &self.tag
    }

    pub fn addr(&self) -> (r: &Address)
        ensures
            r@ == self.spec_addr(),
    {
        &self.addr
    }

    /// The CONNECT request this upstream is sent for a destination.
    pub fn connect_request_for(&self, dest: &Address) -> (r: Vec<u8>)
        ensures
            r@ == connect_request(dest@),
    {
        build_request(dest)
    }
}

} // verus!
