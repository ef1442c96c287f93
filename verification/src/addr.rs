//! Network endpoints as plain data: a host (IPv4 octets, IPv6 groups, or a
//! domain name) together with a port, and the textual forms that the
//! handshake codecs need.

use vstd::prelude::*;

verus! {

/// Decimal digits of `n`, most significant first, as ASCII bytes.
pub open spec fn dec_digits(n: nat) -> Seq<u8>
    decreases n,
{
    if n < 10 {
        seq![(48 + n) as u8]
    } else {
        dec_digits(n / 10).push((48 + n % 10) as u8)
    }
}

/// Appends the decimal form of `n` to `v`.
pub fn push_decimal(v: &mut Vec<u8>, n: u16)
    ensures
        final(v)@ == old(v)@ + dec_digits(n as nat),
    decreases n,
{
    if n >= 10 {
        push_decimal(v, n / 10);
    }
    v.push((48 + n % 10) as u8);
    assert(v@ =~= old(v)@ + dec_digits(n as nat));
}

/// Appends a copy of `s` to `v`.
pub fn push_bytes(v: &mut Vec<u8>, s: &[u8])
    ensures
        final(v)@ == old(v)@ + s@,
{
    let mut i: usize = 0;
    while i < s.len()
        invariant
            i <= s@.len(),
            v@ == old(v)@ + s@.subrange(0, i as int),
        decreases s@.len() - i,
    {
        v.push(s[i]);
        i = i + 1;
    }
    assert(v@ =~= old(v)@ + s@);
}

/// The ASCII form of one hexadecimal digit, lower case.
pub open spec fn hex_digit(d: nat) -> u8 {
    if d < 10 {
        (48 + d) as u8
    } else {
        (87 + d) as u8
    }
}

/// Hexadecimal digits of `n`, most significant first, lower case, without
/// leading zeros.
pub open spec fn hex_digits(n: nat) -> Seq<u8>
    decreases n,
{
    if n < 16 {
        seq![hex_digit(n)]
    } else {
        hex_digits(n / 16).push(hex_digit(n % 16))
    }
}

/// Appends the hexadecimal form of `n` to `v`.
pub fn push_hex(v: &mut Vec<u8>, n: u16)
    ensures
        final(v)@ == old(v)@ + hex_digits(n as nat),
    decreases n,
{
    if n >= 16 {
        push_hex(v, n / 16);
    }
    let d: u8 = (n % 16) as u8;
    v.push(if d < 10 { (48 + d) as u8 } else { (87 + d) as u8 });
    assert(v@ =~= old(v)@ + hex_digits(n as nat));
}

/// How many zero groups stand at position `i` and onward, contiguously.
pub open spec fn zero_run_len(segs: Seq<u16>, i: int) -> int
    decreases segs.len() - i
        when 0 <= i <= segs.len()
{
    if i >= segs.len() || segs[i] != 0 {
        0
    } else {
        1 + zero_run_len(segs, i + 1)
    }
}

/// The first longest run of zero groups starting at `i` or later, as
/// (start, length).
pub open spec fn best_zero_run_from(segs: Seq<u16>, i: int) -> (int, int)
    decreases segs.len() - i
        when 0 <= i <= segs.len()
{
    if i >= segs.len() {
        (i, 0)
    } else {
        let l = zero_run_len(segs, i);
        let rest = best_zero_run_from(segs, i + 1);
        if l >= rest.1 {
            (i, l)
        } else {
            rest
        }
    }
}

/// The first longest run of zero groups, as (start, length).
pub open spec fn best_zero_run(segs: Seq<u16>) -> (int, int) {
    best_zero_run_from(segs, 0)
}

/// The hexadecimal groups of `segs` joined by colons.
pub open spec fn groups_text(segs: Seq<u16>) -> Seq<u8>
    decreases segs.len(),
{
    if segs.len() == 0 {
        Seq::empty()
    } else if segs.len() == 1 {
        hex_digits(segs[0] as nat)
    } else {
        hex_digits(segs[0] as nat) + seq![58u8] + groups_text(segs.drop_first())
    }
}

/// The textual form of an IPv6 address from its eight groups: hexadecimal
/// groups joined by colons, with the first longest run of at least two zero
/// groups elided to a double colon.
pub open spec fn ipv6_text(segs: Seq<u16>) -> Seq<u8> {
    let br = best_zero_run(segs);
    if br.1 >= 2 {
        groups_text(segs.subrange(0, br.0)) + seq![58u8, 58u8]
            + groups_text(segs.subrange(br.0 + br.1, segs.len() as int))
    } else {
        groups_text(segs)
    }
}

fn zero_run_len_exec(segs: &[u16; 8], i: usize) -> (r: usize)
    requires
        i <= 8,
    ensures
        r as int == zero_run_len(segs@, i as int),
        i + r <= 8,
    decreases 8 - i,
{
    if i >= 8 {
        0
    } else if segs[i] != 0 {
        0
    } else {
        1 + zero_run_len_exec(segs, i + 1)
    }
}

fn best_zero_run_exec(segs: &[u16; 8], i: usize) -> (r: (usize, usize))
    requires
        i <= 8,
    ensures
        r.0 as int == best_zero_run_from(segs@, i as int).0,
        r.1 as int == best_zero_run_from(segs@, i as int).1,
        r.0 <= 8,
        r.0 + r.1 <= 8,
        i <= r.0,
    decreases 8 - i,
{
    if i >= 8 {
        (i, 0)
    } else {
        let l = zero_run_len_exec(segs, i);
        let rest = best_zero_run_exec(segs, i + 1);
        if l >= rest.1 {
            (i, l)
        } else {
            rest
        }
    }
}

fn push_groups(v: &mut Vec<u8>, segs: &[u16; 8], from: usize, to: usize)
    requires
        from <= to <= 8,
    ensures
        final(v)@ == old(v)@ + groups_text(segs@.subrange(from as int, to as int)),
    decreases to - from,
{
    if from < to {
        push_hex(v, segs[from]);
        if from + 1 < to {
            v.push(58);
            push_groups(v, segs, from + 1, to);
            proof {
                assert(segs@.subrange(from as int + 1, to as int)
                    =~= segs@.subrange(from as int, to as int).drop_first());
            }
        }
    }
    assert(v@ =~= old(v)@ + groups_text(segs@.subrange(from as int, to as int)));
}

/// Appends the textual form of an IPv6 address to `v`.
pub fn push_ipv6(v: &mut Vec<u8>, segs: &[u16; 8])
    ensures
        final(v)@ == old(v)@ + ipv6_text(segs@),
{
    let (bs, bl) = best_zero_run_exec(segs, 0);
    if bl >= 2 {
        push_groups(v, segs, 0, bs);
        v.push(58);
        v.push(58);
        push_groups(v, segs, bs + bl, 8);
    } else {
        push_groups(v, segs, 0, 8);
        assert(segs@.subrange(0, 8) =~= segs@);
    }
    assert(v@ =~= old(v)@ + ipv6_text(segs@));
}

/// A destination or endpoint host.
pub enum Host {
    /// An IPv4 address as its four octets.
    V4 { octets: [u8; 4] },
    /// An IPv6 address as its eight 16-bit groups.
    V6 { segs: [u16; 8] },
    /// A domain name, as the bytes of its ASCII form.
    Name { name: Vec<u8> },
}

/// The mathematical form of a host.
pub enum HostV {
    V4 { octets: Seq<u8> },
    V6 { segs: Seq<u16> },
    Name { name: Seq<u8> },
}

impl View for Host {
    type V = HostV;

    open spec fn view(&self) -> HostV {
        match self {
            Host::V4 { octets } => HostV::V4 { octets: octets@ },
            Host::V6 { segs } => HostV::V6 { segs: segs@ },
            Host::Name { name } => HostV::Name { name: name@ },
        }
    }
}

impl Host {
    pub fn clone_host(&self) -> (r: Host)
        ensures
            r@ == self@,
    {
        match self {
            Host::V4 { octets } => Host::V4 { octets: *octets },
            Host::V6 { segs } => Host::V6 { segs: *segs },
            Host::Name { name } => {
                let mut copy: Vec<u8> = Vec::new();
                let mut i: usize = 0;
                while i < name.len()
                    invariant
                        i <= name@.len(),
                        copy@ == name@.subrange(0, i as int),
                    decreases name@.len() - i,
                {
                    copy.push(name[i]);
                    i = i + 1;
                }
                assert(copy@ =~= name@);
                Host::Name { name: copy }
            }
        }
    }
}

/// A host and port: where a client wants to go, or where an upstream or a
/// probe target listens.
pub struct Address {
    pub host: Host,
    pub port: u16,
}

/// The mathematical form of an address.
pub struct AddressV {
    pub host: HostV,
    pub port: u16,
}

impl View for Address {
    type V = AddressV;

    open spec fn view(&self) -> AddressV {
        AddressV { host: self.host@, port: self.port }
    }
}

impl Address {
    pub fn clone_addr(&self) -> (r: Address)
        ensures
            r@ == self@,
    {
        Address { host: self.host.clone_host(), port: self.port }
    }
}

/// The dotted-quad text of an IPv4 address from its four octets.
pub open spec fn v4_text(o: Seq<u8>) -> Seq<u8>
    recommends
        o.len() == 4,
{
    dec_digits(o[0] as nat) + seq![46u8] + dec_digits(o[1] as nat) + seq![46u8]
        + dec_digits(o[2] as nat) + seq![46u8] + dec_digits(o[3] as nat)
}

/// The host part of a textual endpoint: dotted quad, bracketed IPv6, or the
/// name itself.
pub open spec fn host_token(h: HostV) -> Seq<u8> {
    match h {
        HostV::V4 { octets } => v4_text(octets),
        HostV::V6 { segs } => seq![91u8] + ipv6_text(segs) + seq![93u8],
        HostV::Name { name } => name,
    }
}

/// The textual `host:port` form of an address.
pub open spec fn endpoint_token(a: AddressV) -> Seq<u8> {
    host_token(a.host) + seq![58u8] + dec_digits(a.port as nat)
}

/// Appends the textual host to `v`.
pub fn push_host_token(v: &mut Vec<u8>, h: &Host)
    ensures
        final(v)@ == old(v)@ + host_token(h@),
{
    match h {
        Host::V4 { octets } => {
            push_decimal(v, octets[0] as u16);
            v.push(46);
            push_decimal(v, octets[1] as u16);
            v.push(46);
            push_decimal(v, octets[2] as u16);
            v.push(46);
            push_decimal(v, octets[3] as u16);
            assert(v@ =~= old(v)@ + host_token(h@));
        }
        Host::V6 { segs } => {
            v.push(91);
            push_ipv6(v, segs);
            v.push(93);
            assert(v@ =~= old(v)@ + host_token(h@));
        }
        Host::Name { name } => {
            push_bytes(v, name.as_slice());
        }
    }
}

/// Appends the textual `host:port` form of `a` to `v`.
pub fn push_endpoint_token(v: &mut Vec<u8>, a: &Address)
    ensures
        final(v)@ == old(v)@ + endpoint_token(a@),
{
    push_host_token(v, &a.host);
    v.push(58);
    push_decimal(v, a.port);
    assert(v@ =~= old(v)@ + endpoint_token(a@));
}

} // verus!
