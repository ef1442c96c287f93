//! Non-destructive TLS ClientHello inspection: find the server-name
//! extension in a peeked buffer, so that remote-DNS mode can hand the
//! hostname to the upstream instead of the original IP.

use vstd::prelude::*;
use crate::addr::{Address, Host, HostV};

verus! {

/// The 16-bit big-endian value at position `i`.
pub open spec fn be16_at(b: Seq<u8>, i: int) -> int
    recommends
        0 <= i,
        i + 2 <= b.len(),
{
    b[i] * 256 + b[i + 1]
}

/// The hostname of the first host-name entry of a server-name extension
/// body lying in `[i, end)`.
pub open spec fn sni_data(b: Seq<u8>, i: int, end: int) -> Option<Seq<u8>>
    recommends
        0 <= i <= end <= b.len(),
{
    if i + 2 > end {
        None
    } else {
        let ll = be16_at(b, i);
        if i + 2 + ll > end {
            None
        } else {
            let j = i + 2;
            let e2 = i + 2 + ll;
            if j + 3 > e2 {
                None
            } else if b[j] != 0 {
                None
            } else {
                let nl = be16_at(b, j + 1);
                if j + 3 + nl > e2 {
                    None
                } else {
                    Some(b.subrange(j + 3, j + 3 + nl))
                }
            }
        }
    }
}

/// The hostname of the first server-name extension among the extensions
/// lying in `[i, end)`.
pub open spec fn find_sni_ext(b: Seq<u8>, i: int, end: int) -> Option<Seq<u8>>
    decreases end - i
        when 0 <= i && end <= b.len()
{
    if i + 4 > end {
        None
    } else {
        let t = be16_at(b, i);
        let l = be16_at(b, i + 2);
        if i + 4 + l > end {
            None
        } else if t == 0 {
            sni_data(b, i + 4, i + 4 + l)
        } else {
            find_sni_ext(b, i + 4 + l, end)
        }
    }
}

/// The server name a peeked ClientHello carries, if the buffer reaches far
/// enough to hold one: a handshake record with a client hello, the fixed
/// fields, session id, cipher suites and compression methods skipped, then
/// the first server-name extension.
pub open spec fn sni_of(b: Seq<u8>) -> Option<Seq<u8>> {
    if b.len() < 44 {
        None
    } else if b[0] != 22 || b[5] != 1 {
        None
    } else {
        let cs_off = 44 + b[43];
        if cs_off + 2 > b.len() {
            None
        } else {
            let cm_off = cs_off + 2 + be16_at(b, cs_off);
            if cm_off + 1 > b.len() {
                None
            } else {
                let ext_off = cm_off + 1 + b[cm_off];
                if ext_off + 2 > b.len() {
                    None
                } else {
                    let ext_end = ext_off + 2 + be16_at(b, ext_off);
                    if ext_end > b.len() {
                        None
                    } else {
                        find_sni_ext(b, ext_off + 2, ext_end)
                    }
                }
            }
        }
    }
}

/// Copies `b[from..to)` out.
fn copy_range(b: &Vec<u8>, from: usize, to: usize) -> (r: Vec<u8>)
    requires
        from <= to <= b@.len(),
    ensures
        r@ == b@.subrange(from as int, to as int),
{
    let mut v: Vec<u8> = Vec::new();
    let mut i: usize = from;
    while i < to
        invariant
            from <= i <= to <= b@.len(),
            v@ == b@.subrange(from as int, i as int),
        decreases to - i,
    {
        v.push(b[i]);
        i = i + 1;
        assert(v@ =~= b@.subrange(from as int, i as int));
    }
    v
}

/// The 16-bit big-endian value at `i`.
fn read_be16(b: &Vec<u8>, i: usize) -> (r: usize)
    requires
        i + 2 <= b@.len(),
        b@.len() <= 2048,
    ensures
        r as int == be16_at(b@, i as int),
        r < 65536,
{
    (b[i] as usize) * 256 + (b[i + 1] as usize)
}

/// Extracts the server name from a peeked ClientHello, exactly as `sni_of`
/// states; the peek buffer is small by construction (at most 2 KiB).
pub fn extract_sni(b: &Vec<u8>) -> (r: Option<Vec<u8>>)
    requires
        b@.len() <= 2048,
    ensures
        match r {
            Some(name) => sni_of(b@) == Some(name@),
            None => sni_of(b@) is None,
        },
{
    if b.len() < 44 {
        return None;
    }
    if b[0] != 22 || b[5] != 1 {
        return None;
    }
    let cs_off: usize = 44 + (b[43] as usize);
    if cs_off + 2 > b.len() {
        return None;
    }
    let cm_off: usize = cs_off + 2 + read_be16(b, cs_off);
    if cm_off + 1 > b.len() {
        return None;
    }
    let ext_off: usize = cm_off + 1 + (b[cm_off] as usize);
    if ext_off + 2 > b.len() {
        return None;
    }
    let ext_end: usize = ext_off + 2 + read_be16(b, ext_off);
    if ext_end > b.len() {
        return None;
    }
    // walk the extensions
    let mut i: usize = ext_off + 2;
    loop
        invariant
            i <= ext_end <= b@.len(),
            b@.len() <= 2048,
            sni_of(b@) == find_sni_ext(b@, i as int, ext_end as int),
        decreases ext_end - i,
    {
        if i + 4 > ext_end {
            return None;
        }
        let t = read_be16(b, i);
        let l = read_be16(b, i + 2);
        if i + 4 + l > ext_end {
            return None;
        }
        if t == 0 {
            // server-name extension body
            let s = i + 4;
            let e2_all = i + 4 + l;
            if s + 2 > e2_all {
                return None;
            }
            let ll = read_be16(b, s);
            if s + 2 + ll > e2_all {
                return None;
            }
            let j = s + 2;
            let e2 = s + 2 + ll;
            if j + 3 > e2 {
                return None;
            }
            if b[j] != 0 {
                return None;
            }
            let nl = read_be16(b, j + 1);
            if j + 3 + nl > e2 {
                return None;
            }
            return Some(copy_range(b, j + 3, j + 3 + nl));
        }
        i = i + 4 + l;
    }
}

/// The destination after an SNI peek: a found name replaces the host, the
/// port stays; without one the destination stands unchanged.
pub fn rewrite_dest(dest: Address, sni: Option<Vec<u8>>) -> (r: Address)
    ensures
        r@.port == dest@.port,
        r@.host == (match sni {
            Some(name) => HostV::Name { name: name@ },
            None => dest@.host,
        }),
{
    match sni {
        Some(name) => Address { host: Host::Name { name }, port: dest.port },
        None => dest,
    }
}

} // verus!
