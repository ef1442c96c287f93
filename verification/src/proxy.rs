//! Upstream proxy descriptors: immutable identity (tag, address, protocol,
//! probe target, optional score base) and mutable live statistics (score,
//! delay, connection counters, traffic), with the scoring rule that probes
//! feed.

use vstd::prelude::*;
use crate::addr::{Address, AddressV, dec_digits};

verus! {

/// The protocol spoken to one upstream.
#[derive(Clone, Copy, PartialEq, Eq, Structural, Debug)]
pub enum ProxyProto {
    /// HTTP CONNECT; when `allow_connect_payload` is set, the client's first
    /// bytes may be piggybacked after the CONNECT request instead of waiting
    /// for the 2XX response.
    Http { allow_connect_payload: bool },
    /// SOCKS5; when `fake_handshake` is set, the version/methods round trip
    /// is skipped and the request is coalesced with the first payload.
    Socks5 { fake_handshake: bool },
}

/// Cumulative bytes relayed through one upstream, by direction.
#[derive(Clone, Copy, PartialEq, Eq, Structural, Debug)]
pub struct Traffic {
    pub tx_bytes: u64,
    pub rx_bytes: u64,
}

/// A copy of one upstream's live statistics, taken at one instant.
#[derive(Clone, Copy, PartialEq, Eq, Structural, Debug)]
pub struct Stats {
    pub score: Option<u32>,
    pub delay: Option<u32>,
    pub conn_alive: u32,
    pub conn_total: u32,
    pub traffic: Traffic,
}

/// Exponentially weighted rolling score: the first sample stands as is,
/// afterwards the new sample weighs in at three tenths.
pub open spec fn ewma(prev: Option<u32>, sample_ms: u32) -> u32 {
    match prev {
        None => sample_ms,
        Some(p) => ((3 * sample_ms + 7 * p) / 10) as u32,
    }
}

/// One upstream proxy server: identity fixed at construction, statistics
/// updated by probes and relays.
pub struct ProxyServer {
    tag: Vec<u8>,
    addr: Address,
    proto: ProxyProto,
    test_dns: Address,
    score_base: Option<i32>,
    score: Option<u32>,
    delay: Option<u32>,
    conn_alive: u32,
    conn_total: u32,
    traffic: Traffic,
}

/// The mathematical form of one upstream.
pub struct ProxyServerV {
    pub tag: Seq<u8>,
    pub addr: AddressV,
    pub proto: ProxyProto,
    pub test_dns: AddressV,
    pub score_base: Option<i32>,
    pub score: Option<u32>,
    pub delay: Option<u32>,
    pub conn_alive: u32,
    pub conn_total: u32,
    pub traffic: Traffic,
}

impl View for ProxyServer {
    type V = ProxyServerV;

    closed spec fn view(&self) -> ProxyServerV {
        ProxyServerV {
            tag: self.tag@,
            addr: self.addr@,
            proto: self.proto,
            test_dns: self.test_dns@,
            score_base: self.score_base,
            score: self.score,
            delay: self.delay,
            conn_alive: self.conn_alive,
            conn_total: self.conn_total,
            traffic: self.traffic,
        }
    }
}

impl ProxyServerV {
    /// A connection now open has been counted in the cumulative total.
    pub open spec fn wf(&self) -> bool {
        self.conn_alive <= self.conn_total
    }

    /// The identity fields: what construction fixes and no statistic update
    /// may touch.
    pub open spec fn identity(&self) -> (Seq<u8>, AddressV, ProxyProto, AddressV, Option<i32>) {
        (self.tag, self.addr, self.proto, self.test_dns, self.score_base)
    }
}

impl ProxyServer {
    /// A new upstream: statistics zeroed, score and delay unknown. Without an
    /// explicit tag, the decimal form of the address port stands in.
    pub fn new(
        addr: Address,
        proto: ProxyProto,
        test_dns: Address,
        tag: Option<Vec<u8>>,
        score_base: Option<i32>,
    ) -> (r: Self)
        ensures
            r@.wf(),
            r@.tag == (match tag {
                Some(t) => t@,
                None => dec_digits(addr.port as nat),
            }),
            r@.addr == addr@,
            r@.proto == proto,
            r@.test_dns == test_dns@,
            r@.score_base == score_base,
            r@.score == Option::<u32>::None,
            r@.delay == Option::<u32>::None,
            r@.conn_alive == 0u32,
            r@.conn_total == 0u32,
            r@.traffic == (Traffic { tx_bytes: 0, rx_bytes: 0 }),
    {
        let tag = match tag {
            Some(t) => t,
            None => {
                let mut t = Vec::new();
                crate::addr::push_decimal(&mut t, addr.port);
                t
            }
        };
        ProxyServer {
            tag,
            addr,
            proto,
            test_dns,
            score_base,
            score: None,
            delay: None,
            conn_alive: 0,
            conn_total: 0,
            traffic: Traffic { tx_bytes: 0, rx_bytes: 0 },
        }
    }

    /// A value-identical copy: the handle a snapshot or a relay keeps.
    pub fn clone_server(&self) -> (r: Self)
        ensures
            r@ == self@,
    {
        let mut tag: Vec<u8> = Vec::new();
        let mut i: usize = 0;
        while i < self.tag.len()
            invariant
                i <= self.tag@.len(),
                tag@ == self.tag@.subrange(0, i as int),
            decreases self.tag@.len() - i,
        {
            tag.push(self.tag[i]);
            i = i + 1;
        }
        assert(tag@ =~= self.tag@);
        ProxyServer {
            tag,
            addr: self.addr.clone_addr(),
            proto: self.proto,
            test_dns: self.test_dns.clone_addr(),
            score_base: self.score_base,
            score: self.score,
            delay: self.delay,
            conn_alive: self.conn_alive,
            conn_total: self.conn_total,
            traffic: self.traffic,
        }
    }

    pub fn tag(&self) -> (r: &Vec<u8>)
        ensures
            r@ == self@.tag,
    {
        &self.tag
    }

    pub fn addr(&self) -> (r: &Address)
        ensures
            r@ == self@.addr,
    {
        &self.addr
    }

    pub fn proto(&self) -> (r: ProxyProto)
        ensures
            r == self@.proto,
    {
        self.proto
    }

    pub fn test_dns(&self) -> (r: &Address)
        ensures
            r@ == self@.test_dns,
    {
        &self.test_dns
    }

    pub fn score_base(&self) -> (r: Option<i32>)
        ensures
            r == self@.score_base,
    {
        self.score_base
    }

    pub fn score(&self) -> (r: Option<u32>)
        ensures
            r == self@.score,
    {
        self.score
    }

    pub fn delay(&self) -> (r: Option<u32>)
        ensures
            r == self@.delay,
    {
        self.delay
    }

    pub fn conn_alive(&self) -> (r: u32)
        ensures
            r == self@.conn_alive,
    {
        self.conn_alive
    }

    pub fn conn_total(&self) -> (r: u32)
        ensures
            r == self@.conn_total,
    {
        self.conn_total
    }

    pub fn traffic(&self) -> (r: Traffic)
        ensures
            r == self@.traffic,
    {
        self.traffic
    }

    /// All live statistics at once; readers of the status page take this.
    pub fn snapshot_stats(&self) -> (r: Stats)
        ensures
            r == (Stats {
                score: self@.score,
                delay: self@.delay,
                conn_alive: self@.conn_alive,
                conn_total: self@.conn_total,
                traffic: self@.traffic,
            }),
    {
        Stats {
            score: self.score,
            delay: self.delay,
            conn_alive: self.conn_alive,
            conn_total: self.conn_total,
            traffic: self.traffic,
        }
    }

    /// A successful probe measured `rtt_ms`: the delay is recorded and the
    /// rolling score absorbs the sample.
    pub fn update_delay(&mut self, rtt_ms: u32)
        requires
            old(self)@.wf(),
        ensures
            final(self)@.wf(),
            final(self)@ == (ProxyServerV {
                score: Some(ewma(old(self)@.score, rtt_ms)),
                delay: Some(rtt_ms),
                ..old(self)@
            }),
    {
        let new_score: u32 = match self.score {
            None => rtt_ms,
            Some(p) => {
                let mixed: u64 = (3 * (rtt_ms as u64) + 7 * (p as u64)) / 10;
                assert(mixed <= u32::MAX) by {
                    assert(3 * (rtt_ms as u64) + 7 * (p as u64) <= 10 * (u32::MAX as u64));
                };
                mixed as u32
            }
        };
        self.delay = Some(rtt_ms);
        self.score = Some(new_score);
    }

    /// A failed probe: score and delay become unknown, and ranking puts the
    /// upstream last until a probe succeeds again.
    pub fn mark_dead(&mut self)
        requires
            old(self)@.wf(),
        ensures
            final(self)@.wf(),
            final(self)@ == (ProxyServerV {
                score: Option::<u32>::None,
                delay: Option::<u32>::None,
                ..old(self)@
            }),
    {
        self.score = None;
        self.delay = None;
    }

    /// A probe outcome, successful or not, folded into the statistics.
    pub fn record_probe(&mut self, rtt_ms: Option<u32>)
        requires
            old(self)@.wf(),
        ensures
            final(self)@.wf(),
            final(self)@ == (ProxyServerV {
                score: (match rtt_ms {
                    Some(ms) => Some(ewma(old(self)@.score, ms)),
                    None => Option::<u32>::None,
                }),
                delay: rtt_ms,
                ..old(self)@
            }),
    {
        match rtt_ms {
            Some(ms) => self.update_delay(ms),
            None => self.mark_dead(),
        }
    }

    /// A relay through this upstream has won its handshake: one more open
    /// connection, one more cumulative success.
    pub fn inc_alive(&mut self)
        requires
            old(self)@.wf(),
            old(self)@.conn_total < u32::MAX,
        ensures
            final(self)@.wf(),
            final(self)@ == (ProxyServerV {
                conn_alive: (old(self)@.conn_alive + 1) as u32,
                conn_total: (old(self)@.conn_total + 1) as u32,
                ..old(self)@
            }),
    {
        self.conn_alive = self.conn_alive + 1;
        self.conn_total = self.conn_total + 1;
    }

    /// A relay ended, by close or by error: one fewer open connection.
    pub fn dec_alive(&mut self)
        requires
            old(self)@.wf(),
            old(self)@.conn_alive > 0,
        ensures
            final(self)@.wf(),
            final(self)@ == (ProxyServerV {
                conn_alive: (old(self)@.conn_alive - 1) as u32,
                ..old(self)@
            }),
    {
        self.conn_alive = self.conn_alive - 1;
    }

    /// `n` bytes went inbound-to-upstream through this server.
    pub fn add_tx(&mut self, n: u64)
        requires
            old(self)@.wf(),
            old(self)@.traffic.tx_bytes + n <= u64::MAX,
        ensures
            final(self)@.wf(),
            final(self)@ == (ProxyServerV {
                traffic: Traffic {
                    tx_bytes: (old(self)@.traffic.tx_bytes + n) as u64,
                    rx_bytes: old(self)@.traffic.rx_bytes,
                },
                ..old(self)@
            }),
    {
        self.traffic.tx_bytes = self.traffic.tx_bytes + n;
    }

    /// `n` bytes went upstream-to-inbound through this server.
    pub fn add_rx(&mut self, n: u64)
        requires
            old(self)@.wf(),
            old(self)@.traffic.rx_bytes + n <= u64::MAX,
        ensures
            final(self)@.wf(),
            final(self)@ == (ProxyServerV {
                traffic: Traffic {
                    tx_bytes: old(self)@.traffic.tx_bytes,
                    rx_bytes: (old(self)@.traffic.rx_bytes + n) as u64,
                },
                ..old(self)@
            }),
    {
        self.traffic.rx_bytes = self.traffic.rx_bytes + n;
    }
}

/// Live connections through a well-formed upstream never outnumber its
/// cumulative successes, and neither counter is ever negative.
pub proof fn lemma_conn_counters_bounded(s: ProxyServerV)
    requires
        s.wf(),
    ensures
        0 <= s.conn_alive <= s.conn_total,
{
}

/// The views of a list of upstreams, in order.
pub open spec fn views_of(s: Seq<ProxyServer>) -> Seq<ProxyServerV> {
    s.map_values(|x: ProxyServer| x@)
}

} // verus!
