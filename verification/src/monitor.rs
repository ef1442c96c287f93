//! The monitor owns the current upstream set: it replaces the list
//! atomically, hands out ranked snapshots, folds probe results into the
//! statistics, and turns sampled traffic counters into per-upstream
//! throughput over a window.

use vstd::prelude::*;
use crate::proxy::{ProxyServer, ProxyServerV, Traffic, views_of};
use crate::rank::{ranked_by, is_position_perm, ranked_indices};

verus! {

/// Bytes per second over the latest sampling window, by direction.
#[derive(Clone, Copy, PartialEq, Eq, Structural, Debug)]
pub struct Throughput {
    pub tx_bps: u64,
    pub rx_bps: u64,
}

/// Throughput over a window of `dt_secs` whose cumulative counters moved
/// from `prev` to `cur`.
pub open spec fn throughput_of(prev: Traffic, cur: Traffic, dt_secs: u64) -> Throughput
    recommends
        prev.tx_bytes <= cur.tx_bytes,
        prev.rx_bytes <= cur.rx_bytes,
        dt_secs >= 1,
{
    Throughput {
        tx_bps: ((cur.tx_bytes - prev.tx_bytes) / (dt_secs as int)) as u64,
        rx_bps: ((cur.rx_bytes - prev.rx_bytes) / (dt_secs as int)) as u64,
    }
}

/// The mathematical form of the monitor's observable state.
pub struct MonitorV {
    pub servers: Seq<ProxyServerV>,
    pub baseline: Seq<Traffic>,
    pub throughputs: Seq<Throughput>,
}

/// The state the monitor is in right after its list was replaced by
/// upstreams with the given views: the new list stands as given, every
/// sampling baseline starts at the upstream's current counters, and the
/// computed throughputs start at zero.
pub open spec fn replaced_state(new: Seq<ProxyServerV>) -> MonitorV {
    MonitorV {
        servers: new,
        baseline: new.map_values(|s: ProxyServerV| s.traffic),
        throughputs: new.map_values(|s: ProxyServerV| Throughput { tx_bps: 0, rx_bps: 0 }),
    }
}

/// Replacing the list is idempotent. `update_servers` fixes the observable
/// state as a function of the new list alone, so when two consecutive calls
/// hand it value-identical lists, the second call leaves the state of the
/// first: `m1` is the state after the first call, `m2` after the second, and
/// they are one.
pub proof fn lemma_update_servers_idempotent(m1: MonitorV, m2: MonitorV, new: Seq<ProxyServerV>)
    requires
        m1 == replaced_state(new),
        m2 == replaced_state(new),
    ensures
        m1 == m2,
{
}

/// The live upstream set with its sampling state.
pub struct Monitor {
    servers: Vec<ProxyServer>,
    baseline: Vec<Traffic>,
    throughputs: Vec<Throughput>,
}

impl View for Monitor {
    type V = MonitorV;

    closed spec fn view(&self) -> MonitorV {
        MonitorV {
            servers: views_of(self.servers@),
            baseline: self.baseline@,
            throughputs: self.throughputs@,
        }
    }
}

impl MonitorV {
    /// Every upstream is well formed, the side vectors line up with the
    /// list, and no cumulative counter has fallen below its window baseline.
    pub open spec fn wf(&self) -> bool {
        &&& self.baseline.len() == self.servers.len()
        &&& self.throughputs.len() == self.servers.len()
        &&& forall|i: int| 0 <= i < self.servers.len() ==> (#[trigger] self.servers[i]).wf()
        &&& forall|i: int| 0 <= i < self.servers.len() ==> {
            &&& (#[trigger] self.baseline[i]).tx_bytes <= self.servers[i].traffic.tx_bytes
            &&& self.baseline[i].rx_bytes <= self.servers[i].traffic.rx_bytes
        }
    }
}

impl Monitor {
    /// A monitor over an initial upstream list.
    pub fn new(servers: Vec<ProxyServer>) -> (r: Self)
        requires
            forall|i: int| 0 <= i < servers@.len() ==> (#[trigger] servers@[i])@.wf(),
        ensures
            r@.wf(),
            r@ == replaced_state(views_of(servers@)),
    {
        let mut m = Monitor { servers: Vec::new(), baseline: Vec::new(), throughputs: Vec::new() };
        m.update_servers(servers);
        m
    }

    /// The number of upstreams in the current list.
    pub fn len(&self) -> (r: usize)
        ensures
            r == self@.servers.len(),
    {
        self.servers.len()
    }

    /// The current list, in registration order: right after
    /// `update_servers(new)` this is exactly `new`, in order.
    pub fn servers(&self) -> (r: &Vec<ProxyServer>)
        ensures
            views_of(r@) == self@.servers,
    {
        &self.servers
    }

    /// The upstream at one registration position.
    pub fn server_at(&self, i: usize) -> (r: &ProxyServer)
        requires
            i < self@.servers.len(),
        ensures
            r@ == self@.servers[i as int],
    {
        &self.servers[i]
    }

    /// The latest computed per-upstream throughputs, in registration order.
    pub fn throughputs(&self) -> (r: &Vec<Throughput>)
        ensures
            r@ == self@.throughputs,
    {
        &self.throughputs
    }

    /// Atomic replacement of the upstream list. The observable state after
    /// the call depends on the new list alone, so replacing twice by the
    /// same list changes nothing the second time.
    pub fn update_servers(&mut self, new: Vec<ProxyServer>)
        requires
            forall|i: int| 0 <= i < new@.len() ==> (#[trigger] new@[i])@.wf(),
        ensures
            final(self)@.wf(),
            final(self)@ == replaced_state(views_of(new@)),
    {
        let mut baseline: Vec<Traffic> = Vec::new();
        let mut throughputs: Vec<Throughput> = Vec::new();
        let mut i: usize = 0;
        while i < new.len()
            invariant
                i <= new@.len(),
                baseline@.len() == i as int,
                throughputs@.len() == i as int,
                forall|k: int| 0 <= k < i ==> #[trigger] baseline@[k] == new@[k]@.traffic,
                forall|k: int| 0 <= k < i
                    ==> #[trigger] throughputs@[k] == (Throughput { tx_bps: 0, rx_bps: 0 }),
            decreases new@.len() - i,
        {
            baseline.push(new[i].traffic());
            throughputs.push(Throughput { tx_bps: 0, rx_bps: 0 });
            i = i + 1;
        }
        self.servers = new;
        self.baseline = baseline;
        self.throughputs = throughputs;
        proof {
            assert(self@.servers =~= replaced_state(views_of(self.servers@)).servers);
            assert(self@.baseline =~= replaced_state(views_of(self.servers@)).baseline);
            assert(self@.throughputs =~= replaced_state(views_of(self.servers@)).throughputs);
        }
    }

    /// The registration positions of the current list, ranked: finite
    /// effective scores ascending, unknown scores last, ties by load and
    /// then by position.
    pub fn ranked_positions(&self) -> (r: Vec<usize>)
        ensures
            is_position_perm(self@.servers.len() as int, r@),
            ranked_by(self@.servers, r@),
    {
        let r = ranked_indices(&self.servers);
        proof {
            assert(views_of(self.servers@).len() == self.servers@.len());
        }
        r
    }

    /// A probe outcome for the upstream at position `i`: a measured round
    /// trip feeds the rolling score, a failure marks the upstream dead.
    pub fn record_probe(&mut self, i: usize, rtt_ms: Option<u32>)
        requires
            old(self)@.wf(),
            i < old(self)@.servers.len(),
        ensures
            final(self)@.wf(),
            final(self)@.servers == old(self)@.servers.update(i as int, ProxyServerV {
                score: (match rtt_ms {
                    Some(ms) => Some(crate::proxy::ewma(old(self)@.servers[i as int].score, ms)),
                    None => Option::<u32>::None,
                }),
                delay: rtt_ms,
                ..old(self)@.servers[i as int]
            }),
            final(self)@.baseline == old(self)@.baseline,
            final(self)@.throughputs == old(self)@.throughputs,
    {
        let s = &mut self.servers[i];
        s.record_probe(rtt_ms);
        proof {
            assert(self@.servers =~= old(self)@.servers.update(i as int, self@.servers[i as int]));
        }
    }

    /// A relay won its handshake through the upstream at position `i`.
    pub fn conn_open(&mut self, i: usize)
        requires
            old(self)@.wf(),
            i < old(self)@.servers.len(),
            old(self)@.servers[i as int].conn_total < u32::MAX,
        ensures
            final(self)@.wf(),
            final(self)@.servers == old(self)@.servers.update(i as int, ProxyServerV {
                conn_alive: (old(self)@.servers[i as int].conn_alive + 1) as u32,
                conn_total: (old(self)@.servers[i as int].conn_total + 1) as u32,
                ..old(self)@.servers[i as int]
            }),
            final(self)@.baseline == old(self)@.baseline,
            final(self)@.throughputs == old(self)@.throughputs,
    {
        let s = &mut self.servers[i];
        s.inc_alive();
        proof {
            assert(self@.servers =~= old(self)@.servers.update(i as int, self@.servers[i as int]));
        }
    }

    /// A relay through the upstream at position `i` ended.
    pub fn conn_close(&mut self, i: usize)
        requires
            old(self)@.wf(),
            i < old(self)@.servers.len(),
            old(self)@.servers[i as int].conn_alive > 0,
        ensures
            final(self)@.wf(),
            final(self)@.servers == old(self)@.servers.update(i as int, ProxyServerV {
                conn_alive: (old(self)@.servers[i as int].conn_alive - 1) as u32,
                ..old(self)@.servers[i as int]
            }),
            final(self)@.baseline == old(self)@.baseline,
            final(self)@.throughputs == old(self)@.throughputs,
    {
        let s = &mut self.servers[i];
        s.dec_alive();
        proof {
            assert(self@.servers =~= old(self)@.servers.update(i as int, self@.servers[i as int]));
        }
    }

    /// A relay moved bytes through the upstream at position `i`: its
    /// cumulative counters grow and nothing else moves.
    pub fn add_traffic(&mut self, i: usize, tx: u64, rx: u64)
        requires
            old(self)@.wf(),
            i < old(self)@.servers.len(),
            old(self)@.servers[i as int].traffic.tx_bytes + tx <= u64::MAX,
            old(self)@.servers[i as int].traffic.rx_bytes + rx <= u64::MAX,
        ensures
            final(self)@.wf(),
            final(self)@.servers == old(self)@.servers.update(i as int, ProxyServerV {
                traffic: Traffic {
                    tx_bytes: (old(self)@.servers[i as int].traffic.tx_bytes + tx) as u64,
                    rx_bytes: (old(self)@.servers[i as int].traffic.rx_bytes + rx) as u64,
                },
                ..old(self)@.servers[i as int]
            }),
            final(self)@.baseline == old(self)@.baseline,
            final(self)@.throughputs == old(self)@.throughputs,
    {
        let s = &mut self.servers[i];
        s.add_tx(tx);
        s.add_rx(rx);
        proof {
            assert(self@.servers =~= old(self)@.servers.update(i as int, self@.servers[i as int]));
        }
    }

    /// Close one sampling window of `dt_secs` seconds: every upstream's
    /// throughput becomes the rate of its counters over the window, and the
    /// window baseline moves up to the current counters.
    pub fn sample_throughputs(&mut self, dt_secs: u64)
        requires
            old(self)@.wf(),
            dt_secs >= 1,
        ensures
            final(self)@.wf(),
            final(self)@.servers == old(self)@.servers,
            final(self)@.throughputs.len() == old(self)@.servers.len(),
            forall|i: int| 0 <= i < old(self)@.servers.len()
                ==> #[trigger] final(self)@.throughputs[i] == throughput_of(
                    old(self)@.baseline[i],
                    old(self)@.servers[i].traffic,
                    dt_secs,
                ),
            forall|i: int| 0 <= i < old(self)@.servers.len()
                ==> #[trigger] final(self)@.baseline[i] == old(self)@.servers[i].traffic,
    {
        let n = self.servers.len();
        let mut baseline: Vec<Traffic> = Vec::new();
        let mut throughputs: Vec<Throughput> = Vec::new();
        let mut i: usize = 0;
        while i < n
            invariant
                self@ == old(self)@,
                self@.wf(),
                dt_secs >= 1,
                n == self@.servers.len(),
                i <= n,
                baseline@.len() == i as int,
                throughputs@.len() == i as int,
                forall|k: int| 0 <= k < i
                    ==> #[trigger] baseline@[k] == self@.servers[k].traffic,
                forall|k: int| 0 <= k < i
                    ==> #[trigger] throughputs@[k] == throughput_of(
                        self@.baseline[k],
                        self@.servers[k].traffic,
                        dt_secs,
                    ),
            decreases n - i,
        {
            let cur = self.servers[i].traffic();
            let prev = self.baseline[i];
            let tp = Throughput {
                tx_bps: (cur.tx_bytes - prev.tx_bytes) / dt_secs,
                rx_bps: (cur.rx_bytes - prev.rx_bytes) / dt_secs,
            };
            baseline.push(cur);
            throughputs.push(tp);
            i = i + 1;
        }
        self.baseline = baseline;
        self.throughputs = throughputs;
    }
}

} // verus!
