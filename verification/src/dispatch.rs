//! The dispatcher's decisions: which upstreams to race for a client, batch
//! after batch down the ranked list, and the per-relay traffic accounting
//! once a handshake has won.

use vstd::prelude::*;
use crate::proxy::{ProxyServer, ProxyServerV, Traffic};
use crate::proxy::views_of;
use crate::addr::push_bytes;

verus! {

/// How many parallel attempts a race runs: at least one.
pub open spec fn want(n_parallel: usize) -> int {
    if n_parallel == 0 {
        1
    } else {
        n_parallel as int
    }
}

/// How many leading entries of the ranked list carry a known score.
pub open spec fn scored_count(servers: Seq<ProxyServerV>, ranked: Seq<usize>) -> int
    decreases ranked.len(),
{
    if ranked.len() == 0 {
        0
    } else if servers[ranked[0] as int].score is Some {
        1 + scored_count(servers, ranked.drop_first())
    } else {
        0
    }
}

/// The leading-scored count is exactly the first position without a score.
proof fn lemma_scored_count_char(servers: Seq<ProxyServerV>, ranked: Seq<usize>, k: int)
    requires
        0 <= k <= ranked.len(),
        forall|j: int| 0 <= j < k ==> servers[#[trigger] ranked[j] as int].score is Some,
        k == ranked.len() || !(servers[ranked[k] as int].score is Some),
    ensures
        scored_count(servers, ranked) == k,
    decreases ranked.len(),
{
    if ranked.len() == 0 {
    } else if k == 0 {
    } else {
        assert(servers[ranked[0] as int].score is Some);
        let df = ranked.drop_first();
        assert forall|j: int| 0 <= j < k - 1
            implies servers[#[trigger] df[j] as int].score is Some by {
            assert(df[j] == ranked[j + 1]);
        }
        if k < ranked.len() {
            assert(df[k - 1] == ranked[k]);
        }
        lemma_scored_count_char(servers, df, k - 1);
    }
}

/// Every position within the leading-scored count carries a known score.
proof fn lemma_scored_prefix(servers: Seq<ProxyServerV>, ranked: Seq<usize>, i: int)
    requires
        0 <= i < scored_count(servers, ranked),
    ensures
        servers[ranked[i] as int].score is Some,
    decreases i,
{
    lemma_scored_count_le_len(servers, ranked);
    if i > 0 {
        let df = ranked.drop_first();
        assert(df[i - 1] == ranked[i]);
        lemma_scored_prefix(servers, df, i - 1);
    }
}

/// The leading-scored count never outruns the list.
proof fn lemma_scored_count_le_len(servers: Seq<ProxyServerV>, ranked: Seq<usize>)
    ensures
        0 <= scored_count(servers, ranked) <= ranked.len(),
    decreases ranked.len(),
{
    if ranked.len() > 0 {
        lemma_scored_count_le_len(servers, ranked.drop_first());
    }
}

/// As long as any upstream in the ranked list leads with a known score, a
/// dispatch races only upstreams with a known score: dead upstreams are
/// reached solely by the registration-order last resort.
pub proof fn lemma_candidates_live(
    servers: Seq<ProxyServerV>,
    ranked: Seq<usize>,
    n_parallel: usize,
)
    requires
        scored_count(servers, ranked) > 0,
    ensures
        forall|i: int| 0 <= i < candidates_spec(servers, ranked, n_parallel).len()
            ==> servers[#[trigger] candidates_spec(servers, ranked, n_parallel)[i] as int]
                .score is Some,
{
    let k = scored_count(servers, ranked);
    lemma_scored_count_le_len(servers, ranked);
    let c = candidates_spec(servers, ranked, n_parallel);
    assert forall|i: int| 0 <= i < c.len()
        implies servers[#[trigger] c[i] as int].score is Some by {
        assert(c[i] == ranked[i]);
        lemma_scored_prefix(servers, ranked, i);
    }
}

/// The candidates a dispatch races: the ranked upstreams with a known score,
/// cut to the wanted parallelism; when no upstream has a score, the first
/// wanted upstreams in registration order stand as a last resort.
pub open spec fn candidates_spec(
    servers: Seq<ProxyServerV>,
    ranked: Seq<usize>,
    n_parallel: usize,
) -> Seq<usize> {
    let w = want(n_parallel);
    let k = scored_count(servers, ranked);
    if k == 0 {
        Seq::new((if w <= servers.len() { w } else { servers.len() as int }) as nat,
            |i: int| i as usize)
    } else {
        ranked.take(if w <= k { w } else { k })
    }
}

/// Picks the candidate positions for the first race, exactly as
/// `candidates_spec` states.
pub fn pick_candidates(
    servers: &Vec<ProxyServer>,
    ranked: &Vec<usize>,
    n_parallel: usize,
) -> (r: Vec<usize>)
    requires
        ranked@.len() == servers@.len(),
        forall|i: int| 0 <= i < ranked@.len() ==> (#[trigger] ranked@[i]) < servers@.len(),
    ensures
        r@ == candidates_spec(views_of(servers@), ranked@, n_parallel),
{
    let w: usize = if n_parallel == 0 { 1 } else { n_parallel };
    let ghost sv = views_of(servers@);
    // count the leading scored entries
    let mut k: usize = 0;
    while k < ranked.len() && servers[ranked[k]].score().is_some()
        invariant
            k <= ranked@.len(),
            ranked@.len() == servers@.len(),
            sv == views_of(servers@),
            forall|i: int| 0 <= i < ranked@.len() ==> (#[trigger] ranked@[i]) < servers@.len(),
            forall|j: int| 0 <= j < k ==> sv[#[trigger] ranked@[j] as int].score is Some,
        decreases ranked@.len() - k,
    {
        k = k + 1;
    }
    proof {
        lemma_scored_count_char(sv, ranked@, k as int);
    }
    let mut r: Vec<usize> = Vec::new();
    if k == 0 {
        let stop: usize = if w <= servers.len() { w } else { servers.len() };
        let mut i: usize = 0;
        while i < stop
            invariant
                i <= stop,
                r@.len() == i as int,
                forall|j: int| 0 <= j < i ==> #[trigger] r@[j] == j,
            decreases stop - i,
        {
            r.push(i);
            i = i + 1;
        }
        proof {
            assert(r@ =~= candidates_spec(sv, ranked@, n_parallel));
        }
    } else {
        let stop: usize = if w <= k { w } else { k };
        let mut i: usize = 0;
        while i < stop
            invariant
                i <= stop <= ranked@.len(),
                r@.len() == i as int,
                forall|j: int| 0 <= j < i ==> #[trigger] r@[j] == ranked@[j],
            decreases stop - i,
        {
            r.push(ranked[i]);
            i = i + 1;
        }
        proof {
            assert(r@ =~= candidates_spec(sv, ranked@, n_parallel));
        }
    }
    r
}

/// After a batch starting at `start` failed wholly, the next batch: the next
/// wanted ranked positions, down to the end of the list.
pub fn next_batch(ranked: &Vec<usize>, start: usize, n_parallel: usize) -> (r: Vec<usize>)
    requires
        start <= ranked@.len(),
    ensures
        r@ == ranked@.subrange(start as int,
            if start + want(n_parallel) <= ranked@.len() {
                start + want(n_parallel)
            } else {
                ranked@.len() as int
            }),
{
    let w: usize = if n_parallel == 0 { 1 } else { n_parallel };
    let stop: usize = if ranked.len() - start >= w { start + w } else { ranked.len() };
    let mut r: Vec<usize> = Vec::new();
    let mut i: usize = start;
    while i < stop
        invariant
            start <= i <= stop <= ranked@.len(),
            r@ == ranked@.subrange(start as int, i as int),
        decreases stop - i,
    {
        r.push(ranked[i]);
        i = i + 1;
        assert(r@ =~= ranked@.subrange(start as int, i as int));
    }
    r
}

/// Whether the intake peeks the TLS hello for a server name: only with
/// remote DNS on and the usual TLS port.
pub fn needs_sni_peek(remote_dns: bool, port: u16) -> (r: bool)
    ensures
        r == (remote_dns && port == 443),
{
    remote_dns && port == 443
}

/// The parallelism one client dispatch runs with: the configured fan-out on
/// the remote-DNS TLS path, a single attempt otherwise.
pub fn dispatch_parallelism(remote_dns: bool, port: u16, n_parallel: usize) -> (r: usize)
    ensures
        r == (if remote_dns && port == 443 { n_parallel } else { 0usize }),
{
    if remote_dns && port == 443 {
        n_parallel
    } else {
        0
    }
}

/// The upstream-bound stream a relay starts with: the peeked (or leftover)
/// bytes stand before everything that follows, so the upstream sees first
/// exactly what the client first sent.
pub fn prepend_peeked(peeked: &Vec<u8>, rest: &Vec<u8>) -> (r: Vec<u8>)
    ensures
        r@ == peeked@ + rest@,
{
    let mut v: Vec<u8> = Vec::new();
    push_bytes(&mut v, peeked.as_slice());
    push_bytes(&mut v, rest.as_slice());
    assert(v@ =~= peeked@ + rest@);
    v
}

/// Per-relay byte counters, one pair per connection.
#[derive(Clone, Copy, PartialEq, Eq, Structural, Debug)]
pub struct Relay {
    pub tx: u64,
    pub rx: u64,
}

impl Relay {
    /// Fresh counters for a relay that has not moved a byte.
    pub fn begin() -> (r: Relay)
        ensures
            r == (Relay { tx: 0, rx: 0 }),
    {
        Relay { tx: 0, rx: 0 }
    }
}

/// The sum of a sequence of chunk sizes.
pub open spec fn sum64(ds: Seq<u64>) -> int
    decreases ds.len(),
{
    if ds.len() == 0 {
        0
    } else {
        ds[0] + sum64(ds.drop_first())
    }
}

/// A sum of chunk sizes is never negative.
pub proof fn lemma_sum64_nonneg(ds: Seq<u64>)
    ensures
        0 <= sum64(ds),
    decreases ds.len(),
{
    if ds.len() > 0 {
        lemma_sum64_nonneg(ds.drop_first());
    }
}

/// A sum splits at any point.
pub proof fn lemma_sum64_split(ds: Seq<u64>, i: int)
    requires
        0 <= i <= ds.len(),
    ensures
        sum64(ds) == sum64(ds.take(i)) + sum64(ds.skip(i)),
    decreases i,
{
    if i == 0 {
        assert(ds.take(0) =~= Seq::<u64>::empty());
        assert(ds.skip(0) =~= ds);
    } else {
        let df = ds.drop_first();
        lemma_sum64_split(df, i - 1);
        assert(ds.take(i).drop_first() =~= df.take(i - 1));
        assert(ds.skip(i) =~= df.skip(i - 1));
        assert(sum64(ds.take(i)) == ds[0] + sum64(df.take(i - 1)));
    }
}

/// One chunk of `n` bytes moved inbound-to-upstream: the relay's counter,
/// the upstream's counter and the process-wide counter advance in lockstep.
pub fn record_tx(relay: &mut Relay, upstream: &mut ProxyServer, global: &mut Traffic, n: u64)
    requires
        old(upstream)@.wf(),
        old(relay).tx + n <= u64::MAX,
        old(upstream)@.traffic.tx_bytes + n <= u64::MAX,
        old(global).tx_bytes + n <= u64::MAX,
    ensures
        final(upstream)@.wf(),
        final(relay).tx == old(relay).tx + n,
        final(relay).rx == old(relay).rx,
        final(upstream)@ == (ProxyServerV {
            traffic: Traffic {
                tx_bytes: (old(upstream)@.traffic.tx_bytes + n) as u64,
                rx_bytes: old(upstream)@.traffic.rx_bytes,
            },
            ..old(upstream)@
        }),
        final(global).tx_bytes == old(global).tx_bytes + n,
        final(global).rx_bytes == old(global).rx_bytes,
    {
    relay.tx = relay.tx + n;
    upstream.add_tx(n);
    global.tx_bytes = global.tx_bytes + n;
}

/// One chunk of `n` bytes moved upstream-to-inbound.
pub fn record_rx(relay: &mut Relay, upstream: &mut ProxyServer, global: &mut Traffic, n: u64)
    requires
        old(upstream)@.wf(),
        old(relay).rx + n <= u64::MAX,
        old(upstream)@.traffic.rx_bytes + n <= u64::MAX,
        old(global).rx_bytes + n <= u64::MAX,
    ensures
        final(upstream)@.wf(),
        final(relay).rx == old(relay).rx + n,
        final(relay).tx == old(relay).tx,
        final(upstream)@ == (ProxyServerV {
            traffic: Traffic {
                tx_bytes: old(upstream)@.traffic.tx_bytes,
                rx_bytes: (old(upstream)@.traffic.rx_bytes + n) as u64,
            },
            ..old(upstream)@
        }),
        final(global).rx_bytes == old(global).rx_bytes + n,
        final(global).tx_bytes == old(global).tx_bytes,
    {
    relay.rx = relay.rx + n;
    upstream.add_rx(n);
    global.rx_bytes = global.rx_bytes + n;
}

/// A whole relay's inbound-to-upstream accounting: after copying the chunks
/// of `chunks`, the bytes attributed to the relay, the growth of the
/// upstream's counter and the growth of the process-wide counter all equal
/// the total copied.
pub fn account_tx_chunks(
    relay: &mut Relay,
    upstream: &mut ProxyServer,
    global: &mut Traffic,
    chunks: &Vec<u64>,
)
    requires
        old(upstream)@.wf(),
        old(relay).tx + sum64(chunks@) <= u64::MAX,
        old(upstream)@.traffic.tx_bytes + sum64(chunks@) <= u64::MAX,
        old(global).tx_bytes + sum64(chunks@) <= u64::MAX,
    ensures
        final(upstream)@.wf(),
        final(relay).tx == old(relay).tx + sum64(chunks@),
        final(upstream)@ == (ProxyServerV {
            traffic: Traffic {
                tx_bytes: (old(upstream)@.traffic.tx_bytes + sum64(chunks@)) as u64,
                rx_bytes: old(upstream)@.traffic.rx_bytes,
            },
            ..old(upstream)@
        }),
        final(global).tx_bytes == old(global).tx_bytes + sum64(chunks@),
        final(upstream)@.traffic.tx_bytes - old(upstream)@.traffic.tx_bytes
            == final(relay).tx - old(relay).tx,
{
    proof {
        lemma_sum64_nonneg(chunks@);
        assert(chunks@.take(0) =~= Seq::<u64>::empty());
    }
    let mut i: usize = 0;
    while i < chunks.len()
        invariant
            i <= chunks@.len(),
            upstream@.wf(),
            0 <= sum64(chunks@.take(i as int)) <= sum64(chunks@),
            old(relay).tx + sum64(chunks@) <= u64::MAX,
            old(upstream)@.traffic.tx_bytes + sum64(chunks@) <= u64::MAX,
            old(global).tx_bytes + sum64(chunks@) <= u64::MAX,
            relay.tx == old(relay).tx + sum64(chunks@.take(i as int)),
            relay.rx == old(relay).rx,
            upstream@ == (ProxyServerV {
                traffic: Traffic {
                    tx_bytes: (old(upstream)@.traffic.tx_bytes
                        + sum64(chunks@.take(i as int))) as u64,
                    rx_bytes: old(upstream)@.traffic.rx_bytes,
                },
                ..old(upstream)@
            }),
            global.tx_bytes == old(global).tx_bytes + sum64(chunks@.take(i as int)),
            global.rx_bytes == old(global).rx_bytes,
        decreases chunks@.len() - i,
    {
        proof {
            lemma_sum64_split(chunks@, i as int);
            lemma_sum64_split(chunks@, i as int + 1);
            assert(chunks@.take(i as int + 1).drop_last() =~= chunks@.take(i as int));
            lemma_sum64_snoc(chunks@, i as int);
            lemma_sum64_nonneg(chunks@.skip(i as int + 1));
        }
        record_tx(relay, upstream, global, chunks[i]);
        i = i + 1;
    }
    proof {
        assert(chunks@.take(chunks@.len() as int) =~= chunks@);
    }
}

/// A whole relay's upstream-to-inbound accounting: the mirror of
/// `account_tx_chunks` for the reverse direction.
pub fn account_rx_chunks(
    relay: &mut Relay,
    upstream: &mut ProxyServer,
    global: &mut Traffic,
    chunks: &Vec<u64>,
)
    requires
        old(upstream)@.wf(),
        old(relay).rx + sum64(chunks@) <= u64::MAX,
        old(upstream)@.traffic.rx_bytes + sum64(chunks@) <= u64::MAX,
        old(global).rx_bytes + sum64(chunks@) <= u64::MAX,
    ensures
        final(upstream)@.wf(),
        final(relay).rx == old(relay).rx + sum64(chunks@),
        final(upstream)@ == (ProxyServerV {
            traffic: Traffic {
                tx_bytes: old(upstream)@.traffic.tx_bytes,
                rx_bytes: (old(upstream)@.traffic.rx_bytes + sum64(chunks@)) as u64,
            },
            ..old(upstream)@
        }),
        final(global).rx_bytes == old(global).rx_bytes + sum64(chunks@),
        final(upstream)@.traffic.rx_bytes - old(upstream)@.traffic.rx_bytes
            == final(relay).rx - old(relay).rx,
{
    proof {
        lemma_sum64_nonneg(chunks@);
        assert(chunks@.take(0) =~= Seq::<u64>::empty());
    }
    let mut i: usize = 0;
    while i < chunks.len()
        invariant
            i <= chunks@.len(),
            upstream@.wf(),
            0 <= sum64(chunks@.take(i as int)) <= sum64(chunks@),
            old(relay).rx + sum64(chunks@) <= u64::MAX,
            old(upstream)@.traffic.rx_bytes + sum64(chunks@) <= u64::MAX,
            old(global).rx_bytes + sum64(chunks@) <= u64::MAX,
            relay.rx == old(relay).rx + sum64(chunks@.take(i as int)),
            relay.tx == old(relay).tx,
            upstream@ == (ProxyServerV {
                traffic: Traffic {
                    tx_bytes: old(upstream)@.traffic.tx_bytes,
                    rx_bytes: (old(upstream)@.traffic.rx_bytes
                        + sum64(chunks@.take(i as int))) as u64,
                },
                ..old(upstream)@
            }),
            global.rx_bytes == old(global).rx_bytes + sum64(chunks@.take(i as int)),
            global.tx_bytes == old(global).tx_bytes,
        decreases chunks@.len() - i,
    {
        proof {
            lemma_sum64_split(chunks@, i as int);
            lemma_sum64_split(chunks@, i as int + 1);
            assert(chunks@.take(i as int + 1).drop_last() =~= chunks@.take(i as int));
            lemma_sum64_snoc(chunks@, i as int);
            lemma_sum64_nonneg(chunks@.skip(i as int + 1));
        }
        record_rx(relay, upstream, global, chunks[i]);
        i = i + 1;
    }
    proof {
        assert(chunks@.take(chunks@.len() as int) =~= chunks@);
    }
}

/// Extending a prefix by one chunk adds that chunk to the prefix sum.
pub proof fn lemma_sum64_snoc(ds: Seq<u64>, i: int)
    requires
        0 <= i < ds.len(),
    ensures
        sum64(ds.take(i + 1)) == sum64(ds.take(i)) + ds[i],
    decreases i,
{
    if i == 0 {
        assert(ds.take(1) =~= seq![ds[0]]);
        assert(ds.take(0) =~= Seq::<u64>::empty());
        assert(ds.take(1).drop_first() =~= Seq::<u64>::empty());
        assert(sum64(ds.take(1)) == ds[0] + sum64(ds.take(1).drop_first()));
    } else {
        let df = ds.drop_first();
        lemma_sum64_snoc(df, i - 1);
        assert(ds.take(i + 1).drop_first() =~= df.take(i));
        assert(ds.take(i).drop_first() =~= df.take(i - 1));
        assert(df[i - 1] == ds[i]);
        assert(sum64(ds.take(i + 1)) == ds[0] + sum64(df.take(i)));
        assert(sum64(ds.take(i)) == ds[0] + sum64(df.take(i - 1)));
    }
}

} // verus!
