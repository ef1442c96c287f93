//! Ranking of upstreams: finite scores ascending by `score + score_base`,
//! unknown scores last, ties broken by open connections and then by
//! registration order. The order is a total preorder, and on distinct
//! registration positions a total order, which the sort below uses.

use vstd::prelude::*;
use crate::proxy::{ProxyServer, ProxyServerV, views_of};

verus! {

/// The effective ranking score: the rolling score plus the static base.
pub open spec fn eff_score(s: ProxyServerV) -> int {
    (match s.score {
        Some(v) => v as int,
        None => 0,
    }) + (match s.score_base {
        Some(b) => b as int,
        None => 0,
    })
}

/// Ranking order between upstream `a` at registration position `ia` and
/// upstream `b` at position `ib`: upstreams with a score come first, ordered
/// by effective score, then by open connections, then by position; upstreams
/// without a score come last, in registration order.
pub open spec fn rank_le(a: ProxyServerV, ia: int, b: ProxyServerV, ib: int) -> bool {
    match (a.score, b.score) {
        (Option::None, Option::None) => ia <= ib,
        (Option::None, Option::Some(_)) => false,
        (Option::Some(_), Option::None) => true,
        (Option::Some(_), Option::Some(_)) => {
            if eff_score(a) != eff_score(b) {
                eff_score(a) < eff_score(b)
            } else if a.conn_alive != b.conn_alive {
                a.conn_alive < b.conn_alive
            } else {
                ia <= ib
            }
        }
    }
}

/// The ranking order is total: of any two positioned upstreams, one ranks no
/// worse than the other.
pub proof fn lemma_rank_total(a: ProxyServerV, ia: int, b: ProxyServerV, ib: int)
    ensures
        rank_le(a, ia, b, ib) || rank_le(b, ib, a, ia),
{
}

/// The ranking order is transitive.
pub proof fn lemma_rank_trans(
    a: ProxyServerV, ia: int,
    b: ProxyServerV, ib: int,
    c: ProxyServerV, ic: int,
)
    requires
        rank_le(a, ia, b, ib),
        rank_le(b, ib, c, ic),
    ensures
        rank_le(a, ia, c, ic),
{
}

/// On distinct registration positions the ranking order is antisymmetric:
/// it is a total order there, so a ranked snapshot is unique.
pub proof fn lemma_rank_antisym(a: ProxyServerV, ia: int, b: ProxyServerV, ib: int)
    requires
        rank_le(a, ia, b, ib),
        rank_le(b, ib, a, ia),
    ensures
        ia == ib,
{
}

/// Ranking comparison between the upstreams at positions `ia` and `ib`.
pub fn rank_le_exec(servers: &Vec<ProxyServer>, ia: usize, ib: usize) -> (r: bool)
    requires
        ia < servers@.len(),
        ib < servers@.len(),
    ensures
        r == rank_le(servers@[ia as int]@, ia as int, servers@[ib as int]@, ib as int),
{
    let a = &servers[ia];
    let b = &servers[ib];
    match (a.score(), b.score()) {
        (None, None) => ia <= ib,
        (None, Some(_)) => false,
        (Some(_), None) => true,
        (Some(sa), Some(sb)) => {
            let base_a: i64 = match a.score_base() {
                Some(v) => v as i64,
                None => 0,
            };
            let base_b: i64 = match b.score_base() {
                Some(v) => v as i64,
                None => 0,
            };
            let ea: i64 = sa as i64 + base_a;
            let eb: i64 = sb as i64 + base_b;
            if ea != eb {
                ea < eb
            } else if a.conn_alive() != b.conn_alive() {
                a.conn_alive() < b.conn_alive()
            } else {
                ia <= ib
            }
        }
    }
}

/// `r[i]` ranks no worse than `r[j]` whenever `i <= j`, reading the
/// upstreams of `servers` at those positions.
pub open spec fn ranked_by(servers: Seq<ProxyServerV>, r: Seq<usize>) -> bool {
    forall|i: int, j: int|
        0 <= i < j < r.len() ==> rank_le(
            servers[#[trigger] r[i] as int], r[i] as int,
            servers[#[trigger] r[j] as int], r[j] as int,
        )
}

/// `r` is a permutation of the positions `0` to `n - 1`: right length, every
/// entry in range, no entry twice.
pub open spec fn is_position_perm(n: int, r: Seq<usize>) -> bool {
    &&& r.len() == n
    &&& forall|i: int| 0 <= i < r.len() ==> (#[trigger] r[i]) < n
    &&& forall|i: int, j: int| 0 <= i < j < r.len() ==> #[trigger] r[i] != #[trigger] r[j]
}

/// The positions of `servers` sorted by rank: an insertion sort on position
/// numbers, stable by construction of the order itself.
pub fn ranked_indices(servers: &Vec<ProxyServer>) -> (r: Vec<usize>)
    ensures
        is_position_perm(servers@.len() as int, r@),
        ranked_by(views_of(servers@), r@),
{
    let n = servers.len();
    let mut r: Vec<usize> = Vec::new();
    let mut k: usize = 0;
    while k < n
        invariant
            k <= n,
            r@.len() == k as int,
            forall|i: int| 0 <= i < k ==> #[trigger] r@[i] == i,
        decreases n - k,
    {
        r.push(k);
        k = k + 1;
    }
    if n == 0 {
        return r;
    }
    let mut i: usize = 1;
    while i < n
        invariant
            1 <= i <= n,
            n == servers@.len(),
            is_position_perm(servers@.len() as int, r@),
            forall|p: int, q: int|
                0 <= p < q < i ==> rank_le(
                    servers@[#[trigger] r@[p] as int]@, r@[p] as int,
                    servers@[#[trigger] r@[q] as int]@, r@[q] as int,
                ),
        decreases n - i,
    {
        let mut j: usize = i;
        while j > 0 && !rank_le_exec(servers, r[j - 1], r[j])
            invariant
                j <= i < n,
                n == servers@.len(),
                is_position_perm(servers@.len() as int, r@),
                forall|p: int, q: int|
                    0 <= p < q < i + 1 && q != j ==> rank_le(
                        servers@[#[trigger] r@[p] as int]@, r@[p] as int,
                        servers@[#[trigger] r@[q] as int]@, r@[q] as int,
                    ),
            decreases j,
        {
            let a = r[j - 1];
            let b = r[j];
            proof {
                lemma_rank_total(
                    servers@[a as int]@, a as int,
                    servers@[b as int]@, b as int,
                );
            }
            r.set(j - 1, b);
            r.set(j, a);
            j = j - 1;
        }
        i = i + 1;
    }
    proof {
        assert(views_of(servers@).len() == servers@.len());
        assert forall|i: int, j: int| 0 <= i < j < r@.len() implies rank_le(
            views_of(servers@)[#[trigger] r@[i] as int], r@[i] as int,
            views_of(servers@)[#[trigger] r@[j] as int], r@[j] as int,
        ) by {
            assert(views_of(servers@)[r@[i] as int] == servers@[r@[i] as int]@);
            assert(views_of(servers@)[r@[j] as int] == servers@[r@[j] as int]@);
        }
    }
    r
}

} // verus!
