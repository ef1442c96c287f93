//! The read-only status surface: the snapshot the status page renders, and
//! the routing of its few paths. Serving sockets and rendering live outside;
//! this module fixes what they show.

use vstd::prelude::*;
use crate::monitor::{Monitor, Throughput};
use crate::proxy::{ProxyServer, ProxyServerV};

verus! {

/// Addition that stops at the top instead of wrapping.
pub open spec fn sat_add(a: int, b: int) -> u64 {
    if a + b > u64::MAX {
        u64::MAX
    } else {
        (a + b) as u64
    }
}

/// The sum of all per-upstream throughputs, direction by direction.
pub open spec fn total_throughput(ts: Seq<Throughput>) -> Throughput
    decreases ts.len(),
{
    if ts.len() == 0 {
        Throughput { tx_bps: 0, rx_bps: 0 }
    } else {
        let rest = total_throughput(ts.drop_first());
        Throughput {
            tx_bps: sat_add(ts[0].tx_bps as int, rest.tx_bps as int),
            rx_bps: sat_add(ts[0].rx_bps as int, rest.rx_bps as int),
        }
    }
}

/// One upstream as the status page shows it: the handle and its latest
/// throughput, when one was computed.
pub struct ServerStatus {
    pub server: ProxyServer,
    pub throughput: Option<Throughput>,
}

/// Everything the status page shows at one instant.
pub struct Status {
    pub servers: Vec<ServerStatus>,
    pub uptime_secs: u64,
    pub throughput: Throughput,
}

impl Status {
    /// The snapshot at one instant: every upstream of the monitor in order,
    /// each beside its latest throughput, under the summed total.
    pub fn from(uptime_secs: u64, monitor: &Monitor) -> (r: Status)
        requires
            monitor@.wf(),
        ensures
            r.uptime_secs == uptime_secs,
            r.servers@.len() == monitor@.servers.len(),
            forall|i: int| 0 <= i < r.servers@.len() ==> {
                &&& (#[trigger] r.servers@[i]).server@ == monitor@.servers[i]
                &&& r.servers@[i].throughput == Some(monitor@.throughputs[i])
            },
            r.throughput == total_throughput(monitor@.throughputs),
    {
        let n = monitor.len();
        let mut servers: Vec<ServerStatus> = Vec::new();
        let mut i: usize = 0;
        while i < n
            invariant
                monitor@.wf(),
                n == monitor@.servers.len(),
                i <= n,
                servers@.len() == i as int,
                forall|k: int| 0 <= k < i ==> {
                    &&& (#[trigger] servers@[k]).server@ == monitor@.servers[k]
                    &&& servers@[k].throughput == Some(monitor@.throughputs[k])
                },
            decreases n - i,
        {
            let server = monitor.server_at(i).clone_server();
            let throughput = Some(monitor.throughputs()[i]);
            servers.push(ServerStatus { server, throughput });
            i = i + 1;
        }
        let throughput = sum_throughputs(monitor.throughputs());
        Status { servers, uptime_secs, throughput }
    }
}

/// Sums a throughput list as `total_throughput` states, saturating at the
/// top.
pub fn sum_throughputs(ts: &Vec<Throughput>) -> (r: Throughput)
    ensures
        r == total_throughput(ts@),
    decreases ts@.len(),
{
    let r = sum_throughputs_from(ts, 0);
    assert(ts@.skip(0) =~= ts@);
    r
}

fn sum_throughputs_from(ts: &Vec<Throughput>, i: usize) -> (r: Throughput)
    requires
        i <= ts@.len(),
    ensures
        r == total_throughput(ts@.skip(i as int)),
    decreases ts@.len() - i,
{
    if i == ts.len() {
        assert(ts@.skip(i as int).len() == 0);
        Throughput { tx_bps: 0, rx_bps: 0 }
    } else {
        let rest = sum_throughputs_from(ts, i + 1);
        let t = ts[i];
        let tx: u64 = if rest.tx_bps <= u64::MAX - t.tx_bps {
            t.tx_bps + rest.tx_bps
        } else {
            u64::MAX
        };
        let rx: u64 = if rest.rx_bps <= u64::MAX - t.rx_bps {
            t.rx_bps + rest.rx_bps
        } else {
            u64::MAX
        };
        proof {
            assert(ts@.skip(i as int).drop_first() =~= ts@.skip(i as int + 1));
            assert(ts@.skip(i as int)[0] == ts@[i as int]);
        }
        Throughput { tx_bps: tx, rx_bps: rx }
    }
}

/// Where one request goes.
#[derive(Clone, Copy, PartialEq, Eq, Structural, Debug)]
pub enum Route {
    /// `GET /`: the human page, or the plain table for a plain client.
    Home,
    /// `GET /plain`: the fixed-column text table.
    Plain,
    /// `GET /version`: the build version string.
    Version,
    /// `GET /status`: the machine-readable snapshot.
    Status,
    /// Anything else.
    NotFound,
}

/// "/plain" as bytes.
pub open spec fn plain_path() -> Seq<u8> {
    seq![47u8, 112u8, 108u8, 97u8, 105u8, 110u8]
}

/// "/version" as bytes.
pub open spec fn version_path() -> Seq<u8> {
    seq![47u8, 118u8, 101u8, 114u8, 115u8, 105u8, 111u8, 110u8]
}

/// "/status" as bytes.
pub open spec fn status_path() -> Seq<u8> {
    seq![47u8, 115u8, 116u8, 97u8, 116u8, 117u8, 115u8]
}

/// Which page a request is for: the four known paths under GET, anything
/// else is not found.
pub open spec fn route_of(is_get: bool, path: Seq<u8>) -> Route {
    if !is_get {
        Route::NotFound
    } else if path == seq![47u8] {
        Route::Home
    } else if path == plain_path() {
        Route::Plain
    } else if path == version_path() {
        Route::Version
    } else if path == status_path() {
        Route::Status
    } else {
        Route::NotFound
    }
}

/// Whether two byte strings are equal.
pub fn bytes_eq(a: &[u8], b: &[u8]) -> (r: bool)
    ensures
        r == (a@ == b@),
{
    if a.len() != b.len() {
        assert(a@.len() != b@.len());
        return false;
    }
    let mut i: usize = 0;
    while i < a.len()
        invariant
            i <= a@.len(),
            a@.len() == b@.len(),
            forall|j: int| 0 <= j < i ==> a@[j] == b@[j],
        decreases a@.len() - i,
    {
        if a[i] != b[i] {
            return false;
        }
        i = i + 1;
    }
    proof {
        assert(a@ =~= b@);
    }
    true
}

/// Routes one request, exactly as `route_of` states.
pub fn route(is_get: bool, path: &[u8]) -> (r: Route)
    ensures
        r == route_of(is_get, path@),
{
    if !is_get {
        return Route::NotFound;
    }
    let root: [u8; 1] = [47];
    let plain: [u8; 6] = [47, 112, 108, 97, 105, 110];
    let version: [u8; 8] = [47, 118, 101, 114, 115, 105, 111, 110];
    let status: [u8; 7] = [47, 115, 116, 97, 116, 117, 115];
    proof {
        assert(root@ =~= seq![47u8]);
        assert(plain@ =~= plain_path());
        assert(version@ =~= version_path());
        assert(status@ =~= status_path());
    }
    if bytes_eq(path, root.as_slice()) {
        Route::Home
    } else if bytes_eq(path, plain.as_slice()) {
        Route::Plain
    } else if bytes_eq(path, version.as_slice()) {
        Route::Version
    } else if bytes_eq(path, status.as_slice()) {
        Route::Status
    } else {
        Route::NotFound
    }
}

} // verus!
