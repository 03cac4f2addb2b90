use crate::config::{Config, LoadBalancingMethod, UpstreamConfig};
use vstd::prelude::*;

verus! {

/// One member of an upstream pool.
#[derive(Debug)]
pub struct UpstreamServer {
    pub url: String,
    /// Cleared when a forwarded request fails or a probe fails; set again only
    /// by a successful probe.
    pub healthy: bool,
    /// Requests forwarded to this server that have not finished.
    pub connections: u64,
    /// When this server was last probed, in seconds.
    pub last_check: u64,
}

/// The selection policy of a pool and its round-robin counter.
#[derive(Debug)]
pub struct LoadBalancer {
    pub method: LoadBalancingMethod,
    /// Grows by one per round-robin pick and wraps at the top of its range.
    pub counter: u64,
}

/// What a pool probes, and how often.
#[derive(Debug)]
pub struct HealthProbe {
    pub path: String,
    /// Seconds.
    pub interval: u64,
    /// Milliseconds.
    pub timeout: u64,
}

/// A named group of upstream servers; members are never added or removed.
#[derive(Debug)]
pub struct UpstreamPool {
    pub name: String,
    pub servers: Vec<UpstreamServer>,
    pub load_balancer: LoadBalancer,
    /// Milliseconds a forwarded request may take.
    pub read_timeout: u64,
    pub health: Option<HealthProbe>,
}

/// The positions of the healthy servers of `s`, in order.
pub open spec fn healthy_positions(s: Seq<UpstreamServer>) -> Seq<int>
    decreases s.len(),
{
    if s.len() == 0 {
        Seq::empty()
    } else {
        let rest = healthy_positions(s.drop_last());
        if s.last().healthy {
            rest.push(s.len() - 1)
        } else {
            rest
        }
    }
}

/// `h[k]` carries the fewest in-flight requests among the positions `h`, and no
/// earlier position carries as few.
pub open spec fn first_least(s: Seq<UpstreamServer>, h: Seq<int>, k: int) -> bool {
    &&& 0 <= k < h.len()
    &&& forall|m: int| 0 <= m < h.len() ==> s[h[k]].connections <= #[trigger] s[h[m]].connections
    &&& forall|m: int| 0 <= m < k ==> s[h[k]].connections < #[trigger] s[h[m]].connections
}

/// The server a round-robin pick takes at counter value `c`.
pub open spec fn round_robin_pick(s: Seq<UpstreamServer>, c: int) -> int {
    let h = healthy_positions(s);
    h[c % (h.len() as int)]
}

/// `r` is what the policy `method` picks among the healthy servers of `s`, with
/// round-robin counter `counter` and entropy `random`.
pub open spec fn picks(
    s: Seq<UpstreamServer>,
    method: LoadBalancingMethod,
    counter: u64,
    random: u64,
    r: Option<usize>,
) -> bool {
    let h = healthy_positions(s);
    if h.len() == 0 {
        r is None
    } else {
        r is Some && match method {
            LoadBalancingMethod::RoundRobin => r->0 as int == round_robin_pick(s, counter as int),
            LoadBalancingMethod::IpHash => r->0 as int == round_robin_pick(s, counter as int),
            LoadBalancingMethod::Random => r->0 as int == h[(random as int) % (h.len() as int)],
            LoadBalancingMethod::LeastConnections => exists|k: int|
                first_least(s, h, k) && r->0 as int == #[trigger] h[k],
        }
    }
}

/// The counter after a pick: it moves by one for the round-robin policies.
pub open spec fn counter_after(
    s: Seq<UpstreamServer>,
    method: LoadBalancingMethod,
    counter: u64,
) -> u64 {
    if healthy_positions(s).len() > 0 && (method == LoadBalancingMethod::RoundRobin || method
        == LoadBalancingMethod::IpHash) {
        counter.wrapping_add(1)
    } else {
        counter
    }
}

/// The healthy positions are in range, healthy, increasing, and include every
/// healthy server.
pub proof fn lemma_healthy_positions(s: Seq<UpstreamServer>)
    ensures
        ({
            let h = healthy_positions(s);
            &&& h.len() <= s.len()
            &&& forall|k: int| 0 <= k < h.len() ==> 0 <= #[trigger] h[k] < s.len() && s[h[k]].healthy
            &&& forall|k1: int, k2: int| 0 <= k1 < k2 < h.len() ==> #[trigger] h[k1] < #[trigger] h[k2]
            &&& forall|j: int| 0 <= j < s.len() && #[trigger] s[j].healthy ==> exists|k: int|
                0 <= k < h.len() && #[trigger] h[k] == j
        }),
    decreases s.len(),
{
    if s.len() > 0 {
        let t = s.drop_last();
        lemma_healthy_positions(t);
        let rest = healthy_positions(t);
        let h = healthy_positions(s);
        assert forall|j: int| 0 <= j < s.len() && #[trigger] s[j].healthy implies exists|k: int|
            0 <= k < h.len() && #[trigger] h[k] == j by {
            if j < s.len() - 1 {
                assert(t[j] == s[j]);
                let k = choose|k: int| 0 <= k < rest.len() && #[trigger] rest[k] == j;
                assert(h[k] == j);
            } else {
                assert(h[h.len() - 1] == j);
            }
        }
    }
}

/// With every server healthy, the healthy positions are all positions.
pub proof fn lemma_all_healthy(s: Seq<UpstreamServer>)
    requires
        forall|j: int| 0 <= j < s.len() ==> #[trigger] s[j].healthy,
    ensures
        healthy_positions(s).len() == s.len(),
        forall|k: int| 0 <= k < s.len() ==> #[trigger] healthy_positions(s)[k] == k,
    decreases s.len(),
{
    if s.len() > 0 {
        lemma_all_healthy(s.drop_last());
    }
}

impl UpstreamPool {
    /// The positions of the healthy servers, in order.
    fn healthy_servers(&self) -> (r: Vec<usize>)
        ensures
            r@.len() == healthy_positions(self.servers@).len(),
            forall|k: int| 0 <= k < r@.len() ==> #[trigger] r@[k] as int == healthy_positions(self.servers@)[k],
    {
        let mut r: Vec<usize> = Vec::new();
        let mut i: usize = 0;
        while i < self.servers.len()
            invariant
                i <= self.servers@.len(),
                r@.len() == healthy_positions(self.servers@.subrange(0, i as int)).len(),
                forall|k: int| 0 <= k < r@.len() ==> #[trigger] r@[k] as int == healthy_positions(self.servers@.subrange(0, i as int))[k],
            decreases self.servers@.len() - i,
        {
            let ghost before = self.servers@.subrange(0, i as int);
            assert(self.servers@.subrange(0, i + 1).drop_last() =~= before);
            if self.servers[i].healthy {
                r.push(i);
            }
            i += 1;
        }
        assert(self.servers@.subrange(0, self.servers@.len() as int) =~= self.servers@);
        r
    }

    /// Counts one more request in flight at server `s`; the count stops at the top
    /// of its range.
    pub fn start_request(&mut self, s: usize)
        requires
            s < old(self).servers@.len(),
        ensures
            final(self).name == old(self).name,
            final(self).servers@ == old(self).servers@.update(
                s as int,
                UpstreamServer {
                    connections: if old(self).servers@[s as int].connections < u64::MAX {
                        (old(self).servers@[s as int].connections + 1) as u64
                    } else {
                        old(self).servers@[s as int].connections
                    },
                    ..old(self).servers@[s as int]
                },
            ),
            final(self).load_balancer == old(self).load_balancer,
            final(self).read_timeout == old(self).read_timeout,
            final(self).health == old(self).health,
    {
        let c = self.servers[s].connections;
        if c < u64::MAX {
            self.servers[s].connections = c + 1;
        }
    }

    /// Counts a request at server `s` as finished; a failed one marks the server
    /// unhealthy.
    pub fn finish_request(&mut self, s: usize, succeeded: bool)
        requires
            s < old(self).servers@.len(),
        ensures
            final(self).name == old(self).name,
            final(self).servers@ == old(self).servers@.update(
                s as int,
                UpstreamServer {
                    connections: if old(self).servers@[s as int].connections > 0 {
                        (old(self).servers@[s as int].connections - 1) as u64
                    } else {
                        0
                    },
                    healthy: old(self).servers@[s as int].healthy && succeeded,
                    ..old(self).servers@[s as int]
                },
            ),
            final(self).load_balancer == old(self).load_balancer,
            final(self).read_timeout == old(self).read_timeout,
            final(self).health == old(self).health,
    {
        let c = self.servers[s].connections;
        if c > 0 {
            self.servers[s].connections = c - 1;
        }
        if !succeeded {
            self.servers[s].healthy = false;
        }
    }

    /// Sets the health flag of server `s` from a probe's outcome.
    pub fn set_health(&mut self, s: usize, healthy: bool)
        requires
            s < old(self).servers@.len(),
        ensures
            final(self).name == old(self).name,
            final(self).servers@ == old(self).servers@.update(
                s as int,
                UpstreamServer { healthy, ..old(self).servers@[s as int] },
            ),
            final(self).load_balancer == old(self).load_balancer,
            final(self).read_timeout == old(self).read_timeout,
            final(self).health == old(self).health,
    {
        self.servers[s].healthy = healthy;
    }

    /// Marks every server whose probe is due at `now` as probed at `now`, and
    /// gives their positions in order.
    pub fn due_servers(&mut self, now: u64) -> (r: Vec<usize>)
        ensures
            swept(*old(self), *final(self), now),
            forall|k: int|
                0 <= k < r@.len() ==> #[trigger] r@[k] < old(self).servers@.len() && probe_due(
                    old(self).health,
                    old(self).servers@[r@[k] as int],
                    now,
                ),
            forall|k1: int, k2: int| 0 <= k1 < k2 < r@.len() ==> #[trigger] r@[k1] < #[trigger] r@[k2],
            forall|j: int|
                0 <= j < old(self).servers@.len() && probe_due(
                    old(self).health,
                    #[trigger] old(self).servers@[j],
                    now,
                ) ==> exists|k: int| 0 <= k < r@.len() && #[trigger] r@[k] == j as usize,
    {
        let ghost a = *self;
        let mut r: Vec<usize> = Vec::new();
        let interval = match &self.health {
            Some(h) => h.interval,
            None => return r,
        };
        let mut j: usize = 0;
        while j < self.servers.len()
            invariant
                a.health matches Some(h) && h.interval == interval,
                j <= self.servers@.len() == a.servers@.len(),
                self.name == a.name,
                self.load_balancer == a.load_balancer,
                self.read_timeout == a.read_timeout,
                self.health == a.health,
                forall|m: int|
                    0 <= m < a.servers@.len() ==> #[trigger] self.servers@[m] == if m < j && probe_due(
                        a.health,
                        a.servers@[m],
                        now,
                    ) {
                        UpstreamServer { last_check: now, ..a.servers@[m] }
                    } else {
                        a.servers@[m]
                    },
                forall|k: int| 0 <= k < r@.len() ==> #[trigger] r@[k] < j && probe_due(a.health, a.servers@[r@[k] as int], now),
                forall|k1: int, k2: int| 0 <= k1 < k2 < r@.len() ==> #[trigger] r@[k1] < #[trigger] r@[k2],
                forall|m: int|
                    0 <= m < j && probe_due(a.health, #[trigger] a.servers@[m], now) ==> exists|k: int|
                        0 <= k < r@.len() && #[trigger] r@[k] == m as usize,
            decreases a.servers@.len() - j,
        {
            let last = self.servers[j].last_check;
            let since = if now >= last {
                now - last
            } else {
                0
            };
            if since >= interval {
                self.servers[j].last_check = now;
                let ghost r0 = r@;
                r.push(j);
                proof {
                    assert forall|m: int|
                        0 <= m < j + 1 && probe_due(a.health, #[trigger] a.servers@[m], now) implies exists|k: int|
                        0 <= k < r@.len() && #[trigger] r@[k] == m as usize by {
                        if m < j {
                            let k = choose|k: int| 0 <= k < r0.len() && #[trigger] r0[k] == m as usize;
                            assert(r@[k] == m as usize);
                        } else {
                            assert(r@[r0.len() as int] == m as usize);
                        }
                    }
                }
            }
            j += 1;
        }
        r
    }

    /// Picks a healthy server by the pool's policy; `random` is the entropy the
    /// `Random` policy draws on. `None` when no server is healthy.
    pub fn select_server(&mut self, random: u64) -> (r: Option<usize>)
        ensures
            picks(old(self).servers@, old(self).load_balancer.method, old(self).load_balancer.counter, random, r),
            r matches Some(i) ==> i < old(self).servers@.len() && old(self).servers@[i as int].healthy,
            final(self).name == old(self).name,
            final(self).servers@ == old(self).servers@,
            final(self).load_balancer.method == old(self).load_balancer.method,
            final(self).load_balancer.counter == counter_after(
                old(self).servers@,
                old(self).load_balancer.method,
                old(self).load_balancer.counter,
            ),
            final(self).read_timeout == old(self).read_timeout,
            final(self).health == old(self).health,
    {
        proof {
            lemma_healthy_positions(self.servers@);
        }
        let healthy = self.healthy_servers();
        let ghost h = healthy_positions(self.servers@);
        let n = healthy.len();
        if n == 0 {
            return None;
        }
        match self.load_balancer.method {
            LoadBalancingMethod::RoundRobin | LoadBalancingMethod::IpHash => {
                let c = self.load_balancer.counter;
                self.load_balancer.counter = c.wrapping_add(1);
                Some(healthy[(c % (n as u64)) as usize])
            },
            LoadBalancingMethod::Random => Some(healthy[(random % (n as u64)) as usize]),
            LoadBalancingMethod::LeastConnections => {
                let mut best: usize = 0;
                let mut k: usize = 1;
                while k < n
                    invariant
                        0 < n == healthy@.len() == h.len(),
                        h == healthy_positions(self.servers@),
                        forall|m: int| 0 <= m < n ==> #[trigger] healthy@[m] as int == h[m],
                        forall|m: int| 0 <= m < h.len() ==> 0 <= #[trigger] h[m] < self.servers@.len(),
                        best < k <= n,
                        forall|m: int| 0 <= m < k ==> self.servers@[h[best as int]].connections <= #[trigger] self.servers@[h[m]].connections,
                        forall|m: int| 0 <= m < best ==> self.servers@[h[best as int]].connections < #[trigger] self.servers@[h[m]].connections,
                    decreases n - k,
                {
                    if self.servers[healthy[k]].connections < self.servers[healthy[best]].connections {
                        best = k;
                    }
                    k += 1;
                }
                assert(first_least(self.servers@, h, best as int));
                Some(healthy[best])
            },
        }
    }
}

/// Round-robin over the healthy servers: `n` consecutive picks take each healthy
/// server exactly once, the next pick repeats the first, and with every server
/// healthy and the counter at a multiple of `n` they come in pool order.
pub proof fn lemma_round_robin_cycle(s: Seq<UpstreamServer>, c: int)
    requires
        healthy_positions(s).len() > 0,
        c >= 0,
    ensures
        ({
            let h = healthy_positions(s);
            let n = h.len() as int;
            &&& forall|k1: int, k2: int|
                0 <= k1 < n && 0 <= k2 < n && k1 != k2 ==> #[trigger] round_robin_pick(s, c + k1)
                    != #[trigger] round_robin_pick(s, c + k2)
            &&& forall|j: int| 0 <= j < s.len() && #[trigger] s[j].healthy ==> exists|k: int|
                0 <= k < n && #[trigger] round_robin_pick(s, c + k) == j
            &&& round_robin_pick(s, c + n) == round_robin_pick(s, c)
            &&& (forall|j: int| 0 <= j < s.len() ==> #[trigger] s[j].healthy) && c % n == 0 ==> forall|
                k: int,
            | 0 <= k < n ==> #[trigger] round_robin_pick(s, c + k) == k
        }),
{
    lemma_healthy_positions(s);
    let h = healthy_positions(s);
    let n = h.len() as int;
    assert forall|k1: int, k2: int|
        0 <= k1 < n && 0 <= k2 < n && k1 != k2 implies #[trigger] round_robin_pick(s, c + k1)
        != #[trigger] round_robin_pick(s, c + k2) by {
        lemma_mod_distinct(c, k1, k2, n);
        let a = (c + k1) % n;
        let b = (c + k2) % n;
        if a < b {
            assert(h[a] < h[b]);
        } else {
            assert(h[b] < h[a]);
        }
    }
    assert forall|j: int| 0 <= j < s.len() && #[trigger] s[j].healthy implies exists|k: int|
        0 <= k < n && #[trigger] round_robin_pick(s, c + k) == j by {
        let p = choose|p: int| 0 <= p < n && #[trigger] h[p] == j;
        let k = lemma_mod_reach(c, p, n);
        assert(round_robin_pick(s, c + k) == h[p]);
    }
    lemma_mod_period(c, n);
    if (forall|j: int| 0 <= j < s.len() ==> #[trigger] s[j].healthy) && c % n == 0 {
        lemma_all_healthy(s);
        assert forall|k: int| 0 <= k < n implies #[trigger] round_robin_pick(s, c + k) == k by {
            lemma_mod_offset(c, k, n);
        }
    }
}

/// Round-robin from a fresh counter over a pool whose `n` healthy servers stay
/// healthy: of `n + 1` consecutive picks, each moving the counter as
/// `select_server` does, the first `n` take each healthy server once, in pool
/// order, and the last repeats the first. With every server healthy those are
/// the servers in pool order (`lemma_all_healthy`).
pub proof fn lemma_round_robin_calls(
    s: Seq<UpstreamServer>,
    counters: Seq<u64>,
    randoms: Seq<u64>,
    results: Seq<Option<usize>>,
)
    requires
        healthy_positions(s).len() > 0,
        s.len() < u64::MAX,
        counters.len() == healthy_positions(s).len() + 1,
        randoms.len() == healthy_positions(s).len() + 1,
        results.len() == healthy_positions(s).len() + 1,
        counters[0] == 0,
        forall|k: int|
            0 <= k < healthy_positions(s).len() ==> #[trigger] counters[k + 1] == counter_after(
                s,
                LoadBalancingMethod::RoundRobin,
                counters[k],
            ),
        forall|k: int|
            0 <= k <= healthy_positions(s).len() ==> #[trigger] picks(
                s,
                LoadBalancingMethod::RoundRobin,
                counters[k],
                randoms[k],
                results[k],
            ),
    ensures
        forall|k: int|
            0 <= k < healthy_positions(s).len() ==> #[trigger] results[k] == Some(
                healthy_positions(s)[k] as usize,
            ),
        results[healthy_positions(s).len() as int] == results[0],
{
    lemma_healthy_positions(s);
    let n = healthy_positions(s).len() as int;
    assert forall|k: int| 0 <= k <= n implies #[trigger] counters[k] == k by {
        lemma_counter_steps(s, counters, k);
    }
    assert forall|k: int| 0 <= k < n implies #[trigger] results[k] == Some(
        healthy_positions(s)[k] as usize,
    ) by {
        assert(picks(s, LoadBalancingMethod::RoundRobin, counters[k], randoms[k], results[k]));
        vstd::arithmetic::div_mod::lemma_small_mod(k as nat, n as nat);
    }
    assert(picks(s, LoadBalancingMethod::RoundRobin, counters[n], randoms[n], results[n]));
    assert(picks(s, LoadBalancingMethod::RoundRobin, counters[0], randoms[0], results[0]));
    vstd::arithmetic::div_mod::lemma_mod_self_0(n);
    vstd::arithmetic::div_mod::lemma_small_mod(0, n as nat);
}

proof fn lemma_counter_steps(s: Seq<UpstreamServer>, counters: Seq<u64>, k: int)
    requires
        healthy_positions(s).len() > 0,
        s.len() < u64::MAX,
        counters.len() == healthy_positions(s).len() + 1,
        counters[0] == 0,
        forall|i: int|
            0 <= i < healthy_positions(s).len() ==> #[trigger] counters[i + 1] == counter_after(
                s,
                LoadBalancingMethod::RoundRobin,
                counters[i],
            ),
        0 <= k <= healthy_positions(s).len(),
    ensures
        counters[k] == k,
    decreases k,
{
    lemma_healthy_positions(s);
    if k > 0 {
        lemma_counter_steps(s, counters, k - 1);
        assert(counters[(k - 1) + 1] == counter_after(s, LoadBalancingMethod::RoundRobin, counters[k - 1]));
    }
}

proof fn lemma_mod_distinct(c: int, k1: int, k2: int, n: int)
    requires
        c >= 0,
        0 <= k1 < n,
        0 <= k2 < n,
        k1 != k2,
    ensures
        (c + k1) % n != (c + k2) % n,
        0 <= (c + k1) % n < n,
        0 <= (c + k2) % n < n,
{
    let q1 = (c + k1) / n;
    let q2 = (c + k2) / n;
    vstd::arithmetic::div_mod::lemma_fundamental_div_mod(c + k1, n);
    vstd::arithmetic::div_mod::lemma_fundamental_div_mod(c + k2, n);
    vstd::arithmetic::div_mod::lemma_mod_bound(c + k1, n);
    vstd::arithmetic::div_mod::lemma_mod_bound(c + k2, n);
    assert(c + k1 == q1 * n + (c + k1) % n) by (nonlinear_arith)
        requires c + k1 == n * q1 + (c + k1) % n;
    assert(c + k2 == q2 * n + (c + k2) % n) by (nonlinear_arith)
        requires c + k2 == n * q2 + (c + k2) % n;
    if (c + k1) % n == (c + k2) % n {
        assert(k1 - k2 == (q1 - q2) * n) by (nonlinear_arith)
            requires
                c + k1 == q1 * n + (c + k1) % n,
                c + k2 == q2 * n + (c + k2) % n,
                (c + k1) % n == (c + k2) % n;
        assert(false) by (nonlinear_arith)
            requires
                k1 - k2 == (q1 - q2) * n,
                0 <= k1 < n,
                0 <= k2 < n,
                k1 != k2;
    }
}

proof fn lemma_mod_reach(c: int, p: int, n: int) -> (k: int)
    requires
        c >= 0,
        0 <= p < n,
    ensures
        0 <= k < n,
        (c + k) % n == p,
{
    let r = c % n;
    assert(0 <= r < n) by (nonlinear_arith)
        requires n > 0, r == c % n;
    let k = if p >= r { p - r } else { p - r + n };
    let q = c / n;
    assert(c == q * n + r) by (nonlinear_arith)
        requires n > 0, r == c % n, q == c / n;
    if p >= r {
        assert(c + k == q * n + p);
    } else {
        assert(c + k == (q + 1) * n + p) by (nonlinear_arith)
            requires c == q * n + r, k == p - r + n;
    }
    vstd::arithmetic::div_mod::lemma_fundamental_div_mod_converse(c + k, n, if p >= r { q } else { q + 1 }, p);
    k
}

proof fn lemma_mod_period(c: int, n: int)
    requires
        c >= 0,
        n > 0,
    ensures
        (c + n) % n == c % n,
{
    vstd::arithmetic::div_mod::lemma_mod_add_multiples_vanish(c, n);
}

proof fn lemma_mod_offset(c: int, k: int, n: int)
    requires
        c >= 0,
        0 <= k < n,
        c % n == 0,
    ensures
        (c + k) % n == k,
{
    let q = c / n;
    assert(c == q * n) by (nonlinear_arith)
        requires n > 0, c % n == 0, q == c / n;
    vstd::arithmetic::div_mod::lemma_fundamental_div_mod_converse(c + k, n, q, k);
}

/// An unhealthy server is never picked, whatever the policy, counter or entropy.
pub proof fn lemma_unhealthy_never_picked(
    s: Seq<UpstreamServer>,
    method: LoadBalancingMethod,
    counter: u64,
    random: u64,
    r: Option<usize>,
    i: int,
)
    requires
        0 <= i < s.len(),
        !s[i].healthy,
        picks(s, method, counter, random, r),
    ensures
        r matches Some(j) ==> j as int != i,
{
    lemma_healthy_positions(s);
    let h = healthy_positions(s);
    if h.len() > 0 {
        let n = h.len() as int;
        assert(0 <= (counter as int) % n < n) by (nonlinear_arith)
            requires n > 0;
        assert(0 <= (random as int) % n < n) by (nonlinear_arith)
            requires n > 0;
    }
}

/// A least-connections pick carries no more in-flight requests than any other
/// healthy server.
pub proof fn lemma_least_connections_minimal(
    s: Seq<UpstreamServer>,
    counter: u64,
    random: u64,
    r: Option<usize>,
)
    requires
        picks(s, LoadBalancingMethod::LeastConnections, counter, random, r),
    ensures
        r matches Some(i) ==> forall|j: int|
            0 <= j < s.len() && #[trigger] s[j].healthy ==> s[i as int].connections <= s[j].connections,
{
    lemma_healthy_positions(s);
    if r is Some {
        let h = healthy_positions(s);
        let k = choose|k: int| first_least(s, h, k) && r->0 as int == #[trigger] h[k];
        assert forall|j: int| 0 <= j < s.len() && #[trigger] s[j].healthy implies s[r->0 as int].connections
            <= s[j].connections by {
            let m = choose|m: int| 0 <= m < h.len() && #[trigger] h[m] == j;
            assert(s[h[k]].connections <= s[h[m]].connections);
        }
    }
}

/// After a forward to server `i` of a pool fails, that server is unhealthy, and
/// no later pick in the pool takes it, whatever the policy, until a probe sets
/// it healthy again.
pub proof fn lemma_failed_server_excluded(
    a: Seq<UpstreamPool>,
    b: Seq<UpstreamPool>,
    p: int,
    i: int,
    srv: UpstreamServer,
    counter: u64,
    random: u64,
    r: Option<usize>,
)
    requires
        pools_updated(a, b, p, i, srv, counter),
        !srv.healthy,
        picks(b[p].servers@, b[p].load_balancer.method, b[p].load_balancer.counter, random, r),
    ensures
        !b[p].servers@[i].healthy,
        r matches Some(j) ==> j as int != i,
{
    lemma_unhealthy_never_picked(
        b[p].servers@,
        b[p].load_balancer.method,
        b[p].load_balancer.counter,
        random,
        r,
        i,
    );
}

/// Why a request could not be handed to an upstream server.
#[derive(Clone, Copy, Debug, PartialEq, Eq, Structural)]
pub enum ProxyError {
    UnknownUpstream,
    NoHealthyServers,
}

impl ProxyError {
    /// The status a client sees for this failure.
    pub fn status(&self) -> (r: u16)
        ensures
            r == 502,
    {
        502
    }
}

/// The upstream pools, one per configured upstream, in configuration order.
#[derive(Debug)]
pub struct ProxyHandler {
    pub pools: Vec<UpstreamPool>,
}

/// `p` is the first pool named `name`.
pub open spec fn first_pool(pools: Seq<UpstreamPool>, name: Seq<char>, p: int) -> bool {
    &&& 0 <= p < pools.len()
    &&& pools[p].name@ == name
    &&& forall|q: int| 0 <= q < p ==> (#[trigger] pools[q]).name@ != name
}

/// Some pool is named `name`.
pub open spec fn has_pool(pools: Seq<UpstreamPool>, name: Seq<char>) -> bool {
    exists|q: int| 0 <= q < pools.len() && (#[trigger] pools[q]).name@ == name
}

/// `b` is `a` with server `s` of pool `p` replaced by `srv` and the counter of
/// pool `p` set to `counter`; all else is equal.
pub open spec fn pools_updated(
    a: Seq<UpstreamPool>,
    b: Seq<UpstreamPool>,
    p: int,
    s: int,
    srv: UpstreamServer,
    counter: u64,
) -> bool {
    &&& b.len() == a.len()
    &&& 0 <= p < a.len()
    &&& 0 <= s < a[p].servers@.len()
    &&& forall|q: int| 0 <= q < a.len() && q != p ==> #[trigger] b[q] == a[q]
    &&& b[p].name == a[p].name
    &&& b[p].servers@ == a[p].servers@.update(s, srv)
    &&& b[p].load_balancer.method == a[p].load_balancer.method
    &&& b[p].load_balancer.counter == counter
    &&& b[p].read_timeout == a[p].read_timeout
    &&& b[p].health == a[p].health
}

/// A probe succeeds when the server answers with a 2xx or 3xx status.
pub open spec fn probe_succeeded(status: Option<u16>) -> bool {
    status matches Some(code) && 200 <= code < 400
}

/// The pools agree in every field.
pub open spec fn same_pools(a: Seq<UpstreamPool>, b: Seq<UpstreamPool>) -> bool {
    &&& b.len() == a.len()
    &&& forall|q: int|
        0 <= q < a.len() ==> {
            &&& (#[trigger] b[q]).name == a[q].name
            &&& b[q].servers@ == a[q].servers@
            &&& b[q].load_balancer == a[q].load_balancer
            &&& b[q].read_timeout == a[q].read_timeout
            &&& b[q].health == a[q].health
        }
}

/// A fresh pool built from `c`: every server healthy and idle, probed at `now`.
pub open spec fn fresh_pool(pool: UpstreamPool, name: Seq<char>, c: UpstreamConfig, now: u64) -> bool {
    &&& pool.name@ == name
    &&& pool.servers@.len() == c.servers@.len()
    &&& forall|j: int|
        0 <= j < c.servers@.len() ==> {
            let srv = #[trigger] pool.servers@[j];
            &&& srv.url@ == c.servers@[j]@
            &&& srv.healthy
            &&& srv.connections == 0
            &&& srv.last_check == now
        }
    &&& pool.load_balancer.method == c.load_balancing
    &&& pool.load_balancer.counter == 0
    &&& pool.read_timeout == c.read_timeout
    &&& match (pool.health, c.health_check) {
        (Some(h), Some(hc)) => h.path@ == hc.path@ && h.interval == hc.interval && h.timeout
            == hc.timeout,
        (None, None) => true,
        _ => false,
    }
}

/// The seconds from `srv`'s last probe to `now`, zero if `now` is earlier.
pub open spec fn since_probe(srv: UpstreamServer, now: u64) -> int {
    if now >= srv.last_check {
        now - srv.last_check
    } else {
        0
    }
}

/// A sweep at `now` probes `srv` when its pool has a health check and at least the
/// check's interval has passed since the last probe.
pub open spec fn probe_due(health: Option<HealthProbe>, srv: UpstreamServer, now: u64) -> bool {
    health matches Some(h) && since_probe(srv, now) >= h.interval
}

/// `b` is pool `a` after a sweep at `now`: each due server has `now` as its last
/// probe; nothing else changes.
pub open spec fn swept(a: UpstreamPool, b: UpstreamPool, now: u64) -> bool {
    &&& b.name == a.name
    &&& b.load_balancer == a.load_balancer
    &&& b.read_timeout == a.read_timeout
    &&& b.health == a.health
    &&& b.servers@.len() == a.servers@.len()
    &&& forall|j: int|
        0 <= j < a.servers@.len() ==> #[trigger] b.servers@[j] == if probe_due(
            a.health,
            a.servers@[j],
            now,
        ) {
            UpstreamServer { last_check: now, ..a.servers@[j] }
        } else {
            a.servers@[j]
        }
}

fn pool_from_config(name: &String, c: &UpstreamConfig, now: u64) -> (r: UpstreamPool)
    ensures
        fresh_pool(r, name@, *c, now),
{
    let mut servers: Vec<UpstreamServer> = Vec::new();
    let mut j: usize = 0;
    while j < c.servers.len()
        invariant
            j <= c.servers@.len(),
            servers@.len() == j,
            forall|m: int|
                0 <= m < j ==> {
                    let srv = #[trigger] servers@[m];
                    &&& srv.url@ == c.servers@[m]@
                    &&& srv.healthy
                    &&& srv.connections == 0
                    &&& srv.last_check == now
                },
        decreases c.servers@.len() - j,
    {
        servers.push(
            UpstreamServer { url: c.servers[j].clone(), healthy: true, connections: 0, last_check: now },
        );
        j += 1;
    }
    let health = match &c.health_check {
        Some(hc) => Some(
            HealthProbe { path: hc.path.clone(), interval: hc.interval, timeout: hc.timeout },
        ),
        None => None,
    };
    UpstreamPool {
        name: name.clone(),
        servers,
        load_balancer: LoadBalancer { method: c.load_balancing, counter: 0 },
        read_timeout: c.read_timeout,
        health,
    }
}

impl ProxyHandler {
    /// One fresh pool per configured upstream, in configuration order; `now` is
    /// the time, in seconds, recorded as every server's last probe.
    pub fn new(config: &Config, now: u64) -> (r: Self)
        ensures
            r.pools@.len() == config.upstream@.len(),
            forall|q: int|
                0 <= q < r.pools@.len() ==> fresh_pool(
                    #[trigger] r.pools@[q],
                    config.upstream@[q].0,
                    config.upstream@[q].1,
                    now,
                ),
    {
        let mut pools: Vec<UpstreamPool> = Vec::new();
        let mut q: usize = 0;
        while q < config.upstream.len()
            invariant
                q <= config.upstream@.len(),
                pools@.len() == q,
                forall|m: int|
                    0 <= m < q ==> fresh_pool(
                        #[trigger] pools@[m],
                        config.upstream@[m].0,
                        config.upstream@[m].1,
                        now,
                    ),
            decreases config.upstream@.len() - q,
        {
            let (name, c) = config.upstream.entry(q);
            pools.push(pool_from_config(name, c, now));
            q += 1;
        }
        ProxyHandler { pools }
    }

    /// The first pool named `name`.
    pub fn find_pool(&self, name: &str) -> (r: Option<usize>)
        ensures
            match r {
                Some(p) => first_pool(self.pools@, name@, p as int),
                None => !has_pool(self.pools@, name@),
            },
    {
        let k = name.to_string();
        let mut p: usize = 0;
        while p < self.pools.len()
            invariant
                k@ == name@,
                p <= self.pools@.len(),
                forall|q: int| 0 <= q < p ==> (#[trigger] self.pools@[q]).name@ != name@,
            decreases self.pools@.len() - p,
        {
            if self.pools[p].name == k {
                return Some(p);
            }
            p += 1;
        }
        None
    }

    /// Counts the request at server `s` of pool `p` as finished; a failed one marks
    /// the server unhealthy until a probe succeeds.
    pub fn finish_forward(&mut self, p: usize, s: usize, succeeded: bool)
        requires
            p < old(self).pools@.len(),
            s < old(self).pools@[p as int].servers@.len(),
        ensures
            ({
                let srv = old(self).pools@[p as int].servers@[s as int];
                pools_updated(
                    old(self).pools@,
                    final(self).pools@,
                    p as int,
                    s as int,
                    UpstreamServer {
                        connections: if srv.connections > 0 {
                            (srv.connections - 1) as u64
                        } else {
                            0
                        },
                        healthy: srv.healthy && succeeded,
                        ..srv
                    },
                    old(self).pools@[p as int].load_balancer.counter,
                )
            }),
    {
        self.pools[p].finish_request(s, succeeded);
    }

    /// Records the outcome of a probe of server `s` of pool `p`: the status of
    /// the answer, or none when the probe failed or timed out. The server is
    /// healthy exactly when a 2xx or 3xx answer came back.
    pub fn record_probe(&mut self, p: usize, s: usize, status: Option<u16>)
        requires
            p < old(self).pools@.len(),
            s < old(self).pools@[p as int].servers@.len(),
        ensures
            pools_updated(
                old(self).pools@,
                final(self).pools@,
                p as int,
                s as int,
                UpstreamServer {
                    healthy: probe_succeeded(status),
                    ..old(self).pools@[p as int].servers@[s as int]
                },
                old(self).pools@[p as int].load_balancer.counter,
            ),
    {
        let ok = match status {
            Some(code) => 200 <= code && code < 400,
            None => false,
        };
        self.pools[p].set_health(s, ok);
    }

    /// One health sweep at `now`: marks every server whose probe is due as probed
    /// and lists them as (pool, server), pool by pool.
    pub fn due_probes(&mut self, now: u64) -> (r: Vec<(usize, usize)>)
        ensures
            final(self).pools@.len() == old(self).pools@.len(),
            forall|q: int|
                0 <= q < old(self).pools@.len() ==> swept(
                    #[trigger] old(self).pools@[q],
                    final(self).pools@[q],
                    now,
                ),
            forall|k: int|
                0 <= k < r@.len() ==> {
                    let (q, j) = #[trigger] r@[k];
                    &&& q < old(self).pools@.len()
                    &&& j < old(self).pools@[q as int].servers@.len()
                    &&& probe_due(
                        old(self).pools@[q as int].health,
                        old(self).pools@[q as int].servers@[j as int],
                        now,
                    )
                },
            forall|q: int, j: int|
                0 <= q < old(self).pools@.len() && 0 <= j < old(self).pools@[q].servers@.len()
                    && probe_due(
                    old(self).pools@[q].health,
                    #[trigger] old(self).pools@[q].servers@[j],
                    now,
                ) ==> exists|k: int| 0 <= k < r@.len() && #[trigger] r@[k] == (q as usize, j as usize),
    {
        let ghost a = self.pools@;
        let mut r: Vec<(usize, usize)> = Vec::new();
        let mut q: usize = 0;
        while q < self.pools.len()
            invariant
                q <= self.pools@.len() == a.len(),
                forall|m: int| 0 <= m < q ==> swept(#[trigger] a[m], self.pools@[m], now),
                forall|m: int| q <= m < a.len() ==> #[trigger] self.pools@[m] == a[m],
                forall|k: int|
                    0 <= k < r@.len() ==> {
                        let (m, j) = #[trigger] r@[k];
                        &&& m < q
                        &&& j < a[m as int].servers@.len()
                        &&& probe_due(a[m as int].health, a[m as int].servers@[j as int], now)
                    },
                forall|m: int, j: int|
                    0 <= m < q && 0 <= j < a[m].servers@.len() && probe_due(
                        a[m].health,
                        #[trigger] a[m].servers@[j],
                        now,
                    ) ==> exists|k: int| 0 <= k < r@.len() && #[trigger] r@[k] == (m as usize, j as usize),
            decreases a.len() - q,
        {
            let due = self.pools[q].due_servers(now);
            let ghost r0 = r@;
            let mut k: usize = 0;
            while k < due.len()
                invariant
                    q < a.len(),
                    r0.len() <= r@.len(),
                    r@.subrange(0, r0.len() as int) == r0,
                    k <= due@.len(),
                    r@.len() == r0.len() + k,
                    forall|i: int| 0 <= i < k ==> #[trigger] r@[r0.len() + i] == (q, due@[i]),
                    forall|i: int|
                        0 <= i < due@.len() ==> #[trigger] due@[i] < a[q as int].servers@.len()
                            && probe_due(a[q as int].health, a[q as int].servers@[due@[i] as int], now),
                    forall|i: int|
                        0 <= i < r0.len() ==> {
                            let (m, j) = #[trigger] r0[i];
                            &&& m < q
                            &&& j < a[m as int].servers@.len()
                            &&& probe_due(a[m as int].health, a[m as int].servers@[j as int], now)
                        },
                decreases due@.len() - k,
            {
                r.push((q, due[k]));
                proof {
                    assert(r@.subrange(0, r0.len() as int) =~= r0);
                }
                k += 1;
            }
            proof {
                assert forall|m: int, j: int|
                    0 <= m < q + 1 && 0 <= j < a[m].servers@.len() && probe_due(
                        a[m].health,
                        #[trigger] a[m].servers@[j],
                        now,
                    ) implies exists|k: int| 0 <= k < r@.len() && #[trigger] r@[k] == (m as usize, j as usize) by {
                    if m < q {
                        let k0 = choose|k: int| 0 <= k < r0.len() && #[trigger] r0[k] == (m as usize, j as usize);
                        assert(r@[k0] == r0[k0]);
                    } else {
                        let i = choose|i: int| 0 <= i < due@.len() && #[trigger] due@[i] == j as usize;
                        assert(r@[r0.len() + i] == (q, due@[i]));
                    }
                }
                assert forall|k: int| 0 <= k < r@.len() implies {
                    let (m, j) = #[trigger] r@[k];
                    &&& m < q + 1
                    &&& j < a[m as int].servers@.len()
                    &&& probe_due(a[m as int].health, a[m as int].servers@[j as int], now)
                } by {
                    if k < r0.len() {
                        assert(r@[k] == r0[k]);
                    } else {
                        assert(r@[r0.len() + (k - r0.len())] == (q, due@[k - r0.len()]));
                    }
                }
            }
            q += 1;
        }
        r
    }

    /// Chooses the server that a request for upstream `name` goes to and counts
    /// the request as in flight there. `random` is the entropy of the `Random`
    /// policy. Gives the pool and the server.
    pub fn begin_forward(&mut self, name: &str, random: u64) -> (r: Result<(usize, usize), ProxyError>)
        ensures
            !has_pool(old(self).pools@, name@) <==> r == Err::<(usize, usize), ProxyError>(
                ProxyError::UnknownUpstream,
            ),
            r == Err::<(usize, usize), ProxyError>(ProxyError::NoHealthyServers) <==> exists|p: int|
                first_pool(old(self).pools@, name@, p) && healthy_positions(
                    #[trigger] old(self).pools@[p].servers@,
                ).len() == 0,
            r is Err ==> same_pools(old(self).pools@, final(self).pools@),
            r matches Ok((p, s)) ==> {
                let pool = old(self).pools@[p as int];
                let srv = pool.servers@[s as int];
                &&& first_pool(old(self).pools@, name@, p as int)
                &&& picks(
                    pool.servers@,
                    pool.load_balancer.method,
                    pool.load_balancer.counter,
                    random,
                    Some(s),
                )
                &&& pools_updated(
                    old(self).pools@,
                    final(self).pools@,
                    p as int,
                    s as int,
                    UpstreamServer {
                        connections: if srv.connections < u64::MAX {
                            (srv.connections + 1) as u64
                        } else {
                            srv.connections
                        },
                        ..srv
                    },
                    counter_after(pool.servers@, pool.load_balancer.method, pool.load_balancer.counter),
                )
            },
    {
        let p = match self.find_pool(name) {
            Some(p) => p,
            None => return Err(ProxyError::UnknownUpstream),
        };
        let ghost pool = self.pools@[p as int];
        let chosen = self.pools[p].select_server(random);
        let s = match chosen {
            Some(s) => s,
            None => {
                proof {
                    lemma_healthy_positions(pool.servers@);
                }
                return Err(ProxyError::NoHealthyServers);
            },
        };
        self.pools[p].start_request(s);
        Ok((p, s))
    }
}

} // verus!
