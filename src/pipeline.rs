use crate::compression::{compressed, CompressionHandler};
use crate::config::{texts, Config, VirtualHostConfig};
use crate::named_map::NamedMap;
use crate::proxy::{
    counter_after, first_pool, has_pool, healthy_positions, picks, pools_updated, same_pools,
    ProxyError, ProxyHandler, UpstreamPool, UpstreamServer,
};
use crate::response::{header_texts, ErrorResponse, HttpResponse};
use crate::router::{route, routes_to, Route, RouteSpec};
use crate::security::{method_allowed, secured, SecurityHandler};
use crate::static_files::{opt_view, StaticFileHandler};
use vstd::prelude::*;

verus! {

/// What the connection loop does next with a request.
#[derive(Debug)]
pub enum Action {
    /// Send this response.
    Respond(HttpResponse),
    /// Forward the request to `url`, server `server` of pool `pool`, with a time
    /// limit in milliseconds; then report the outcome with `complete_forward`.
    Forward { pool: usize, server: usize, url: String, timeout_ms: u64 },
    /// Serve a file under `root`, trying `index_files` for a directory.
    Serve { root: String, index_files: Vec<String> },
}

/// The part of `s` before its first `:`.
pub open spec fn before_colon(s: Seq<char>) -> Seq<char>
    decreases s.len(),
{
    if s.len() == 0 || s[0] == ':' {
        Seq::empty()
    } else {
        seq![s[0]] + before_colon(s.drop_first())
    }
}

/// The host a request names: its `Host` header without the port, or `default`.
pub open spec fn request_host(host_header: Option<Seq<char>>) -> Seq<char> {
    match host_header {
        Some(h) => before_colon(h),
        None => before_colon("default"@),
    }
}

/// `r` is the action for route `rs`, with the pools going from `a` to `b`.
pub open spec fn dispatched(
    a: Seq<UpstreamPool>,
    b: Seq<UpstreamPool>,
    rs: RouteSpec,
    random: u64,
    r: Action,
) -> bool {
    match rs {
        RouteSpec::NotFound => same_pools(a, b) && (r matches Action::Respond(resp) && resp.status
            == 404),
        RouteSpec::Static(root, index) => same_pools(a, b) && (r matches Action::Serve {
            root: ro,
            index_files: ix,
        } && ro@ == root && texts(ix@) == index),
        RouteSpec::Proxy(name) => if !has_pool(a, name) || exists|p: int|
            first_pool(a, name, p) && healthy_positions(#[trigger] a[p].servers@).len() == 0 {
            same_pools(a, b) && (r matches Action::Respond(resp) && resp.status == 502)
        } else {
            (r matches Action::Forward { pool, server, url, timeout_ms } && {
                let pl = a[pool as int];
                let srv = pl.servers@[server as int];
                &&& first_pool(a, name, pool as int)
                &&& picks(pl.servers@, pl.load_balancer.method, pl.load_balancer.counter, random, Some(server))
                &&& pools_updated(
                    a,
                    b,
                    pool as int,
                    server as int,
                    UpstreamServer {
                        connections: if srv.connections < u64::MAX {
                            (srv.connections + 1) as u64
                        } else {
                            srv.connections
                        },
                        ..srv
                    },
                    counter_after(pl.servers@, pl.load_balancer.method, pl.load_balancer.counter),
                )
                &&& url@ == srv.url@
                &&& timeout_ms == pl.read_timeout
            })
        },
    }
}

/// `r` is the action for a request whose method is allowed, once the rate
/// limit is known: when the client's bucket is empty, 429 with a `retry-after`
/// of 60 seconds and no routing; otherwise the action for the routed request.
pub open spec fn admitted(
    a: Seq<UpstreamPool>,
    b: Seq<UpstreamPool>,
    vhosts: Seq<(Seq<char>, VirtualHostConfig)>,
    token_ok: bool,
    host: Seq<char>,
    path: Seq<char>,
    random: u64,
    r: Action,
) -> bool {
    if !token_ok {
        same_pools(a, b) && (r matches Action::Respond(resp) && resp.status == 429 && header_texts(
            resp.headers@,
        ) == seq![("content-type"@, "text/html"@), ("retry-after"@, "60"@)])
    } else {
        exists|rs: RouteSpec| routes_to(vhosts, host, path, rs) && #[trigger] dispatched(a, b, rs, random, r)
    }
}

/// The request pipeline: method and rate checks, routing, and the choice between
/// an upstream and the file system; then security headers and compression on the
/// way out. It reads only its own state; the upstream pools, which requests
/// change, are handed to the calls that need them.
pub struct RequestHandler {
    pub virtual_hosts: NamedMap<VirtualHostConfig>,
    pub static_handler: StaticFileHandler,
    pub security_handler: SecurityHandler,
    pub compression_handler: CompressionHandler,
}

impl RequestHandler {
    /// A pipeline for `config`; its upstream pools come from `ProxyHandler::new`.
    pub fn new(config: Config) -> (r: Self)
        ensures
            r.virtual_hosts@ == config.virtual_hosts@,
            r.security_handler.config == config.security,
            r.security_handler.limits() == config.security.enable_rate_limiting,
            r.compression_handler.config == config.compression,
    {
        let Config { server: _, logging: _, security, compression, upstream: _, virtual_hosts } = config;
        RequestHandler {
            virtual_hosts,
            static_handler: StaticFileHandler::new(),
            security_handler: SecurityHandler::new(security),
            compression_handler: CompressionHandler::new(compression),
        }
    }

    /// The host of a request: its `Host` header up to the first `:`, or `default`.
    pub fn get_host_from_request(host_header: Option<&str>) -> (r: String)
        ensures
            r@ == request_host(opt_view(host_header)),
    {
        let h = match host_header {
            Some(h) => h,
            None => "default",
        };
        let n = h.unicode_len();
        let mut k: usize = 0;
        assert(h@.subrange(0, 0) + before_colon(h@.subrange(0, n as int)) =~= before_colon(h@)) by {
            assert(h@.subrange(0, n as int) =~= h@);
        }
        while k < n && h.get_char(k) != ':'
            invariant
                n == h@.len(),
                k <= n,
                before_colon(h@) == h@.subrange(0, k as int) + before_colon(h@.subrange(k as int, n as int)),
            decreases n - k,
        {
            proof {
                let rest = h@.subrange(k as int, n as int);
                assert(rest.drop_first() =~= h@.subrange(k + 1, n as int));
                assert(h@.subrange(0, k as int) + seq![h@[k as int]] =~= h@.subrange(0, k + 1));
            }
            k += 1;
        }
        proof {
            let rest = h@.subrange(k as int, n as int);
            assert(before_colon(rest) == Seq::<char>::empty());
            assert(h@.subrange(0, k as int) + Seq::<char>::empty() =~= h@.subrange(0, k as int));
        }
        h.substring_char(0, k).to_string()
    }

    /// The action for a request once it has passed the method and rate checks.
    pub fn dispatch(&self, proxy: &mut ProxyHandler, route: Route, random: u64) -> (r: Action)
        ensures
            dispatched(old(proxy).pools@, final(proxy).pools@, route.spec_of(), random, r),
    {
        match route {
            Route::NotFound => Action::Respond(ErrorResponse::not_found().build()),
            Route::Static(root, index_files) => Action::Serve { root, index_files },
            Route::Proxy(name) => {
                let ghost a = proxy.pools@;
                match proxy.begin_forward(name.as_str(), random) {
                    Ok((pool, server)) => {
                        proof {
                            assert forall|p: int| first_pool(a, name@, p) implies p == pool by {
                                if p < pool {
                                    assert(a[p].name@ != name@);
                                } else if p > pool {
                                    assert(a[pool as int].name@ != name@);
                                }
                            }
                            assert(has_pool(a, name@));
                        }
                        let url = proxy.pools[pool].servers[server].url.clone();
                        let timeout_ms = proxy.pools[pool].read_timeout;
                        Action::Forward { pool, server, url, timeout_ms }
                    },
                    Err(e) => {
                        proof {
                            match e {
                                ProxyError::UnknownUpstream => {},
                                ProxyError::NoHealthyServers => {},
                            }
                        }
                        Action::Respond(ErrorResponse::bad_gateway().build())
                    },
                }
            },
        }
    }

    /// The action once the method is allowed, given whether the rate limiter
    /// granted the client a token (`token_ok`): 429 without routing when it did
    /// not, else the routed action.
    pub fn after_gate(
        &self,
        proxy: &mut ProxyHandler,
        token_ok: bool,
        host_header: Option<&str>,
        path: &str,
        random: u64,
    ) -> (r: Action)
        ensures
            admitted(
                old(proxy).pools@,
                final(proxy).pools@,
                self.virtual_hosts@,
                token_ok,
                request_host(opt_view(host_header)),
                path@,
                random,
                r,
            ),
    {
        if !token_ok {
            let resp = ErrorResponse::too_many_requests().build();
            return Action::Respond(resp);
        }
        let host = Self::get_host_from_request(host_header);
        let rt = route(&self.virtual_hosts, host.as_str(), path);
        let ghost rs = rt.spec_of();
        let r = self.dispatch(proxy, rt, random);
        assert(dispatched(old(proxy).pools@, proxy.pools@, rs, random, r));
        r
    }

    /// The decisions for one request, in order: the method must be allowed (405),
    /// the client must have a token (429), then routing picks an upstream, the
    /// file system or 404. `client` keys the rate limit; `random` is the entropy
    /// of the `Random` policy.
    pub fn process_request(
        &self,
        proxy: &mut ProxyHandler,
        method: &str,
        client: &str,
        host_header: Option<&str>,
        path: &str,
        random: u64,
    ) -> (r: Action)
        ensures
            !method_allowed(self.security_handler.config.allowed_methods@, method@) ==> same_pools(
                old(proxy).pools@,
                final(proxy).pools@,
            ) && (r matches Action::Respond(resp) && resp.status == 405),
            method_allowed(self.security_handler.config.allowed_methods@, method@) ==> exists|token_ok: bool|
                (!self.security_handler.limits() ==> token_ok) && #[trigger] admitted(
                    old(proxy).pools@,
                    final(proxy).pools@,
                    self.virtual_hosts@,
                    token_ok,
                    request_host(opt_view(host_header)),
                    path@,
                    random,
                    r,
                ),
    {
        if !self.security_handler.check_method(method) {
            return Action::Respond(ErrorResponse::method_not_allowed().build());
        }
        let token_ok = self.security_handler.check_rate_limit(client);
        self.after_gate(proxy, token_ok, host_header, path, random)
    }

    /// The response to a forwarded request, once it is known: the upstream's
    /// response, or 502 when forwarding failed (`None`), which also marks the
    /// server unhealthy. The request no longer counts as in flight.
    pub fn complete_forward(
        proxy: &mut ProxyHandler,
        pool: usize,
        server: usize,
        outcome: Option<HttpResponse>,
    ) -> (r: HttpResponse)
        requires
            pool < old(proxy).pools@.len(),
            server < old(proxy).pools@[pool as int].servers@.len(),
        ensures
            ({
                let srv = old(proxy).pools@[pool as int].servers@[server as int];
                pools_updated(
                    old(proxy).pools@,
                    final(proxy).pools@,
                    pool as int,
                    server as int,
                    UpstreamServer {
                        connections: if srv.connections > 0 {
                            (srv.connections - 1) as u64
                        } else {
                            0
                        },
                        healthy: srv.healthy && outcome is Some,
                        ..srv
                    },
                    old(proxy).pools@[pool as int].load_balancer.counter,
                )
            }),
            match outcome {
                Some(resp) => r == resp,
                None => r.status == 502,
            },
    {
        let ok = outcome.is_some();
        proxy.finish_forward(pool, server, ok);
        match outcome {
            Some(resp) => resp,
            None => ErrorResponse::bad_gateway().build(),
        }
    }

    /// The way out: security headers, then compression by the client's
    /// `Accept-Encoding`.
    pub fn finish_response(&self, response: HttpResponse, accept_encoding: &str) -> (r: HttpResponse)
        ensures
            exists|mid: HttpResponse|
                secured(self.security_handler.config, response, mid) && #[trigger] compressed(
                    self.compression_handler.config,
                    mid,
                    accept_encoding@,
                    r,
                ),
    {
        let with_headers = self.security_handler.add_security_headers(response);
        self.compression_handler.compress_response_with_encoding(with_headers, accept_encoding)
    }
}

} // verus!
