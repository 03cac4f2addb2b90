use crate::config::{texts, LocationConfig, VirtualHostConfig};
use crate::named_map::{first_named, has_name, NamedMap};
use crate::text::{str_ends_with, str_starts_with};
use vstd::prelude::*;
use vstd::string::StringExecFns;

verus! {

/// The server-name rule: `*.suffix` accepts a host that ends with `.suffix`, so
/// the suffix starts after a dot; any other pattern accepts only the host equal
/// to it.
pub open spec fn wildcard_matches(pattern: Seq<char>, host: Seq<char>) -> bool {
    if "*."@.is_prefix_of(pattern) {
        let suffix = pattern.subrange(2, pattern.len() as int);
        ("."@ + suffix).is_suffix_of(host)
    } else {
        pattern == host
    }
}

/// A server-name entry accepts a host when it is `*` or when the wildcard rule holds.
pub open spec fn name_accepts(name: Seq<char>, host: Seq<char>) -> bool {
    name == "*"@ || wildcard_matches(name, host)
}

/// Some server name of `v` accepts `host`.
pub open spec fn vhost_accepts(v: VirtualHostConfig, host: Seq<char>) -> bool {
    exists|k: int| 0 <= k < v.server_name@.len() && name_accepts(#[trigger] v.server_name@[k]@, host)
}

/// `i` is the first virtual host, in configuration order, that some server name of
/// it accepts `host`.
pub open spec fn first_accepting(
    vhosts: Seq<(Seq<char>, VirtualHostConfig)>,
    host: Seq<char>,
    i: int,
) -> bool {
    &&& 0 <= i < vhosts.len()
    &&& vhost_accepts(vhosts[i].1, host)
    &&& forall|j: int| 0 <= j < i ==> !vhost_accepts(#[trigger] vhosts[j].1, host)
}

/// What virtual-host lookup gives for `host`: the entry keyed by `host` itself,
/// else the first whose server names accept it, else none.
pub open spec fn resolves_vhost(
    vhosts: Seq<(Seq<char>, VirtualHostConfig)>,
    host: Seq<char>,
    r: Option<usize>,
) -> bool {
    match r {
        Some(i) => if has_name(vhosts, host) {
            first_named(vhosts, host, i as int)
        } else {
            first_accepting(vhosts, host, i as int)
        },
        None => !has_name(vhosts, host) && forall|j: int|
            0 <= j < vhosts.len() ==> !vhost_accepts(#[trigger] vhosts[j].1, host),
    }
}

/// `i` is a location whose prefix starts `path` and no other such prefix is longer.
pub open spec fn longest_location(
    locs: Seq<(Seq<char>, LocationConfig)>,
    path: Seq<char>,
    i: int,
) -> bool {
    &&& 0 <= i < locs.len()
    &&& locs[i].0.is_prefix_of(path)
    &&& forall|j: int|
        0 <= j < locs.len() && (#[trigger] locs[j].0).is_prefix_of(path) ==> locs[j].0.len()
            <= locs[i].0.len()
}

/// Location lookup for `path`: the longest matching prefix, or none when no prefix matches.
pub open spec fn resolves_location(
    locs: Seq<(Seq<char>, LocationConfig)>,
    path: Seq<char>,
    r: Option<usize>,
) -> bool {
    match r {
        Some(i) => longest_location(locs, path, i as int),
        None => forall|j: int| 0 <= j < locs.len() ==> !(#[trigger] locs[j].0).is_prefix_of(path),
    }
}

/// Applies the server-name rule of `pattern` to `host`.
pub fn matches_wildcard(pattern: &str, host: &str) -> (r: bool)
    ensures
        r == wildcard_matches(pattern@, host@),
{
    if str_starts_with(pattern, "*.") {
        proof {
            reveal_strlit("*.");
        }
        let n = pattern.unicode_len();
        let suffix = pattern.substring_char(2, n);
        let mut dotted = ".".to_string();
        dotted.append(suffix);
        str_ends_with(host, dotted.as_str())
    } else {
        let p = pattern.to_string();
        let h = host.to_string();
        p == h
    }
}

fn accepts_host(v: &VirtualHostConfig, host: &str) -> (r: bool)
    ensures
        r == vhost_accepts(*v, host@),
{
    proof {
        reveal_strlit("*");
    }
    let star = "*".to_string();
    let mut k: usize = 0;
    while k < v.server_name.len()
        invariant
            k <= v.server_name@.len(),
            star@ == "*"@,
            forall|m: int| 0 <= m < k ==> !name_accepts(#[trigger] v.server_name@[m]@, host@),
        decreases v.server_name@.len() - k,
    {
        let name = &v.server_name[k];
        if *name == star || matches_wildcard(name.as_str(), host) {
            return true;
        }
        k += 1;
    }
    false
}

/// The virtual host that serves `host` (without port): the one keyed by `host`,
/// else the first whose server names accept it.
pub fn get_virtual_host_config(vhosts: &NamedMap<VirtualHostConfig>, host: &str) -> (r: Option<usize>)
    ensures
        resolves_vhost(vhosts@, host@, r),
        r matches Some(i) ==> i < vhosts@.len(),
{
    if let Some(i) = vhosts.position(host) {
        return Some(i);
    }
    let mut i: usize = 0;
    while i < vhosts.len()
        invariant
            i <= vhosts@.len(),
            !has_name(vhosts@, host@),
            forall|j: int| 0 <= j < i ==> !vhost_accepts(#[trigger] vhosts@[j].1, host@),
        decreases vhosts@.len() - i,
    {
        let (_, v) = vhosts.entry(i);
        if accepts_host(v, host) {
            return Some(i);
        }
        i += 1;
    }
    None
}

/// The location of `vhost` with the longest prefix of `path`.
pub fn find_location_config(vhost: &VirtualHostConfig, path: &str) -> (r: Option<usize>)
    ensures
        resolves_location(vhost.locations@, path@, r),
{
    let locs = &vhost.locations;
    let mut best: Option<usize> = None;
    let mut best_len: usize = 0;
    let mut i: usize = 0;
    while i < locs.len()
        invariant
            i <= locs@.len(),
            match best {
                Some(b) => {
                    &&& b < i
                    &&& best_len == locs@[b as int].0.len()
                    &&& locs@[b as int].0.is_prefix_of(path@)
                    &&& forall|j: int|
                        0 <= j < i && (#[trigger] locs@[j].0).is_prefix_of(path@) ==> locs@[j].0.len()
                            <= best_len
                },
                None => forall|j: int| 0 <= j < i ==> !(#[trigger] locs@[j].0).is_prefix_of(path@),
            },
        decreases locs@.len() - i,
    {
        let (prefix, _) = locs.entry(i);
        if str_starts_with(path, prefix.as_str()) {
            let len = prefix.unicode_len();
            if best.is_none() || len > best_len {
                best = Some(i);
                best_len = len;
            }
        }
        i += 1;
    }
    best
}

/// A `*.suffix` pattern refuses the bare suffix and accepts any host that adds a
/// label and a dot in front of it.
pub proof fn lemma_wildcard_boundary(suffix: Seq<char>, label: Seq<char>)
    ensures
        !wildcard_matches("*."@ + suffix, suffix),
        wildcard_matches("*."@ + suffix, label + "."@ + suffix),
{
    reveal_strlit("*.");
    reveal_strlit(".");
    let pattern = "*."@ + suffix;
    assert("*."@.is_prefix_of(pattern)) by {
        assert(pattern.subrange(0, 2) =~= "*."@);
    }
    assert(pattern.subrange(2, pattern.len() as int) =~= suffix);
    let host = label + "."@ + suffix;
    assert(host.subrange(host.len() - suffix.len() - 1, host.len() as int) =~= "."@ + suffix);
}

/// A host that merely ends with the suffix, without a dot before it, does not
/// match `*.suffix`: `*.example.com` refuses `badexample.com`.
pub proof fn lemma_wildcard_needs_dot(suffix: Seq<char>, prefix: Seq<char>)
    requires
        prefix.len() > 0,
        prefix.last() != '.',
    ensures
        !wildcard_matches("*."@ + suffix, prefix + suffix),
{
    reveal_strlit("*.");
    reveal_strlit(".");
    let pattern = "*."@ + suffix;
    assert("*."@.is_prefix_of(pattern)) by {
        assert(pattern.subrange(0, 2) =~= "*."@);
    }
    assert(pattern.subrange(2, pattern.len() as int) =~= suffix);
    let host = prefix + suffix;
    let d = "."@ + suffix;
    if d.is_suffix_of(host) {
        let i = host.len() - d.len();
        assert(host.subrange(i, host.len() as int)[0] == d[0]);
        assert(host[i] == prefix.last());
    }
}

} // verus!

verus! {

/// Where a request goes, as routing decides it.
pub ghost enum RouteSpec {
    Proxy(Seq<char>),
    Static(Seq<char>, Seq<Seq<char>>),
    NotFound,
}

/// Where a request goes.
#[derive(Debug)]
pub enum Route {
    /// To the upstream pool of this name.
    Proxy(String),
    /// To the files under this document root, with these index file names.
    Static(String, Vec<String>),
    NotFound,
}

impl Route {
    pub open spec fn spec_of(&self) -> RouteSpec {
        match self {
            Route::Proxy(t) => RouteSpec::Proxy(t@),
            Route::Static(root, index) => RouteSpec::Static(root@, texts(index@)),
            Route::NotFound => RouteSpec::NotFound,
        }
    }
}

/// The routing decision once the virtual host `vi` and location `li` are known:
/// a proxy target (location before virtual host) wins over a document root
/// (location before virtual host); without either the request is not found.
pub open spec fn route_decision(
    vhosts: Seq<(Seq<char>, VirtualHostConfig)>,
    vi: Option<usize>,
    li: Option<usize>,
) -> RouteSpec {
    match vi {
        None => RouteSpec::NotFound,
        Some(v) => {
            let vh = vhosts[v as int].1;
            let loc: Option<LocationConfig> = match li {
                Some(l) => Some(vh.locations@[l as int].1),
                None => None,
            };
            let proxy = match loc {
                Some(lc) if lc.proxy_pass is Some => lc.proxy_pass,
                _ => vh.proxy_pass,
            };
            let root = match loc {
                Some(lc) if lc.document_root is Some => lc.document_root,
                _ => vh.document_root,
            };
            if proxy is Some {
                RouteSpec::Proxy(proxy->0@)
            } else if root is Some {
                RouteSpec::Static(root->0@, texts(vh.index_files@))
            } else {
                RouteSpec::NotFound
            }
        },
    }
}

/// `rs` is where a request for `host` and `path` goes: by the virtual host that
/// lookup gives and, within it, the longest matching location.
pub open spec fn routes_to(
    vhosts: Seq<(Seq<char>, VirtualHostConfig)>,
    host: Seq<char>,
    path: Seq<char>,
    rs: RouteSpec,
) -> bool {
    exists|vi: Option<usize>, li: Option<usize>|
        resolves_vhost(vhosts, host, vi) && (vi matches Some(v) ==> resolves_location(
            vhosts[v as int].1.locations@,
            path,
            li,
        )) && (vi is None ==> li is None) && rs == #[trigger] route_decision(vhosts, vi, li)
}

fn clone_texts(v: &Vec<String>) -> (r: Vec<String>)
    ensures
        texts(r@) == texts(v@),
{
    let mut r: Vec<String> = Vec::new();
    let mut i: usize = 0;
    while i < v.len()
        invariant
            i <= v@.len(),
            r@.len() == i,
            forall|j: int| 0 <= j < i ==> #[trigger] r@[j]@ == v@[j]@,
        decreases v@.len() - i,
    {
        r.push(v[i].clone());
        i += 1;
    }
    assert(texts(r@) =~= texts(v@));
    r
}

/// Routes a request for `host` (without port) and `path`: virtual host, then the
/// longest matching location, then the decision.
pub fn route(vhosts: &NamedMap<VirtualHostConfig>, host: &str, path: &str) -> (r: Route)
    ensures
        routes_to(vhosts@, host@, path@, r.spec_of()),
{
    let vi = get_virtual_host_config(vhosts, host);
    let v = match vi {
        Some(v) => v,
        None => {
            let r = Route::NotFound;
            assert(r.spec_of() == route_decision(vhosts@, None::<usize>, None::<usize>));
            return r;
        },
    };
    let (_, vh) = vhosts.entry(v);
    let li = find_location_config(vh, path);
    let loc: Option<&LocationConfig> = match li {
        Some(l) => {
            let (_, lc) = vh.locations.entry(l);
            Some(lc)
        },
        None => None,
    };
    let proxy: Option<&String> = match loc {
        Some(lc) if lc.proxy_pass.is_some() => lc.proxy_pass.as_ref(),
        _ => vh.proxy_pass.as_ref(),
    };
    let root: Option<&String> = match loc {
        Some(lc) if lc.document_root.is_some() => lc.document_root.as_ref(),
        _ => vh.document_root.as_ref(),
    };
    let r = if let Some(t) = proxy {
        Route::Proxy(t.clone())
    } else if let Some(d) = root {
        Route::Static(d.clone(), clone_texts(&vh.index_files))
    } else {
        Route::NotFound
    };
    assert(r.spec_of() == route_decision(vhosts@, vi, li));
    r
}

} // verus!
