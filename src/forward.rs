use crate::config::opt_text;
use vstd::prelude::*;
use vstd::string::StringExecFns;

verus! {

/// What `http::Uri` makes of `s`: its scheme and its authority, each if present,
/// or none when `s` is not a URI.
pub uninterp spec fn uri_scheme_authority(s: Seq<char>) -> Option<(Option<Seq<char>>, Option<Seq<char>>)>;

/// Relies on parsing an `http::Uri`, then `Uri::scheme_str` and `Uri::authority`.
#[verifier::external_body]
fn parse_uri(s: &str) -> (r: Option<(Option<String>, Option<String>)>)
    ensures
        r is None <==> uri_scheme_authority(s@) is None,
        r matches Some(p) ==> uri_scheme_authority(s@) == Some((opt_text(p.0), opt_text(p.1))),
{
    s.parse::<http::Uri>().ok().map(
        |u| (u.scheme_str().map(|x| x.to_string()), u.authority().map(|a| a.as_str().to_string())),
    )
}

/// The target of a forwarded request: the upstream's scheme (`http` when it has
/// none) and authority with the client's path and query. None when the upstream
/// URL does not parse or has no authority.
pub open spec fn forward_target(upstream_url: Seq<char>, path_and_query: Seq<char>) -> Option<Seq<char>> {
    match uri_scheme_authority(upstream_url) {
        Some((scheme, Some(authority))) => Some(
            match scheme {
                Some(s) => s,
                None => "http"@,
            } + "://"@ + authority + path_and_query,
        ),
        _ => None,
    }
}

/// Headers that belong to one connection and are not forwarded.
pub open spec fn hop_by_hop(name: Seq<char>) -> bool {
    name == "connection"@ || name == "upgrade"@ || name == "proxy-connection"@
}

/// The headers of `h`, in order, without the hop-by-hop ones.
pub open spec fn end_to_end(h: Seq<(Seq<char>, Seq<char>)>) -> Seq<(Seq<char>, Seq<char>)>
    decreases h.len(),
{
    if h.len() == 0 {
        Seq::empty()
    } else {
        let rest = end_to_end(h.drop_last());
        if hop_by_hop(h.last().0) {
            rest
        } else {
            rest.push(h.last())
        }
    }
}

/// The headers sent upstream: the client's end-to-end headers, with
/// `x-forwarded-for` set to the client address when the client sent none.
pub open spec fn forwarded_headers(h: Seq<(Seq<char>, Seq<char>)>, client_ip: Seq<char>) -> Seq<(Seq<char>, Seq<char>)> {
    let kept = end_to_end(h);
    if exists|i: int| 0 <= i < kept.len() && (#[trigger] kept[i]).0 == "x-forwarded-for"@ {
        kept
    } else {
        kept.push(("x-forwarded-for"@, client_ip))
    }
}

/// The views of a list of header pairs.
pub open spec fn pair_texts(h: Seq<(String, String)>) -> Seq<(Seq<char>, Seq<char>)> {
    h.map_values(|p: (String, String)| (p.0@, p.1@))
}

/// The URI a request is forwarded to.
pub fn forward_uri(upstream_url: &str, path_and_query: &str) -> (r: Option<String>)
    ensures
        r is None <==> forward_target(upstream_url@, path_and_query@) is None,
        r is Some ==> forward_target(upstream_url@, path_and_query@) == Some(r->0@),
{
    match parse_uri(upstream_url) {
        Some((scheme, Some(authority))) => {
            let mut t = match scheme {
                Some(s) => s,
                None => "http".to_string(),
            };
            t.append("://");
            t.append(authority.as_str());
            t.append(path_and_query);
            Some(t)
        },
        _ => None,
    }
}

/// The request headers sent upstream, with lower-case names.
pub fn forward_headers(headers: &Vec<(String, String)>, client_ip: &str) -> (r: Vec<(String, String)>)
    ensures
        pair_texts(r@) == forwarded_headers(pair_texts(headers@), client_ip@),
{
    let connection = "connection".to_string();
    let upgrade = "upgrade".to_string();
    let proxy_connection = "proxy-connection".to_string();
    let xff = "x-forwarded-for".to_string();
    let mut r: Vec<(String, String)> = Vec::new();
    let mut has_xff = false;
    let mut i: usize = 0;
    while i < headers.len()
        invariant
            connection@ == "connection"@,
            upgrade@ == "upgrade"@,
            proxy_connection@ == "proxy-connection"@,
            xff@ == "x-forwarded-for"@,
            i <= headers@.len(),
            pair_texts(r@) == end_to_end(pair_texts(headers@.subrange(0, i as int))),
            has_xff == exists|k: int| 0 <= k < r@.len() && (#[trigger] pair_texts(r@)[k]).0 == "x-forwarded-for"@,
        decreases headers@.len() - i,
    {
        let (name, value) = &headers[i];
        let ghost before = r@;
        let ghost old_has = has_xff;
        proof {
            assert(pair_texts(headers@.subrange(0, i + 1)).drop_last() =~= pair_texts(headers@.subrange(0, i as int)));
            assert(pair_texts(headers@.subrange(0, i + 1)).last() == (name@, value@));
        }
        if !(*name == connection || *name == upgrade || *name == proxy_connection) {
            if *name == xff {
                has_xff = true;
            }
            r.push((name.clone(), value.clone()));
            proof {
                assert(pair_texts(r@) =~= pair_texts(before).push((name@, value@)));
                assert(has_xff == exists|k: int| 0 <= k < r@.len() && (#[trigger] pair_texts(r@)[k]).0 == "x-forwarded-for"@) by {
                    if old_has {
                        let k = choose|k: int| 0 <= k < before.len() && (#[trigger] pair_texts(before)[k]).0 == "x-forwarded-for"@;
                        assert(pair_texts(r@)[k] == pair_texts(before)[k]);
                    }
                    if *name == xff {
                        assert(pair_texts(r@)[before.len() as int].0 == "x-forwarded-for"@);
                    }
                    if !has_xff {
                        assert forall|k: int| 0 <= k < r@.len() implies (#[trigger] pair_texts(r@)[k]).0 != "x-forwarded-for"@ by {
                            if k < before.len() {
                                assert(pair_texts(r@)[k] == pair_texts(before)[k]);
                            }
                        }
                    }
                }
            }
        }
        i += 1;
    }
    assert(headers@.subrange(0, headers@.len() as int) =~= headers@);
    if !has_xff {
        let ghost before = r@;
        r.push((xff, client_ip.to_string()));
        assert(pair_texts(r@) =~= pair_texts(before).push(("x-forwarded-for"@, client_ip@)));
    }
    r
}

} // verus!
