use rustweb::config::{LocationConfig, VirtualHostConfig};
use rustweb::named_map::NamedMap;
use rustweb::router::{find_location_config, get_virtual_host_config, matches_wildcard, route, Route};

fn location(root: Option<&str>, proxy: Option<&str>) -> LocationConfig {
    LocationConfig {
        document_root: root.map(|s| s.to_string()),
        proxy_pass: proxy.map(|s| s.to_string()),
        return_code: None,
        return_url: None,
        auth_basic: None,
        auth_basic_user_file: None,
    }
}

fn vhost(names: &[&str], root: Option<&str>, proxy: Option<&str>) -> VirtualHostConfig {
    VirtualHostConfig {
        server_name: names.iter().map(|s| s.to_string()).collect(),
        document_root: root.map(|s| s.to_string()),
        index_files: vec!["index.html".to_string()],
        proxy_pass: proxy.map(|s| s.to_string()),
        ssl: None,
        locations: NamedMap::new(),
    }
}

#[test]
fn wildcard_needs_a_label_before_the_suffix() {
    assert!(!matches_wildcard("*.example.com", "example.com"));
    assert!(matches_wildcard("*.example.com", "www.example.com"));
    assert!(matches_wildcard("*.example.com", "a.b.example.com"));
    assert!(!matches_wildcard("*.example.com", "example.org"));
    assert!(!matches_wildcard("*.example.com", "badexample.com"));
    assert!(matches_wildcard("exact.org", "exact.org"));
    assert!(!matches_wildcard("exact.org", "www.exact.org"));
}

#[test]
fn exact_key_then_first_accepting_vhost() {
    let mut vhosts = NamedMap::new();
    vhosts.insert("site".to_string(), vhost(&["*.example.com"], Some("/a"), None));
    vhosts.insert("other".to_string(), vhost(&["*"], Some("/b"), None));
    vhosts.insert("www.example.com".to_string(), vhost(&["x"], Some("/c"), None));
    assert_eq!(get_virtual_host_config(&vhosts, "www.example.com"), Some(2));
    assert_eq!(get_virtual_host_config(&vhosts, "api.example.com"), Some(0));
    assert_eq!(get_virtual_host_config(&vhosts, "example.com"), Some(1));

    let mut strict = NamedMap::new();
    strict.insert("site".to_string(), vhost(&["*.example.com"], Some("/a"), None));
    assert_eq!(get_virtual_host_config(&strict, "example.com"), None);
}

#[test]
fn longest_location_prefix_wins() {
    let mut v = vhost(&["*"], Some("/root"), None);
    v.locations.insert("/".to_string(), location(Some("/l1"), None));
    v.locations.insert("/api/v1".to_string(), location(None, Some("v1")));
    v.locations.insert("/api".to_string(), location(None, Some("api")));
    assert_eq!(find_location_config(&v, "/api/v1/users"), Some(1));
    assert_eq!(find_location_config(&v, "/api/v2"), Some(2));
    assert_eq!(find_location_config(&v, "/index.html"), Some(0));
    assert_eq!(find_location_config(&v, "nothing"), None);
}

#[test]
fn routing_prefers_proxy_then_root() {
    let mut v = vhost(&["*"], Some("/root"), None);
    v.locations.insert("/api".to_string(), location(None, Some("backend")));
    v.locations.insert("/static".to_string(), location(Some("/assets"), None));
    let mut vhosts = NamedMap::new();
    vhosts.insert("main".to_string(), v);
    match route(&vhosts, "any.host", "/api/x") {
        Route::Proxy(name) => assert_eq!(name, "backend"),
        other => panic!("unexpected {:?}", other),
    }
    match route(&vhosts, "any.host", "/static/a.css") {
        Route::Static(root, index) => {
            assert_eq!(root, "/assets");
            assert_eq!(index, vec!["index.html".to_string()]);
        },
        other => panic!("unexpected {:?}", other),
    }
    match route(&vhosts, "any.host", "/page") {
        Route::Static(root, _) => assert_eq!(root, "/root"),
        other => panic!("unexpected {:?}", other),
    }
    let empty: NamedMap<VirtualHostConfig> = NamedMap::new();
    assert!(matches!(route(&empty, "x", "/"), Route::NotFound));
}
