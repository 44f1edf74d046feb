use bsz::count::{count, get, get_keys, put, Counts, KeyPolicy};
use bsz::request::{logged_ip, client_ip, derive_identity, identity_cookie, parse_referer, referer_from_parts, RefererError};
use bsz::store::{get_page, get_site, incr_page, incr_site, store_stats, Store};

fn counts(site_pv: u64, site_uv: u64, page_pv: u64) -> Counts {
    Counts { site_pv, site_uv, page_pv }
}

#[test]
fn fresh_counter_then_returning_cookie() {
    let mut store = Store::new();
    let (host, path) = parse_referer(Some("https://example.com/hello")).unwrap();
    assert_eq!(host, "example.com");
    assert_eq!(path, "/hello");
    let (token, fresh) = derive_identity(None, Some("1.2.3.4"), None, Some("Mozilla"));
    assert!(fresh);
    let first = count(&mut store, KeyPolicy::Plaintext, &host, &path, &token);
    assert_eq!(first, counts(1, 1, 1));
    let (again, fresh_again) = derive_identity(Some(&token), Some("1.2.3.4"), None, Some("Mozilla"));
    assert!(!fresh_again);
    assert_eq!(again, token);
    let second = count(&mut store, KeyPolicy::Plaintext, &host, &path, &again);
    assert_eq!(second, counts(2, 1, 2));
}

#[test]
fn two_distinct_visitors() {
    let mut store = Store::new();
    let (a, _) = derive_identity(None, Some("10.0.0.1"), None, Some("UA-1"));
    let (b, _) = derive_identity(None, Some("10.0.0.2"), None, Some("UA-2"));
    assert_ne!(a, b);
    count(&mut store, KeyPolicy::Plaintext, "example.com", "/p", &a);
    let last = count(&mut store, KeyPolicy::Plaintext, "example.com", "/p", &b);
    assert_eq!(last, counts(2, 2, 2));
}

#[test]
fn empty_agent_and_address_give_fixed_token() {
    let (t1, fresh1) = derive_identity(None, Some(""), None, Some(""));
    let (t2, fresh2) = derive_identity(Some(""), Some(""), None, None);
    assert!(fresh1 && fresh2);
    assert_eq!(t1.len(), 32);
    assert_eq!(t1, "D41D8CD98F00B204E9800998ECF8427E");
    assert_eq!(t1, t2);
    let mut store = Store::new();
    count(&mut store, KeyPolicy::Plaintext, "s.com", "/", &t1);
    let c = count(&mut store, KeyPolicy::Plaintext, "s.com", "/", &t2);
    assert_eq!(c, counts(2, 1, 2));
}

#[test]
fn minted_token_is_upper_hex_md5_of_ip_and_agent() {
    let (t, fresh) = derive_identity(None, Some("1.2.3.4, 5.6.7.8"), Some("9.9.9.9"), Some("Mozilla"));
    assert!(fresh);
    assert_eq!(t, "78E4787373AF3A1ADE85F67064D52D84");
}

#[test]
fn client_ip_fallbacks() {
    assert_eq!(client_ip(Some("1.1.1.1,2.2.2.2"), Some("3.3.3.3")), "1.1.1.1");
    assert_eq!(client_ip(None, Some("3.3.3.3")), "3.3.3.3");
    assert_eq!(client_ip(None, None), "127.0.0.1");
    assert_eq!(client_ip(Some(""), None), "");
}

#[test]
fn logged_address() {
    assert_eq!(logged_ip(Some(" 1.1.1.1 , 2.2.2.2"), None), "1.1.1.1");
    assert_eq!(logged_ip(None, Some("3.3.3.3")), "3.3.3.3");
    assert_eq!(logged_ip(None, None), "unknown");
}

#[test]
fn cookie_header_value() {
    assert_eq!(
        identity_cookie("ABC"),
        "busuanziId=ABC; Path=/; Max-Age=31536000; SameSite=None; Secure"
    );
}

#[test]
fn referer_errors() {
    assert_eq!(parse_referer(None), Err(RefererError::InvalidReferer));
    assert_eq!(parse_referer(Some("")), Err(RefererError::InvalidReferer));
    assert_eq!(parse_referer(Some("file:///tmp/page.html")), Err(RefererError::InvalidReferer));
    assert_eq!(parse_referer(Some("not a url")), Err(RefererError::InvalidReferer));
    assert_eq!(RefererError::InvalidReferer.message(), "invalid referer");
    let unparsable = parse_referer(Some("://nohost")).unwrap_err();
    assert_eq!(unparsable.message(), "invalid referer");
    assert_eq!(referer_from_parts(Some((Some(String::new()), "/".to_string()))), Err(RefererError::InvalidReferer));
    assert_eq!(referer_from_parts(None), Err(RefererError::InvalidReferer));
    assert_eq!(
        referer_from_parts(Some((Some("h.com".to_string()), "/a".to_string()))),
        Ok(("h.com".to_string(), "/a".to_string()))
    );
}

#[test]
fn plaintext_keys() {
    let k = get_keys(KeyPolicy::Plaintext, "example.com", "/hello");
    assert_eq!(k.site_hash, "example.com");
    assert_eq!(k.page_key, "example.com:/hello");
}

#[test]
fn hashed_keys() {
    let k = get_keys(KeyPolicy::Hashed { path_style: false }, "example.com", "/hello");
    assert_eq!(k.site_hash, "3b22780302dd8d83");
    assert_eq!(k.page_key, "3b22780302dd8d83:f9ae0a25c2cb3132");
    let p = get_keys(KeyPolicy::Hashed { path_style: true }, "example.com", "/hello");
    assert_eq!(p.page_key, "3b22780302dd8d83:12d348c9187f3b6c");
}

#[test]
fn peek_does_not_count() {
    let mut store = Store::new();
    assert_eq!(get(&store, KeyPolicy::Plaintext, "x.com", "/"), counts(0, 0, 0));
    put(&mut store, KeyPolicy::Plaintext, "x.com", "/", "v");
    assert_eq!(get(&store, KeyPolicy::Plaintext, "x.com", "/"), counts(1, 1, 1));
    assert_eq!(get(&store, KeyPolicy::Plaintext, "x.com", "/"), counts(1, 1, 1));
}

#[test]
fn site_and_page_increments() {
    let mut store = Store::new();
    assert_eq!(incr_site(&mut store, "s", "a"), (1, 1));
    assert_eq!(incr_site(&mut store, "s", "a"), (2, 1));
    assert_eq!(incr_site(&mut store, "s", "b"), (3, 2));
    assert_eq!(incr_page(&mut store, "s:/"), 1);
    assert_eq!(incr_page(&mut store, "s:/"), 2);
    assert_eq!(get_site(&store, "s"), (3, 2));
    assert_eq!(get_page(&store, "s:/"), 2);
    assert_eq!(get_site(&store, "t"), (0, 0));
}

#[test]
fn counts_match_operations_per_key() {
    let mut store = Store::new();
    let sites = ["a.com", "b.com", "c.com"];
    let mut expected_pv = [0u64; 3];
    let mut page_pv = std::collections::HashMap::new();
    let mut visitors: Vec<std::collections::HashSet<String>> = vec![Default::default(); 3];
    for i in 0..90usize {
        let s = i % 3;
        let path = format!("/p{}", i % 4);
        let token = format!("t{}", i % 7);
        count(&mut store, KeyPolicy::Plaintext, sites[s], &path, &token);
        expected_pv[s] += 1;
        *page_pv.entry(format!("{}:{}", sites[s], path)).or_insert(0u64) += 1;
        visitors[s].insert(token.clone());
    }
    for s in 0..3 {
        assert_eq!(get_site(&store, sites[s]), (expected_pv[s], visitors[s].len() as u64));
    }
    for (k, v) in page_pv {
        assert_eq!(get_page(&store, &k), v);
    }
}

#[test]
fn sync_only_raises_counters() {
    let mut store = Store::new();
    store_stats(&mut store, "a.com", "a.com:/x", "a.com", "/x", 10, 5, 3);
    assert_eq!(get_site(&store, "a.com"), (10, 5));
    assert_eq!(get_page(&store, "a.com:/x"), 3);
    store_stats(&mut store, "a.com", "a.com:/x", "a.com", "/x", 8, 7, 2);
    assert_eq!(get_site(&store, "a.com"), (10, 7));
    assert_eq!(get_page(&store, "a.com:/x"), 3);
}
