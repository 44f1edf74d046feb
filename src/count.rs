//! Key derivation, visitor identity, referer parsing and the counting
//! entry points that tie them to the store.

use crate::digest::{md5_hex, md5_hex_of};
use crate::store::{count_or_zero, get_page, get_site, incr_page, incr_site, set_labels, visitor_hash_of, Store};
use crate::text::joined;
use vstd::prelude::*;

verus! {

/// The three counters a counting request reports.
#[derive(Clone, Copy, Debug, PartialEq, Eq, Structural)]
pub struct Counts {
    pub site_pv: u64,
    pub site_uv: u64,
    pub page_pv: u64,
}

/// The site key and page key of a page.
#[derive(Debug)]
pub struct Keys {
    pub site_hash: String,
    pub page_key: String,
}

/// How (host, path) become store keys; one policy holds for a store's life.
#[derive(Clone, Copy, Debug, PartialEq, Eq, Structural)]
pub enum KeyPolicy {
    /// The host is the site key; the page key is host, colon, path.
    Plaintext,
    /// Keys are the middle sixteen digits of MD5 digests. With `path_style`
    /// the page digest is taken of the path alone, else of host, `&`, path.
    Hashed { path_style: bool },
}

/// Characters 8 to 23 of `s`.
pub open spec fn mid16(s: Seq<char>) -> Seq<char> {
    s.subrange(8, 24)
}

/// The site key and page key of (host, path) under `policy`.
pub open spec fn keys_of(policy: KeyPolicy, host: Seq<char>, path: Seq<char>) -> (Seq<char>, Seq<char>) {
    match policy {
        KeyPolicy::Plaintext => (host, host + seq![':'] + path),
        KeyPolicy::Hashed { path_style } => {
            let site = mid16(md5_hex_of(host, false));
            let unique = if path_style {
                path
            } else {
                host + seq!['&'] + path
            };
            (site, site + seq![':'] + mid16(md5_hex_of(unique, false)))
        },
    }
}

/// The middle sixteen digits of the MD5 digest of `s`.
fn md5_mid16(s: &str) -> (r: String)
    ensures
        r@ == mid16(md5_hex_of(s@, false)),
{
    let full = md5_hex(s, false);
    full.as_str().substring_char(8, 24).to_owned()
}

/// The site key and page key of the page `path` of `host`.
pub fn get_keys(policy: KeyPolicy, host: &str, path: &str) -> (r: Keys)
    ensures
        (r.site_hash@, r.page_key@) == keys_of(policy, host@, path@),
{
    proof {
        reveal_strlit(":");
        reveal_strlit("&");
    }
    match policy {
        KeyPolicy::Plaintext => {
            let with_colon = joined(host, ":");
            let page_key = joined(with_colon.as_str(), path);
            proof {
                assert(page_key@ =~= host@ + seq![':'] + path@);
            }
            Keys { site_hash: host.to_owned(), page_key }
        },
        KeyPolicy::Hashed { path_style } => {
            let site = md5_mid16(host);
            let page = if path_style {
                md5_mid16(path)
            } else {
                let with_amp = joined(host, "&");
                let unique = joined(with_amp.as_str(), path);
                proof {
                    assert(unique@ =~= host@ + seq!['&'] + path@);
                }
                md5_mid16(unique.as_str())
            };
            let with_colon = joined(site.as_str(), ":");
            let page_key = joined(with_colon.as_str(), page.as_str());
            proof {
                assert(page_key@ =~= site@ + seq![':'] + page@);
            }
            Keys { site_hash: site, page_key }
        },
    }
}

/// Counts one page view of `path` on `host` by the visitor `user_identity`
/// and returns the counters after it.
pub fn count(store: &mut Store, policy: KeyPolicy, host: &str, path: &str, user_identity: &str) -> (r: Counts)
    ensures
        old(store)@.wf() ==> final(store)@.wf(),
        final(store)@ == old(store)@.pageview(
            keys_of(policy, host@, path@).0,
            keys_of(policy, host@, path@).1,
            host@,
            path@,
            visitor_hash_of(user_identity@),
        ),
        r.site_pv == final(store)@.site_pv[keys_of(policy, host@, path@).0],
        r.site_uv == count_or_zero(final(store)@.site_uv, keys_of(policy, host@, path@).0),
        r.page_pv == final(store)@.page_pv[keys_of(policy, host@, path@).1],
{
    let keys = get_keys(policy, host, path);
    set_labels(store, keys.site_hash.as_str(), keys.page_key.as_str(), host, path);
    let (site_pv, site_uv) = incr_site(store, keys.site_hash.as_str(), user_identity);
    let page_pv = incr_page(store, keys.page_key.as_str());
    Counts { site_pv, site_uv, page_pv }
}

/// The counters of `path` on `host`, without counting; zero where absent.
pub fn get(store: &Store, policy: KeyPolicy, host: &str, path: &str) -> (r: Counts)
    ensures
        r.site_pv == count_or_zero(store@.site_pv, keys_of(policy, host@, path@).0),
        r.site_uv == count_or_zero(store@.site_uv, keys_of(policy, host@, path@).0),
        r.page_pv == count_or_zero(store@.page_pv, keys_of(policy, host@, path@).1),
{
    let keys = get_keys(policy, host, path);
    let (site_pv, site_uv) = get_site(store, keys.site_hash.as_str());
    let page_pv = get_page(store, keys.page_key.as_str());
    Counts { site_pv, site_uv, page_pv }
}

/// Counts one page view as `count` does, reporting nothing.
pub fn put(store: &mut Store, policy: KeyPolicy, host: &str, path: &str, user_identity: &str)
    ensures
        old(store)@.wf() ==> final(store)@.wf(),
        final(store)@ == old(store)@.pageview(
            keys_of(policy, host@, path@).0,
            keys_of(policy, host@, path@).1,
            host@,
            path@,
            visitor_hash_of(user_identity@),
        ),
{
    count(store, policy, host, path, user_identity);
}

} // verus!
