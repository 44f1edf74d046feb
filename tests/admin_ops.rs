use bsz::admin::{
    list_keys, list_pages, stats, ListKeysParams, ListPagesParams,
    batch_delete_keys, batch_delete_pages, delete_key, import_counters, logs_window, merge_key, rename_key,
    sync_concurrency, update_key, update_page, BatchDeleteKeysParams, BatchDeletePagesParams, DeleteKeyParams,
    ImportData, LogsParams, MergeKeyParams, PageData, RenameKeyParams, SiteData, SitemapSyncParams,
    UpdateKeyParams, UpdatePageParams,
};
use bsz::count::{count, KeyPolicy};
use bsz::persist::VisitorRow;
use bsz::store::{get_page, get_site, EditError, MergeError, RenameError, SiteCounter, Store};

fn visitor_set(store: &Store, site: &str) -> Vec<u64> {
    let snap = store.snapshot();
    let mut hs: Vec<u64> = snap
        .visitors
        .iter()
        .filter(|r: &&VisitorRow| r.site_key == site)
        .map(|r| r.hash)
        .collect();
    hs.sort();
    hs
}

fn sorted(mut v: Vec<u64>) -> Vec<u64> {
    v.sort();
    v
}

#[test]
fn rename_moves_counters_and_pages() {
    let mut store = Store::new();
    store.edit_site_counter("a.com", SiteCounter::SitePv, Some(5));
    store.edit_page_pv("a.com:/x", Some(3));
    let ok = rename_key(&mut store, &RenameKeyParams { old_key: "a.com".into(), new_key: "b.com".into() });
    assert_eq!(ok, Ok(()));
    assert_eq!(get_site(&store, "b.com").0, 5);
    assert_eq!(get_page(&store, "b.com:/x"), 3);
    assert_eq!(get_site(&store, "a.com"), (0, 0));
    assert_eq!(get_page(&store, "a.com:/x"), 0);
    let again = rename_key(&mut store, &RenameKeyParams { old_key: "a.com".into(), new_key: "c.com".into() });
    assert_eq!(again, Err(RenameError::SourceMissing));
}

#[test]
fn rename_refusals() {
    let mut store = Store::new();
    count(&mut store, KeyPolicy::Plaintext, "a.com", "/", "v");
    count(&mut store, KeyPolicy::Plaintext, "b.com", "/", "v");
    assert_eq!(store.rename_site("a.com", "a.com"), Err(RenameError::SameKey));
    assert_eq!(store.rename_site("a.com", "b.com"), Err(RenameError::TargetExists));
    assert_eq!(get_site(&store, "a.com"), (1, 1));
    assert_eq!(RenameError::SameKey.message(), "新旧域名相同");
    store.edit_site_counter("uv-only.com", SiteCounter::SiteUv, Some(4));
    assert_eq!(store.rename_site("a.com", "uv-only.com"), Ok(()));
    assert_eq!(get_site(&store, "uv-only.com"), (1, 1));
    assert_eq!(get_site(&store, "a.com"), (0, 0));
}

#[test]
fn rename_keeps_the_multiset_of_counters() {
    let mut store = Store::new();
    for (path, n) in [("/a", 2), ("/b", 4)] {
        for i in 0..n {
            count(&mut store, KeyPolicy::Plaintext, "old.com", path, &format!("t{}", i));
        }
    }
    count(&mut store, KeyPolicy::Plaintext, "other.com", "/c", "t");
    let before = store.snapshot();
    store.rename_site("old.com", "new.com").unwrap();
    let after = store.snapshot();
    let site_values = |s: &bsz::persist::Snapshot| sorted(s.sites.iter().map(|r| r.pv).collect());
    let page_values = |s: &bsz::persist::Snapshot| sorted(s.pages.iter().map(|r| r.pv).collect());
    assert_eq!(site_values(&before), site_values(&after));
    assert_eq!(page_values(&before), page_values(&after));
    assert_eq!(get_page(&store, "new.com:/b"), 4);
    assert_eq!(get_site(&store, "new.com"), (6, 4));
}

#[test]
fn merge_with_overlapping_pages() {
    let mut store = Store::new();
    for t in ["v1", "v2", "v1"] {
        count(&mut store, KeyPolicy::Plaintext, "a.com", "/x", t);
    }
    for t in ["v2", "v3", "v2", "v3"] {
        count(&mut store, KeyPolicy::Plaintext, "b.com", "/x", t);
    }
    let a_set = visitor_set(&store, "a.com");
    let b_set = visitor_set(&store, "b.com");
    assert_eq!(a_set.len(), 2);
    assert_eq!(b_set.len(), 2);
    let mut union: Vec<u64> = a_set.iter().chain(b_set.iter()).copied().collect();
    union.sort();
    union.dedup();
    assert_eq!(union.len(), 3);
    let r = merge_key(&mut store, &MergeKeyParams { source_key: "a.com".into(), target_key: "b.com".into() });
    assert_eq!(r, Ok(()));
    assert_eq!(get_site(&store, "b.com"), (7, 2));
    assert_eq!(get_page(&store, "b.com:/x"), 7);
    assert_eq!(get_site(&store, "a.com"), (0, 0));
    assert_eq!(get_page(&store, "a.com:/x"), 0);
    assert_eq!(visitor_set(&store, "b.com"), union);
    assert!(visitor_set(&store, "a.com").is_empty());
}

#[test]
fn merge_sums_site_pv_and_refuses() {
    let mut store = Store::new();
    store.edit_site_counter("s", SiteCounter::SitePv, Some(40));
    store.edit_site_counter("t", SiteCounter::SitePv, Some(2));
    assert_eq!(store.merge_site("s", "s"), Err(MergeError::SameKey));
    assert_eq!(store.merge_site("x", "t"), Err(MergeError::SourceMissing));
    assert_eq!(store.merge_site("s", "t"), Ok(()));
    assert_eq!(get_site(&store, "t").0, 42);
    store.edit_site_counter("u", SiteCounter::SitePv, Some(9));
    assert_eq!(store.merge_site("u", "fresh"), Ok(()));
    assert_eq!(get_site(&store, "fresh").0, 9);
}

#[test]
fn delete_site_removes_its_pages() {
    let mut store = Store::new();
    count(&mut store, KeyPolicy::Plaintext, "a.com", "/1", "v");
    count(&mut store, KeyPolicy::Plaintext, "a.com", "/2", "v");
    count(&mut store, KeyPolicy::Plaintext, "a.community", "/3", "v");
    let found = delete_key(&mut store, &DeleteKeyParams { site_key: "a.com".into(), page_key: None });
    assert!(found);
    assert_eq!(get_site(&store, "a.com"), (0, 0));
    assert_eq!(get_page(&store, "a.com:/1"), 0);
    assert_eq!(get_page(&store, "a.com:/2"), 0);
    assert_eq!(get_page(&store, "a.community:/3"), 1);
    assert!(!store.delete_site("a.com"));
}

#[test]
fn delete_page_only() {
    let mut store = Store::new();
    count(&mut store, KeyPolicy::Plaintext, "a.com", "/1", "v");
    let found = delete_key(&mut store, &DeleteKeyParams { site_key: "a.com".into(), page_key: Some("a.com:/1".into()) });
    assert!(found);
    assert_eq!(get_page(&store, "a.com:/1"), 0);
    assert_eq!(get_site(&store, "a.com"), (1, 1));
}

#[test]
fn batch_deletes_count_present_keys() {
    let mut store = Store::new();
    count(&mut store, KeyPolicy::Plaintext, "a", "/", "v");
    count(&mut store, KeyPolicy::Plaintext, "b", "/", "v");
    let n = batch_delete_keys(
        &mut store,
        &BatchDeleteKeysParams { site_keys: vec!["a".into(), "a".into(), "zz".into(), "b".into()] },
    );
    assert_eq!(n, 2);
    count(&mut store, KeyPolicy::Plaintext, "c", "/p", "v");
    let m = batch_delete_pages(&mut store, &BatchDeletePagesParams { page_keys: vec!["c:/p".into(), "c:/q".into()] });
    assert_eq!(m, 1);
    assert_eq!(get_page(&store, "c:/p"), 0);
}

#[test]
fn edit_counters() {
    let mut store = Store::new();
    count(&mut store, KeyPolicy::Plaintext, "a", "/", "v1");
    count(&mut store, KeyPolicy::Plaintext, "a", "/", "v2");
    let bad = update_key(&mut store, &UpdateKeyParams { site_key: "a".into(), key_type: "page_pv".into(), value: Some(1) });
    assert_eq!(bad, Err(EditError::InvalidKeyType));
    assert_eq!(EditError::InvalidKeyType.message(), "invalid key_type");
    update_key(&mut store, &UpdateKeyParams { site_key: "a".into(), key_type: "site_pv".into(), value: Some(100) }).unwrap();
    assert_eq!(get_site(&store, "a"), (100, 2));
    update_key(&mut store, &UpdateKeyParams { site_key: "a".into(), key_type: "site_uv".into(), value: None }).unwrap();
    assert_eq!(get_site(&store, "a"), (100, 0));
    assert!(visitor_set(&store, "a").is_empty());
    let c = count(&mut store, KeyPolicy::Plaintext, "a", "/", "v1");
    assert_eq!(c.site_uv, 1);
    update_page(&mut store, &UpdatePageParams { page_key: "a:/".into(), pv: Some(9) });
    assert_eq!(get_page(&store, "a:/"), 9);
    update_page(&mut store, &UpdatePageParams { page_key: "a:/".into(), pv: None });
    assert_eq!(get_page(&store, "a:/"), 9);
    assert_eq!(SiteCounter::from_name("site_uv"), Ok(SiteCounter::SiteUv));
}

#[test]
fn counter_import() {
    let mut store = Store::new();
    let data = ImportData {
        sites: Some(vec![("s1".into(), SiteData { pv: 10, uv: Some(4) }), ("s2".into(), SiteData { pv: 3, uv: None })]),
        pages: Some(vec![("s1:/a".into(), PageData { pv: 7 })]),
    };
    assert_eq!(import_counters(&mut store, &data), (2, 1));
    assert_eq!(get_site(&store, "s1"), (10, 4));
    assert_eq!(get_site(&store, "s2"), (3, 0));
    assert_eq!(get_page(&store, "s1:/a"), 7);
    assert_eq!(import_counters(&mut store, &ImportData { sites: None, pages: None }), (0, 0));
}

#[test]
fn log_paging_and_sync_concurrency() {
    assert_eq!(logs_window(&LogsParams { page: None, size: None }), (1, 20, 0));
    assert_eq!(logs_window(&LogsParams { page: Some(3), size: Some(10) }), (3, 10, 20));
    assert_eq!(logs_window(&LogsParams { page: Some(0), size: Some(10) }), (0, 10, 0));
    let p = |c| SitemapSyncParams { sitemap_url: None, sync_id: None, concurrency: c };
    assert_eq!(sync_concurrency(&p(None)), 3);
    assert_eq!(sync_concurrency(&p(Some(0))), 1);
    assert_eq!(sync_concurrency(&p(Some(50))), 10);
    assert_eq!(sync_concurrency(&p(Some(4))), 4);
}

#[test]
fn drain_new_visitors_in_order() {
    let mut store = Store::new();
    count(&mut store, KeyPolicy::Plaintext, "a", "/", "x");
    count(&mut store, KeyPolicy::Plaintext, "a", "/", "x");
    count(&mut store, KeyPolicy::Plaintext, "b", "/", "y");
    let drained = store.drain_new_visitors();
    assert_eq!(drained.len(), 2);
    assert_eq!(drained[0], ("a".to_string(), visitor_set(&store, "a")[0]));
    assert_eq!(drained[1], ("b".to_string(), visitor_set(&store, "b")[0]));
    assert!(store.drain_new_visitors().is_empty());
}

#[test]
fn site_list_windows() {
    let mut store = Store::new();
    count(&mut store, KeyPolicy::Plaintext, "a.com", "/1", "v1");
    count(&mut store, KeyPolicy::Plaintext, "a.com", "/2", "v2");
    count(&mut store, KeyPolicy::Plaintext, "b.com", "/1", "v1");
    let snap = store.snapshot();
    let (all, total, next) = list_keys(&snap, &ListKeysParams { cursor: None, count: None });
    assert_eq!(total, 2);
    assert_eq!(all.len(), 2);
    assert_eq!(next, 0);
    let a = all.iter().find(|k| k.site_key == "a.com").unwrap();
    assert_eq!((a.site_pv, a.site_uv, a.page_count), (2, 2, 2));
    let (first, _, next) = list_keys(&snap, &ListKeysParams { cursor: Some(0), count: Some(1) });
    assert_eq!(first.len(), 1);
    assert_eq!(next, 1);
    let (second, _, next) = list_keys(&snap, &ListKeysParams { cursor: Some(1), count: Some(1) });
    assert_eq!(second.len(), 1);
    assert_ne!(first[0].site_key, second[0].site_key);
    assert_eq!(next, 2);
    let (none, _, next) = list_keys(&snap, &ListKeysParams { cursor: Some(5), count: Some(1) });
    assert!(none.is_empty());
    assert_eq!(next, 0);
    let st = stats(&snap);
    assert_eq!((st.total_sites, st.total_pages, st.total_site_pv, st.total_site_uv), (2, 3, 3, 3));
}

#[test]
fn page_list_most_viewed_first() {
    let mut store = Store::new();
    for (path, n) in [("/low", 1), ("/high", 5), ("/mid", 3)] {
        for _ in 0..n {
            count(&mut store, KeyPolicy::Plaintext, "s.com", path, "v");
        }
    }
    count(&mut store, KeyPolicy::Plaintext, "other.com", "/x", "v");
    let snap = store.snapshot();
    let params = |cursor, count| ListPagesParams { site_key: "s.com".into(), cursor, count };
    let (pages, total, next) = list_pages(&snap, &params(None, None));
    assert_eq!(total, 3);
    assert_eq!(next, 0);
    let got: Vec<(String, u64)> = pages.iter().map(|p| (p.path.clone(), p.pv)).collect();
    assert_eq!(got, vec![("/high".to_string(), 5), ("/mid".to_string(), 3), ("/low".to_string(), 1)]);
    assert_eq!(pages[0].page_key, "s.com:/high");
    let (window, _, next) = list_pages(&snap, &params(Some(1), Some(1)));
    assert_eq!(window[0].path, "/mid");
    assert_eq!(next, 2);
}
