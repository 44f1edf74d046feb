use bsz::count::{count, get, KeyPolicy};
use bsz::persist::{import_rows, validate_import_file, ImportError, PageRow, SiteRow, Snapshot, VisitorRow};
use bsz::store::{get_page, get_site, Store};

fn canonical(s: &Snapshot) -> (Vec<(String, u64, u64)>, Vec<(String, u64)>, Vec<(String, u64)>) {
    let mut sites: Vec<_> = s.sites.iter().map(|r| (r.key.clone(), r.pv, r.uv)).collect();
    let mut pages: Vec<_> = s.pages.iter().map(|r| (r.key.clone(), r.pv)).collect();
    let mut visitors: Vec<_> = s.visitors.iter().map(|r| (r.site_key.clone(), r.hash)).collect();
    sites.sort();
    pages.sort();
    visitors.sort();
    (sites, pages, visitors)
}

fn header() -> Vec<u8> {
    let mut h = b"SQLite format 3\0".to_vec();
    h.extend_from_slice(&[1, 2, 3]);
    h
}

#[test]
fn persist_and_reload() {
    let mut store = Store::new();
    for i in 0..1000usize {
        let site = format!("site{}.com", i % 10);
        let path = format!("/p{}", i % 50);
        let token = format!("visitor{}", (i * 7) % 37);
        count(&mut store, KeyPolicy::Plaintext, &site, &path, &token);
    }
    let snap = store.snapshot();
    assert_eq!(snap.sites.len(), 10);
    assert_eq!(snap.pages.len(), 50);
    let reloaded = Store::from_snapshot(&snap);
    assert_eq!(canonical(&reloaded.snapshot()), canonical(&snap));
    for i in 0..10 {
        let site = format!("site{}.com", i);
        assert_eq!(get_site(&reloaded, &site), get_site(&store, &site));
    }
    for i in 0..50usize {
        let host = format!("site{}.com", i % 10);
        let path = format!("/p{}", i);
        assert_eq!(get(&reloaded, KeyPolicy::Plaintext, &host, &path), get(&store, KeyPolicy::Plaintext, &host, &path));
    }
}

#[test]
fn snapshot_keeps_display_texts() {
    let mut store = Store::new();
    count(&mut store, KeyPolicy::Plaintext, "h.com", "/x", "v");
    let snap = store.snapshot();
    assert_eq!(snap.sites[0].host.as_deref(), Some("h.com"));
    assert_eq!(snap.pages[0].path.as_deref(), Some("/x"));
}

fn d2() -> Snapshot {
    Snapshot {
        sites: vec![SiteRow { key: "d2.com".into(), pv: 11, uv: 2, host: None }],
        pages: vec![PageRow { key: "d2.com:/z".into(), pv: 5, path: Some("/z".into()) }],
        visitors: vec![VisitorRow { site_key: "d2.com".into(), hash: 1 }, VisitorRow { site_key: "d2.com".into(), hash: 2 }],
    }
}

#[test]
fn atomic_import_replaces_everything() {
    let mut store = Store::new();
    count(&mut store, KeyPolicy::Plaintext, "d1.com", "/a", "v");
    let r = import_rows(&mut store, &header(), &d2());
    assert_eq!(r, Ok((1, 1, 2)));
    assert_eq!(get_site(&store, "d1.com"), (0, 0));
    assert_eq!(get_page(&store, "d1.com:/a"), 0);
    assert_eq!(get_site(&store, "d2.com"), (11, 2));
    assert_eq!(get_page(&store, "d2.com:/z"), 5);
    assert!(store.drain_new_visitors().is_empty());
    assert_eq!(canonical(&store.snapshot()), canonical(&d2()));
}

#[test]
fn bad_import_file_leaves_store() {
    let mut store = Store::new();
    count(&mut store, KeyPolicy::Plaintext, "d1.com", "/a", "v");
    let before = canonical(&store.snapshot());
    assert_eq!(import_rows(&mut store, b"SQLite format", &d2()), Err(ImportError::InvalidImportFile));
    assert_eq!(import_rows(&mut store, b"SQLite format 4\0 and more", &d2()), Err(ImportError::InvalidImportFile));
    assert_eq!(import_rows(&mut store, b"", &d2()), Err(ImportError::InvalidImportFile));
    assert_eq!(canonical(&store.snapshot()), before);
    assert_eq!(validate_import_file(b"SQLite format 3\0"), Ok(()));
    assert_eq!(validate_import_file(b"short"), Err(ImportError::InvalidImportFile));
    assert_eq!(validate_import_file(b""), Err(ImportError::InvalidImportFile));
    assert_eq!(ImportError::InvalidImportFile.message(), "无效的 SQLite 数据库文件");
}

#[test]
fn later_rows_win_on_load() {
    let snap = Snapshot {
        sites: vec![
            SiteRow { key: "s".into(), pv: 1, uv: 1, host: Some("s".into()) },
            SiteRow { key: "s".into(), pv: 2, uv: 0, host: None },
        ],
        pages: vec![],
        visitors: vec![VisitorRow { site_key: "orphan".into(), hash: 9 }],
    };
    let store = Store::from_snapshot(&snap);
    assert_eq!(get_site(&store, "s"), (2, 0));
    let again = store.snapshot();
    assert_eq!(again.sites[0].host.as_deref(), Some("s"));
    assert!(again.visitors.iter().any(|r| r.site_key == "orphan" && r.hash == 9));
}
