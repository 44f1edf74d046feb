//! The rows that the persistence engine writes to and reads from the
//! database file, and the conversions between them and the store.

use crate::store::{count_or_zero, set_or_empty, Store, StoreView};
use vstd::prelude::*;

verus! {

/// A row of the `sites` table.
#[derive(Clone, Debug)]
pub struct SiteRow {
    pub key: String,
    pub pv: u64,
    pub uv: u64,
    pub host: Option<String>,
}

/// A row of the `pages` table.
#[derive(Clone, Debug)]
pub struct PageRow {
    pub key: String,
    pub pv: u64,
    pub path: Option<String>,
}

/// A row of the `visitors` table.
#[derive(Clone, Debug)]
pub struct VisitorRow {
    pub site_key: String,
    pub hash: u64,
}

/// The three tables of the database file.
#[derive(Clone, Debug)]
pub struct Snapshot {
    pub sites: Vec<SiteRow>,
    pub pages: Vec<PageRow>,
    pub visitors: Vec<VisitorRow>,
}

/// The text of an optional string.
pub open spec fn opt_view(o: Option<String>) -> Option<Seq<char>> {
    match o {
        Some(s) => Some(s@),
        None => None,
    }
}

/// The entry of `m` under `k`, if any.
pub open spec fn entry_of(m: Map<Seq<char>, Seq<char>>, k: Seq<char>) -> Option<Seq<char>> {
    if m.contains_key(k) {
        Some(m[k])
    } else {
        None
    }
}

/// `rows` list each site of `v` once, with its page views, its unique
/// visitors (zero when it has no such counter) and its host.
pub open spec fn site_rows_of(v: StoreView, rows: Seq<SiteRow>) -> bool {
    &&& forall|i: int|
        0 <= i < rows.len() ==> #[trigger] v.site_pv.contains_key(rows[i].key@) && rows[i].pv
            == v.site_pv[rows[i].key@] && rows[i].uv == count_or_zero(v.site_uv, rows[i].key@)
            && opt_view(rows[i].host) == entry_of(v.site_hosts, rows[i].key@)
    &&& forall|k: Seq<char>|
        #[trigger] v.site_pv.contains_key(k) ==> exists|i: int| 0 <= i < rows.len() && #[trigger] rows[i].key@ == k
    &&& forall|i: int, j: int|
        0 <= i < rows.len() && 0 <= j < rows.len() && i != j ==> #[trigger] rows[i].key@ != #[trigger] rows[j].key@
}

/// `rows` list each page of `v` once, with its page views and its path.
pub open spec fn page_rows_of(v: StoreView, rows: Seq<PageRow>) -> bool {
    &&& forall|i: int|
        0 <= i < rows.len() ==> #[trigger] v.page_pv.contains_key(rows[i].key@) && rows[i].pv
            == v.page_pv[rows[i].key@] && opt_view(rows[i].path) == entry_of(v.page_paths, rows[i].key@)
    &&& forall|k: Seq<char>|
        #[trigger] v.page_pv.contains_key(k) ==> exists|i: int| 0 <= i < rows.len() && #[trigger] rows[i].key@ == k
    &&& forall|i: int, j: int|
        0 <= i < rows.len() && 0 <= j < rows.len() && i != j ==> #[trigger] rows[i].key@ != #[trigger] rows[j].key@
}

/// `rows` list exactly the (site, visitor) pairs of `v`.
pub open spec fn visitor_rows_of(v: StoreView, rows: Seq<VisitorRow>) -> bool {
    &&& forall|i: int|
        0 <= i < rows.len() ==> #[trigger] v.visitors.contains_key(rows[i].site_key@)
            && v.visitors[rows[i].site_key@].contains(rows[i].hash)
    &&& forall|k: Seq<char>, h: u64|
        v.visitors.contains_key(k) && #[trigger] v.visitors[k].contains(h) ==> exists|i: int|
            0 <= i < rows.len() && #[trigger] rows[i].site_key@ == k && rows[i].hash == h
}

/// `s` is a snapshot of the store `v`.
pub open spec fn snapshot_of(v: StoreView, s: Snapshot) -> bool {
    site_rows_of(v, s.sites@) && page_rows_of(v, s.pages@) && visitor_rows_of(v, s.visitors@)
}

/// Site page views after loading `rows` in order: a later row for a key
/// replaces an earlier one.
pub open spec fn loaded_site_pv(rows: Seq<SiteRow>) -> Map<Seq<char>, u64>
    decreases rows.len(),
{
    if rows.len() == 0 {
        Map::empty()
    } else {
        loaded_site_pv(rows.drop_last()).insert(rows.last().key@, rows.last().pv)
    }
}

/// Site unique visitors after loading `rows` in order.
pub open spec fn loaded_site_uv(rows: Seq<SiteRow>) -> Map<Seq<char>, u64>
    decreases rows.len(),
{
    if rows.len() == 0 {
        Map::empty()
    } else {
        loaded_site_uv(rows.drop_last()).insert(rows.last().key@, rows.last().uv)
    }
}

/// Site hosts after loading `rows` in order; a row without a host leaves
/// the map as it is.
pub open spec fn loaded_hosts(rows: Seq<SiteRow>) -> Map<Seq<char>, Seq<char>>
    decreases rows.len(),
{
    if rows.len() == 0 {
        Map::empty()
    } else {
        match rows.last().host {
            Some(h) => loaded_hosts(rows.drop_last()).insert(rows.last().key@, h@),
            None => loaded_hosts(rows.drop_last()),
        }
    }
}

/// Each site row gives its site an empty visitor set.
pub open spec fn loaded_site_sets(rows: Seq<SiteRow>) -> Map<Seq<char>, Set<u64>>
    decreases rows.len(),
{
    if rows.len() == 0 {
        Map::empty()
    } else {
        loaded_site_sets(rows.drop_last()).insert(rows.last().key@, Set::empty())
    }
}

/// `base` after each visitor row adds its hash to its site's set.
pub open spec fn loaded_visitors(base: Map<Seq<char>, Set<u64>>, rows: Seq<VisitorRow>) -> Map<
    Seq<char>,
    Set<u64>,
>
    decreases rows.len(),
{
    if rows.len() == 0 {
        base
    } else {
        let m = loaded_visitors(base, rows.drop_last());
        m.insert(rows.last().site_key@, set_or_empty(m, rows.last().site_key@).insert(rows.last().hash))
    }
}

/// Page views after loading `rows` in order.
pub open spec fn loaded_page_pv(rows: Seq<PageRow>) -> Map<Seq<char>, u64>
    decreases rows.len(),
{
    if rows.len() == 0 {
        Map::empty()
    } else {
        loaded_page_pv(rows.drop_last()).insert(rows.last().key@, rows.last().pv)
    }
}

/// Page paths after loading `rows` in order; a row without a path leaves
/// the map as it is.
pub open spec fn loaded_paths(rows: Seq<PageRow>) -> Map<Seq<char>, Seq<char>>
    decreases rows.len(),
{
    if rows.len() == 0 {
        Map::empty()
    } else {
        match rows.last().path {
            Some(p) => loaded_paths(rows.drop_last()).insert(rows.last().key@, p@),
            None => loaded_paths(rows.drop_last()),
        }
    }
}

/// The store that loading `s` into an empty store gives.
pub open spec fn loaded(s: Snapshot) -> StoreView {
    StoreView {
        site_pv: loaded_site_pv(s.sites@),
        site_uv: loaded_site_uv(s.sites@),
        visitors: loaded_visitors(loaded_site_sets(s.sites@), s.visitors@),
        page_pv: loaded_page_pv(s.pages@),
        site_hosts: loaded_hosts(s.sites@),
        page_paths: loaded_paths(s.pages@),
        new_visitors: Seq::empty(),
    }
}


/// The sixteen bytes every database file begins with: `SQLite format 3`
/// and a zero byte.
pub open spec fn sqlite_magic() -> Seq<u8> {
    seq![83u8, 81, 76, 105, 116, 101, 32, 102, 111, 114, 109, 97, 116, 32, 51, 0]
}

/// Whether `data` begins with the database file header.
pub open spec fn has_sqlite_header(data: Seq<u8>) -> bool {
    data.len() >= 16 && data.subrange(0, 16) == sqlite_magic()
}

/// Why an uploaded database file was refused.
#[derive(Clone, Copy, Debug, PartialEq, Eq, Structural)]
pub enum ImportError {
    /// The file is shorter than the database file header or does not begin
    /// with it.
    InvalidImportFile,
}

impl ImportError {
    /// The message shown to the administrator.
    pub fn message(&self) -> (r: String)
        ensures
            r@ == "无效的 SQLite 数据库文件"@,
    {
        "无效的 SQLite 数据库文件".to_owned()
    }
}

/// Checks an uploaded file before it is opened as a database.
pub fn validate_import_file(data: &[u8]) -> (r: Result<(), ImportError>)
    ensures
        !has_sqlite_header(data@) ==> r == Err::<(), ImportError>(ImportError::InvalidImportFile),
        has_sqlite_header(data@) ==> r is Ok,
{
    if data.len() < 16 {
        return Err(ImportError::InvalidImportFile);
    }
    let magic: [u8; 16] = [83, 81, 76, 105, 116, 101, 32, 102, 111, 114, 109, 97, 116, 32, 51, 0];
    proof {
        assert(magic@ =~= sqlite_magic());
    }
    let mut i: usize = 0;
    while i < 16
        invariant
            0 <= i <= 16,
            16 <= data@.len(),
            magic@ == sqlite_magic(),
            forall|j: int| 0 <= j < i ==> data@[j] == sqlite_magic()[j],
        decreases 16 - i,
    {
        if data[i] != magic[i] {
            return Err(ImportError::InvalidImportFile);
        }
        i += 1;
    }
    proof {
        assert(data@.subrange(0, 16) =~= sqlite_magic());
    }
    Ok(())
}

/// Replaces the store with the rows read from an uploaded file whose first
/// bytes are `header`, and returns how many site, page and visitor rows it
/// held. A file refused by `validate_import_file` leaves the store as it is.
pub fn import_rows(store: &mut Store, header: &[u8], snap: &Snapshot) -> (r: Result<(usize, usize, usize), ImportError>)
    ensures
        old(store)@.wf() ==> final(store)@.wf(),
        r is Err ==> final(store)@ == old(store)@,
        !has_sqlite_header(header@) ==> r == Err::<(usize, usize, usize), ImportError>(
            ImportError::InvalidImportFile,
        ),
        has_sqlite_header(header@) ==> r == Ok::<(usize, usize, usize), ImportError>(
            (snap.sites@.len() as usize, snap.pages@.len() as usize, snap.visitors@.len() as usize),
        ) && final(store)@ == loaded(*snap),
{
    match validate_import_file(header) {
        Err(e) => Err(e),
        Ok(()) => {
            store.replace_all(snap);
            Ok((snap.sites.len(), snap.pages.len(), snap.visitors.len()))
        },
    }
}

} // verus!
