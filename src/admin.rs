//! The administrative surface of the store: the parameters of each admin
//! request and the store operation each one performs.

use crate::persist::{PageRow, SiteRow, Snapshot};
use crate::store::{wrap_add, EditError, MergeError, RenameError, SiteCounter, Store, StoreView};
use crate::text::{after, has_prefix, page_prefix, prefix_of, starts_with, tail_from};
use vstd::prelude::*;

verus! {

/// Paging of the site list.
#[derive(Clone, Debug)]
pub struct ListKeysParams {
    pub cursor: Option<usize>,
    pub count: Option<usize>,
}

/// One line of the site list.
#[derive(Clone, Debug)]
pub struct KeyInfo {
    pub site_key: String,
    pub site_pv: u64,
    pub site_uv: u64,
    pub page_count: usize,
}

/// Deletes a page when `page_key` is given, else the site `site_key`.
#[derive(Clone, Debug)]
pub struct DeleteKeyParams {
    pub site_key: String,
    pub page_key: Option<String>,
}

/// Sets (or, without a value, resets) the counter `key_type` of a site.
#[derive(Clone, Debug)]
pub struct UpdateKeyParams {
    pub site_key: String,
    pub key_type: String,
    pub value: Option<u64>,
}

/// Renames a site.
#[derive(Clone, Debug)]
pub struct RenameKeyParams {
    pub old_key: String,
    pub new_key: String,
}

/// Merges one site into another.
#[derive(Clone, Debug)]
pub struct MergeKeyParams {
    pub source_key: String,
    pub target_key: String,
}

/// Deletes several sites.
#[derive(Clone, Debug)]
pub struct BatchDeleteKeysParams {
    pub site_keys: Vec<String>,
}

/// Paging of the page list of one site.
#[derive(Clone, Debug)]
pub struct ListPagesParams {
    pub site_key: String,
    pub cursor: Option<usize>,
    pub count: Option<usize>,
}

/// One line of the page list.
#[derive(Clone, Debug)]
pub struct PageInfo {
    pub page_key: String,
    pub path: String,
    pub pv: u64,
}

/// Sets the page views of a page.
#[derive(Clone, Debug)]
pub struct UpdatePageParams {
    pub page_key: String,
    pub pv: Option<u64>,
}

/// Deletes several pages.
#[derive(Clone, Debug)]
pub struct BatchDeletePagesParams {
    pub page_keys: Vec<String>,
}

/// Paging of the operation log.
#[derive(Clone, Debug)]
pub struct LogsParams {
    pub page: Option<usize>,
    pub size: Option<usize>,
}

/// Where a sitemap sync takes its URLs from, and how many probes run at once.
#[derive(Clone, Debug)]
pub struct SitemapSyncParams {
    pub sitemap_url: Option<String>,
    pub sync_id: Option<String>,
    pub concurrency: Option<usize>,
}

/// Counters of one site in a counter import.
#[derive(Clone, Copy, Debug)]
pub struct SiteData {
    pub pv: u64,
    pub uv: Option<u64>,
}

/// Counter of one page in a counter import.
#[derive(Clone, Copy, Debug)]
pub struct PageData {
    pub pv: u64,
}

/// A counter import: sites and pages with their counters.
#[derive(Clone, Debug)]
pub struct ImportData {
    pub sites: Option<Vec<(String, SiteData)>>,
    pub pages: Option<Vec<(String, PageData)>>,
}

/// The store after importing each site of `sites` in turn.
pub open spec fn imported_sites(v: StoreView, sites: Seq<(String, SiteData)>) -> StoreView
    decreases sites.len(),
{
    if sites.len() == 0 {
        v
    } else {
        imported_sites(v, sites.drop_last()).import_site(sites.last().0@, sites.last().1.pv, sites.last().1.uv)
    }
}

/// The store after importing each page of `pages` in turn.
pub open spec fn imported_pages(v: StoreView, pages: Seq<(String, PageData)>) -> StoreView
    decreases pages.len(),
{
    if pages.len() == 0 {
        v
    } else {
        imported_pages(v, pages.drop_last()).edit_page(pages.last().0@, Some(pages.last().1.pv))
    }
}

/// The entries of an optional list; none when absent.
pub open spec fn listed<T>(o: Option<Vec<T>>) -> Seq<T> {
    match o {
        Some(v) => v@,
        None => Seq::empty(),
    }
}

/// Imports the counters of `data`: each site's page views, its unique
/// visitors when given, and each page's page views. Returns how many sites
/// and pages were imported.
pub fn import_counters(store: &mut Store, data: &ImportData) -> (r: (usize, usize))
    ensures
        old(store)@.wf() ==> final(store)@.wf(),
        final(store)@ == imported_pages(imported_sites(old(store)@, listed(data.sites)), listed(data.pages)),
        r == (listed(data.sites).len() as usize, listed(data.pages).len() as usize),
{
    let ghost v0 = store@;
    let mut sites_imported: usize = 0;
    if let Some(sites) = &data.sites {
        while sites_imported < sites.len()
            invariant
                0 <= sites_imported <= sites@.len(),
                data.sites == Some(*sites),
                store@ == imported_sites(v0, sites@.subrange(0, sites_imported as int)),
                v0.wf() ==> store@.wf(),
            decreases sites@.len() - sites_imported,
        {
            let (key, site) = &sites[sites_imported];
            store.import_site(key.as_str(), site.pv, site.uv);
            proof {
                assert(sites@.subrange(0, sites_imported + 1).drop_last() =~= sites@.subrange(0, sites_imported as int));
            }
            sites_imported += 1;
        }
        proof {
            assert(sites@.subrange(0, sites_imported as int) =~= sites@);
        }
    }
    let ghost v1 = store@;
    proof {
        assert(v1 == imported_sites(v0, listed(data.sites)));
    }
    let mut pages_imported: usize = 0;
    if let Some(pages) = &data.pages {
        while pages_imported < pages.len()
            invariant
                0 <= pages_imported <= pages@.len(),
                data.pages == Some(*pages),
                store@ == imported_pages(v1, pages@.subrange(0, pages_imported as int)),
                v0.wf() ==> store@.wf(),
            decreases pages@.len() - pages_imported,
        {
            let (key, page) = &pages[pages_imported];
            store.edit_page_pv(key.as_str(), Some(page.pv));
            proof {
                assert(pages@.subrange(0, pages_imported + 1).drop_last() =~= pages@.subrange(0, pages_imported as int));
            }
            pages_imported += 1;
        }
        proof {
            assert(pages@.subrange(0, pages_imported as int) =~= pages@);
        }
    }
    (sites_imported, pages_imported)
}

/// Deletes the page or the site that `params` names; says whether it had
/// page views to remove.
pub fn delete_key(store: &mut Store, params: &DeleteKeyParams) -> (r: bool)
    ensures
        old(store)@.wf() ==> final(store)@.wf(),
        match params.page_key {
            Some(p) => final(store)@ == old(store)@.delete_page(p@) && r == old(store)@.page_pv.contains_key(p@),
            None => final(store)@ == old(store)@.delete_site(params.site_key@) && r
                == old(store)@.site_pv.contains_key(params.site_key@),
        },
{
    match &params.page_key {
        Some(p) => store.delete_page(p.as_str()),
        None => store.delete_site(params.site_key.as_str()),
    }
}

/// Sets or resets the site counter that `params` names.
pub fn update_key(store: &mut Store, params: &UpdateKeyParams) -> (r: Result<(), EditError>)
    ensures
        old(store)@.wf() ==> final(store)@.wf(),
        params.key_type@ == "site_pv"@ ==> r is Ok && final(store)@ == old(store)@.edit_site(
            params.site_key@,
            SiteCounter::SitePv,
            params.value,
        ),
        params.key_type@ == "site_uv"@ ==> r is Ok && final(store)@ == old(store)@.edit_site(
            params.site_key@,
            SiteCounter::SiteUv,
            params.value,
        ),
        params.key_type@ != "site_pv"@ && params.key_type@ != "site_uv"@ ==> r == Err::<(), EditError>(
            EditError::InvalidKeyType,
        ) && final(store)@ == old(store)@,
{
    proof {
        reveal_strlit("site_pv");
        reveal_strlit("site_uv");
        assert("site_pv"@[5] != "site_uv"@[5]);
    }
    let which = SiteCounter::from_name(params.key_type.as_str())?;
    store.edit_site_counter(params.site_key.as_str(), which, params.value);
    Ok(())
}

/// Renames the site that `params` names.
pub fn rename_key(store: &mut Store, params: &RenameKeyParams) -> (r: Result<(), RenameError>)
    ensures
        old(store)@.wf() ==> final(store)@.wf(),
        params.old_key@ == params.new_key@ ==> r == Err::<(), RenameError>(RenameError::SameKey),
        params.old_key@ != params.new_key@ && !old(store)@.site_pv.contains_key(params.old_key@) ==> r == Err::<
            (),
            RenameError,
        >(RenameError::SourceMissing),
        params.old_key@ != params.new_key@ && old(store)@.site_pv.contains_key(params.old_key@)
            && old(store)@.site_pv.contains_key(params.new_key@) ==> r == Err::<(), RenameError>(
            RenameError::TargetExists,
        ),
        params.old_key@ != params.new_key@ && old(store)@.site_pv.contains_key(params.old_key@)
            && !old(store)@.site_pv.contains_key(params.new_key@) ==> r is Ok,
        r is Ok ==> final(store)@ == old(store)@.rename_site(params.old_key@, params.new_key@),
        r is Err ==> final(store)@ == old(store)@,
{
    store.rename_site(params.old_key.as_str(), params.new_key.as_str())
}

/// Merges the sites that `params` names.
pub fn merge_key(store: &mut Store, params: &MergeKeyParams) -> (r: Result<(), MergeError>)
    ensures
        old(store)@.wf() ==> final(store)@.wf(),
        params.source_key@ == params.target_key@ ==> r == Err::<(), MergeError>(MergeError::SameKey),
        params.source_key@ != params.target_key@ && !old(store)@.site_pv.contains_key(params.source_key@) ==> r
            == Err::<(), MergeError>(MergeError::SourceMissing),
        params.source_key@ != params.target_key@ && old(store)@.site_pv.contains_key(params.source_key@) ==> r is Ok,
        r is Ok ==> final(store)@ == old(store)@.merge_site(params.source_key@, params.target_key@),
        r is Err ==> final(store)@ == old(store)@,
{
    store.merge_site(params.source_key.as_str(), params.target_key.as_str())
}

/// Deletes the sites that `params` lists; returns how many were present.
pub fn batch_delete_keys(store: &mut Store, params: &BatchDeleteKeysParams) -> (r: usize)
    ensures
        old(store)@.wf() ==> final(store)@.wf(),
        final(store)@ == old(store)@.delete_sites(params.site_keys@.map_values(|k: String| k@)),
        r == old(store)@.sites_found(params.site_keys@.map_values(|k: String| k@)),
{
    store.batch_delete_sites(&params.site_keys)
}

/// Sets the page views of the page that `params` names.
pub fn update_page(store: &mut Store, params: &UpdatePageParams)
    ensures
        final(store)@ == old(store)@.edit_page(params.page_key@, params.pv),
{
    store.edit_page_pv(params.page_key.as_str(), params.pv)
}

/// Deletes the pages that `params` lists; returns how many were present.
pub fn batch_delete_pages(store: &mut Store, params: &BatchDeletePagesParams) -> (r: usize)
    ensures
        final(store)@ == old(store)@.delete_pages(params.page_keys@.map_values(|k: String| k@)),
        r == old(store)@.pages_found(params.page_keys@.map_values(|k: String| k@)),
{
    store.batch_delete_pages(&params.page_keys)
}

/// The page number, page size and row offset of a log query: page 1 and
/// 20 rows by default; the offset skips the earlier pages, saturating.
pub fn logs_window(params: &LogsParams) -> (r: (usize, usize, usize))
    ensures
        r.0 == (match params.page {
            Some(p) => p,
            None => 1,
        }),
        r.1 == (match params.size {
            Some(s) => s,
            None => 20,
        }),
        r.2 == (if r.0 == 0 {
            0
        } else if (r.0 - 1) * r.1 <= usize::MAX {
            ((r.0 - 1) * r.1) as usize
        } else {
            usize::MAX
        }),
{
    let page = match params.page {
        Some(p) => p,
        None => 1,
    };
    let size = match params.size {
        Some(s) => s,
        None => 20,
    };
    let before = if page == 0 {
        0
    } else {
        page - 1
    };
    let offset = before.checked_mul(size);
    let offset = match offset {
        Some(o) => o,
        None => usize::MAX,
    };
    (page, size, offset)
}

/// How many upstream probes a sitemap sync runs at once: 3 by default,
/// kept between 1 and 10.
pub fn sync_concurrency(params: &SitemapSyncParams) -> (r: usize)
    ensures
        r == (match params.concurrency {
            Some(c) => if c < 1 {
                1
            } else if c > 10 {
                10
            } else {
                c
            },
            None => 3,
        }),
{
    match params.concurrency {
        Some(c) => if c < 1 {
            1
        } else if c > 10 {
            10
        } else {
            c
        },
        None => 3,
    }
}


/// Totals over the whole store.
#[derive(Clone, Copy, Debug, PartialEq, Eq, Structural)]
pub struct StoreStats {
    pub total_sites: u64,
    pub total_pages: u64,
    pub total_site_pv: u64,
    pub total_site_uv: u64,
}

/// The page views of `rows` added up, wrapping at the top.
pub open spec fn pv_total(rows: Seq<SiteRow>) -> u64
    decreases rows.len(),
{
    if rows.len() == 0 {
        0
    } else {
        wrap_add(pv_total(rows.drop_last()), rows.last().pv)
    }
}

/// The unique visitors of `rows` added up, wrapping at the top.
pub open spec fn uv_total(rows: Seq<SiteRow>) -> u64
    decreases rows.len(),
{
    if rows.len() == 0 {
        0
    } else {
        wrap_add(uv_total(rows.drop_last()), rows.last().uv)
    }
}

fn add_wrapping(a: u64, b: u64) -> (r: u64)
    ensures
        r == wrap_add(a, b),
{
    if a <= u64::MAX - b {
        a + b
    } else {
        a - (u64::MAX - b) - 1
    }
}

/// The totals of a snapshot of the store: how many sites and pages, and
/// the page views and unique visitors of all sites together.
pub fn stats(snap: &Snapshot) -> (r: StoreStats)
    ensures
        r.total_sites == snap.sites@.len() as u64,
        r.total_pages == snap.pages@.len() as u64,
        r.total_site_pv == pv_total(snap.sites@),
        r.total_site_uv == uv_total(snap.sites@),
{
    let mut pv: u64 = 0;
    let mut uv: u64 = 0;
    let mut i: usize = 0;
    while i < snap.sites.len()
        invariant
            0 <= i <= snap.sites@.len(),
            pv == pv_total(snap.sites@.subrange(0, i as int)),
            uv == uv_total(snap.sites@.subrange(0, i as int)),
        decreases snap.sites@.len() - i,
    {
        pv = add_wrapping(pv, snap.sites[i].pv);
        uv = add_wrapping(uv, snap.sites[i].uv);
        proof {
            assert(snap.sites@.subrange(0, i + 1).drop_last() =~= snap.sites@.subrange(0, i as int));
        }
        i += 1;
    }
    proof {
        assert(snap.sites@.subrange(0, i as int) =~= snap.sites@);
    }
    StoreStats {
        total_sites: snap.sites.len() as u64,
        total_pages: snap.pages.len() as u64,
        total_site_pv: pv,
        total_site_uv: uv,
    }
}

/// How many of `pages` are filed under `prefix`.
pub open spec fn count_under(pages: Seq<PageRow>, prefix: Seq<char>) -> nat
    decreases pages.len(),
{
    if pages.len() == 0 {
        0
    } else {
        count_under(pages.drop_last(), prefix) + if has_prefix(pages.last().key@, prefix) {
            1nat
        } else {
            0nat
        }
    }
}

proof fn lemma_count_under_bound(pages: Seq<PageRow>, prefix: Seq<char>)
    ensures
        count_under(pages, prefix) <= pages.len(),
    decreases pages.len(),
{
    if pages.len() > 0 {
        lemma_count_under_bound(pages.drop_last(), prefix);
    }
}

/// How many of `pages` are filed under `prefix`.
fn pages_under_count(pages: &Vec<PageRow>, prefix: &str) -> (r: usize)
    ensures
        r == count_under(pages@, prefix@),
{
    let mut n: usize = 0;
    let mut i: usize = 0;
    while i < pages.len()
        invariant
            0 <= i <= pages@.len(),
            n == count_under(pages@.subrange(0, i as int), prefix@),
        decreases pages@.len() - i,
    {
        proof {
            assert(pages@.subrange(0, i + 1).drop_last() =~= pages@.subrange(0, i as int));
            lemma_count_under_bound(pages@.subrange(0, i as int), prefix@);
        }
        if starts_with(pages[i].key.as_str(), prefix) {
            n += 1;
        }
        i += 1;
    }
    proof {
        assert(pages@.subrange(0, i as int) =~= pages@);
    }
    n
}

/// The number of list entries from `cursor` on, at most `count`, of a list
/// of `total`.
pub open spec fn window_len(total: nat, cursor: nat, count: nat) -> nat {
    if cursor >= total {
        0
    } else if total - cursor < count {
        (total - cursor) as nat
    } else {
        count
    }
}

/// The cursor of the next window: just past this one when it was full,
/// else zero.
pub open spec fn next_cursor_of(len: nat, cursor: usize, count: usize) -> usize {
    if len == count {
        if cursor + count <= usize::MAX {
            (cursor + count) as usize
        } else {
            usize::MAX
        }
    } else {
        0
    }
}

/// A window of the site list of a snapshot, in row order: from `cursor`
/// (default 0), at most `count` (default 20) sites, each with its counters
/// and the number of its pages. Also returns the number of sites and the
/// cursor of the next window.
pub fn list_keys(snap: &Snapshot, params: &ListKeysParams) -> (r: (Vec<KeyInfo>, usize, usize))
    ensures
        ({
            let cursor: usize = match params.cursor {
                Some(c) => c,
                None => 0,
            };
            let count: usize = match params.count {
                Some(c) => c,
                None => 20,
            };
            &&& r.1 == snap.sites@.len()
            &&& r.0@.len() == window_len(snap.sites@.len(), cursor as nat, count as nat)
            &&& forall|i: int|
                0 <= i < r.0@.len() ==> {
                    let row = #[trigger] snap.sites@[cursor + i];
                    &&& r.0@[i].site_key@ == row.key@
                    &&& r.0@[i].site_pv == row.pv
                    &&& r.0@[i].site_uv == row.uv
                    &&& r.0@[i].page_count == count_under(snap.pages@, page_prefix(row.key@))
                }
            &&& r.2 == next_cursor_of(r.0@.len(), cursor, count)
        }),
{
    let cursor: usize = match params.cursor {
        Some(c) => c,
        None => 0,
    };
    let count: usize = match params.count {
        Some(c) => c,
        None => 20,
    };
    let total = snap.sites.len();
    let mut keys: Vec<KeyInfo> = Vec::new();
    let mut i: usize = cursor;
    while i < total && keys.len() < count
        invariant
            total == snap.sites@.len(),
            cursor <= i,
            i < total ==> keys@.len() == i - cursor,
            i >= total ==> keys@.len() == if cursor >= total { 0 } else { total - cursor },
            keys@.len() <= count,
            forall|j: int|
                0 <= j < keys@.len() ==> {
                    let row = #[trigger] snap.sites@[cursor + j];
                    &&& keys@[j].site_key@ == row.key@
                    &&& keys@[j].site_pv == row.pv
                    &&& keys@[j].site_uv == row.uv
                    &&& keys@[j].page_count == count_under(snap.pages@, page_prefix(row.key@))
                },
        decreases total - i,
    {
        let row = &snap.sites[i];
        let prefix = prefix_of(row.key.as_str());
        let page_count = pages_under_count(&snap.pages, prefix.as_str());
        keys.push(KeyInfo { site_key: row.key.clone(), site_pv: row.pv, site_uv: row.uv, page_count });
        i += 1;
    }
    let next = if keys.len() == count {
        cursor.saturating_add(count)
    } else {
        0
    };
    (keys, total, next)
}

/// The pages of `pages` filed under `prefix`, in order.
pub open spec fn rows_under(pages: Seq<PageRow>, prefix: Seq<char>) -> Seq<PageRow>
    decreases pages.len(),
{
    if pages.len() == 0 {
        Seq::empty()
    } else if has_prefix(pages.last().key@, prefix) {
        rows_under(pages.drop_last(), prefix).push(pages.last())
    } else {
        rows_under(pages.drop_last(), prefix)
    }
}

/// The first index at or after `j` whose page views are below `pv`; the
/// length when there is none.
pub open spec fn first_below(s: Seq<PageRow>, pv: u64, j: nat) -> nat
    decreases s.len() - j,
{
    if j >= s.len() {
        s.len()
    } else if s[j as int].pv < pv {
        j
    } else {
        first_below(s, pv, j + 1)
    }
}

/// `x` placed after every row of `s` with at least its page views.
pub open spec fn insert_desc(s: Seq<PageRow>, x: PageRow) -> Seq<PageRow> {
    s.insert(first_below(s, x.pv, 0) as int, x)
}

/// `s` ordered by page views, most first; rows with equal page views keep
/// their order.
pub open spec fn sort_desc(s: Seq<PageRow>) -> Seq<PageRow>
    decreases s.len(),
{
    if s.len() == 0 {
        Seq::empty()
    } else {
        insert_desc(sort_desc(s.drop_last()), s.last())
    }
}

proof fn lemma_first_below_bound(s: Seq<PageRow>, pv: u64, j: nat)
    ensures
        j <= s.len() ==> j <= first_below(s, pv, j) <= s.len(),
    decreases s.len() - j,
{
    if j < s.len() && s[j as int].pv >= pv {
        lemma_first_below_bound(s, pv, j + 1);
    }
}

proof fn lemma_sort_len(s: Seq<PageRow>)
    ensures
        sort_desc(s).len() == s.len(),
    decreases s.len(),
{
    if s.len() > 0 {
        lemma_sort_len(s.drop_last());
        lemma_first_below_bound(sort_desc(s.drop_last()), s.last().pv, 0);
    }
}

proof fn lemma_before_first_below(s: Seq<PageRow>, pv: u64, j: nat)
    ensures
        forall|i: int| j <= i < first_below(s, pv, j) ==> s[i].pv >= pv,
        first_below(s, pv, j) < s.len() ==> s[first_below(s, pv, j) as int].pv < pv,
    decreases s.len() - j,
{
    if j < s.len() && s[j as int].pv >= pv {
        lemma_before_first_below(s, pv, j + 1);
    }
}

/// What `sort_desc` gives, stated directly: the same rows, each as often,
/// with page views that never increase along the sequence.
pub proof fn lemma_sort_desc_orders_rows(s: Seq<PageRow>)
    ensures
        sort_desc(s).to_multiset() == s.to_multiset(),
        forall|i: int, j: int| 0 <= i < j < sort_desc(s).len() ==> sort_desc(s)[i].pv >= sort_desc(s)[j].pv,
    decreases s.len(),
{
    if s.len() > 0 {
        let t = sort_desc(s.drop_last());
        let x = s.last();
        lemma_sort_desc_orders_rows(s.drop_last());
        lemma_first_below_bound(t, x.pv, 0);
        lemma_before_first_below(t, x.pv, 0);
        let p = first_below(t, x.pv, 0) as int;
        vstd::seq_lib::to_multiset_insert(t, p, x);
        vstd::seq_lib::to_multiset_build(s.drop_last(), x);
        assert(s.drop_last().push(x) =~= s);
        let u = t.insert(p, x);
        assert(sort_desc(s) == u);
        assert(u.to_multiset() == t.to_multiset().insert(x));
        assert(s.to_multiset() == s.drop_last().to_multiset().insert(x));
        assert forall|i: int, j: int| 0 <= i < j < u.len() implies u[i].pv >= u[j].pv by {
            if j < p {
                assert(u[i] == t[i] && u[j] == t[j]);
            } else if j == p {
                assert(u[i] == t[i]);
            } else if i < p {
                assert(u[i] == t[i] && u[j] == t[j - 1]);
                if p < t.len() {
                    assert(t[p].pv < x.pv);
                }
            } else if i == p {
                assert(u[j] == t[j - 1]);
                assert(t[p].pv < x.pv);
                if j - 1 > p {
                    assert(t[p].pv >= t[j - 1].pv);
                }
            } else {
                assert(u[i] == t[i - 1] && u[j] == t[j - 1]);
            }
        }
    } else {
        assert(s =~= Seq::<PageRow>::empty());
    }
}

fn copy_row(row: &PageRow) -> (r: PageRow)
    ensures
        r == *row,
{
    let path = match &row.path {
        Some(p) => Some(p.clone()),
        None => None,
    };
    PageRow { key: row.key.clone(), pv: row.pv, path }
}

/// A window of the page list of one site in a snapshot, most viewed first
/// (ties in row order): from `cursor` (default 0), at most `count` (default
/// 50) pages, each with its path below the site. Also returns the number
/// of the site's pages and the cursor of the next window.
pub fn list_pages(snap: &Snapshot, params: &ListPagesParams) -> (r: (Vec<PageInfo>, usize, usize))
    ensures
        ({
            let cursor: usize = match params.cursor {
                Some(c) => c,
                None => 0,
            };
            let count: usize = match params.count {
                Some(c) => c,
                None => 50,
            };
            let prefix = page_prefix(params.site_key@);
            let sorted = sort_desc(rows_under(snap.pages@, prefix));
            &&& r.1 == sorted.len()
            &&& r.0@.len() == window_len(sorted.len(), cursor as nat, count as nat)
            &&& forall|i: int|
                0 <= i < r.0@.len() ==> {
                    let row = #[trigger] sorted[cursor + i];
                    &&& r.0@[i].page_key@ == row.key@
                    &&& r.0@[i].pv == row.pv
                    &&& r.0@[i].path@ == after(row.key@, prefix.len())
                }
            &&& r.2 == next_cursor_of(r.0@.len(), cursor, count)
        }),
{
    let cursor: usize = match params.cursor {
        Some(c) => c,
        None => 0,
    };
    let count: usize = match params.count {
        Some(c) => c,
        None => 50,
    };
    let prefix = prefix_of(params.site_key.as_str());
    let ghost pfx = prefix@;
    let mut sorted: Vec<PageRow> = Vec::new();
    let mut i: usize = 0;
    while i < snap.pages.len()
        invariant
            0 <= i <= snap.pages@.len(),
            pfx == prefix@,
            sorted@ == sort_desc(rows_under(snap.pages@.subrange(0, i as int), pfx)),
            forall|j: int| 0 <= j < sorted@.len() ==> has_prefix(#[trigger] sorted@[j].key@, pfx),
        decreases snap.pages@.len() - i,
    {
        let ghost before = snap.pages@.subrange(0, i as int);
        proof {
            assert(snap.pages@.subrange(0, i + 1).drop_last() =~= before);
        }
        if starts_with(snap.pages[i].key.as_str(), prefix.as_str()) {
            let x = copy_row(&snap.pages[i]);
            let mut p: usize = 0;
            while p < sorted.len() && sorted[p].pv >= x.pv
                invariant
                    0 <= p <= sorted@.len(),
                    first_below(sorted@, x.pv, 0) == first_below(sorted@, x.pv, p as nat),
                decreases sorted@.len() - p,
            {
                p += 1;
            }
            proof {
                assert(first_below(sorted@, x.pv, p as nat) == p);
                let now = snap.pages@.subrange(0, i + 1);
                assert(now.last() == x);
                assert(rows_under(now, pfx) == rows_under(before, pfx).push(x));
                assert(rows_under(now, pfx).drop_last() =~= rows_under(before, pfx));
            }
            let ghost old_sorted = sorted@;
            sorted.insert(p, x);
            proof {
                assert forall|j: int| 0 <= j < sorted@.len() implies has_prefix(#[trigger] sorted@[j].key@, pfx) by {
                    if j < p {
                        assert(sorted@[j] == old_sorted[j]);
                    } else if j > p {
                        assert(sorted@[j] == old_sorted[j - 1]);
                    }
                }
            }
        } else {
            proof {
                let now = snap.pages@.subrange(0, i + 1);
                assert(rows_under(now, pfx) == rows_under(before, pfx));
            }
        }
        i += 1;
    }
    proof {
        assert(snap.pages@.subrange(0, i as int) =~= snap.pages@);
        lemma_sort_len(rows_under(snap.pages@, pfx));
    }
    let total = sorted.len();
    let mut pages: Vec<PageInfo> = Vec::new();
    let mut k: usize = cursor;
    let plen = prefix.as_str().unicode_len();
    while k < total && pages.len() < count
        invariant
            total == sorted@.len(),
            plen == pfx.len(),
            sorted@ == sort_desc(rows_under(snap.pages@, pfx)),
            forall|j: int| 0 <= j < sorted@.len() ==> has_prefix(#[trigger] sorted@[j].key@, pfx),
            cursor <= k,
            k < total ==> pages@.len() == k - cursor,
            k >= total ==> pages@.len() == if cursor >= total { 0 } else { total - cursor },
            pages@.len() <= count,
            forall|j: int|
                0 <= j < pages@.len() ==> {
                    let row = #[trigger] sorted@[cursor + j];
                    &&& pages@[j].page_key@ == row.key@
                    &&& pages@[j].pv == row.pv
                    &&& pages@[j].path@ == after(row.key@, pfx.len())
                },
        decreases total - k,
    {
        let row = &sorted[k];
        let path = tail_from(row.key.as_str(), plen);
        pages.push(PageInfo { page_key: row.key.clone(), path, pv: row.pv });
        k += 1;
    }
    let next = if pages.len() == count {
        cursor.saturating_add(count)
    } else {
        0
    };
    (pages, total, next)
}

} // verus!
