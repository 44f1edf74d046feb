//! Laws of the store: what a run of counting requests leaves behind, and
//! what survives a snapshot followed by a load.

use crate::persist::{
    loaded, loaded_page_pv, loaded_site_pv, loaded_site_sets, loaded_site_uv, loaded_visitors, snapshot_of,
    PageRow, SiteRow, Snapshot, VisitorRow,
};
use crate::store::{count_or_zero, set_or_empty, visitor_hash_of, StoreView};
use crate::text::{after, has_prefix, page_prefix};
use vstd::multiset::Multiset;
use vstd::prelude::*;

verus! {

/// One counting request, as its keys, display texts and visitor token.
pub struct Pageview {
    pub site: Seq<char>,
    pub page: Seq<char>,
    pub host: Seq<char>,
    pub path: Seq<char>,
    pub token: Seq<char>,
}

/// The store after the counting requests `ops`, in order, from empty.
pub open spec fn replay(ops: Seq<Pageview>) -> StoreView
    decreases ops.len(),
{
    if ops.len() == 0 {
        StoreView::empty()
    } else {
        let o = ops.last();
        replay(ops.drop_last()).pageview(o.site, o.page, o.host, o.path, visitor_hash_of(o.token))
    }
}

/// How many of `ops` count a view of the site `k`.
pub open spec fn site_hits(ops: Seq<Pageview>, k: Seq<char>) -> nat
    decreases ops.len(),
{
    if ops.len() == 0 {
        0
    } else {
        site_hits(ops.drop_last(), k) + if ops.last().site == k {
            1nat
        } else {
            0nat
        }
    }
}

/// How many of `ops` count a view of the page `k`.
pub open spec fn page_hits(ops: Seq<Pageview>, k: Seq<char>) -> nat
    decreases ops.len(),
{
    if ops.len() == 0 {
        0
    } else {
        page_hits(ops.drop_last(), k) + if ops.last().page == k {
            1nat
        } else {
            0nat
        }
    }
}

/// The visitor hashes of the tokens of those of `ops` that visit the site `k`.
pub open spec fn site_visitor_hashes(ops: Seq<Pageview>, k: Seq<char>) -> Set<u64>
    decreases ops.len(),
{
    if ops.len() == 0 {
        Set::empty()
    } else if ops.last().site == k {
        site_visitor_hashes(ops.drop_last(), k).insert(visitor_hash_of(ops.last().token))
    } else {
        site_visitor_hashes(ops.drop_last(), k)
    }
}

proof fn lemma_site_hits_bound(ops: Seq<Pageview>, k: Seq<char>)
    ensures
        site_hits(ops, k) <= ops.len(),
    decreases ops.len(),
{
    if ops.len() > 0 {
        lemma_site_hits_bound(ops.drop_last(), k);
    }
}

proof fn lemma_page_hits_bound(ops: Seq<Pageview>, k: Seq<char>)
    ensures
        page_hits(ops, k) <= ops.len(),
    decreases ops.len(),
{
    if ops.len() > 0 {
        lemma_page_hits_bound(ops.drop_last(), k);
    }
}

/// After any run of counting requests from an empty store, the page views
/// of each site equal the number of requests for that site.
pub proof fn lemma_site_pv_counts_requests(ops: Seq<Pageview>, k: Seq<char>)
    requires
        ops.len() <= u64::MAX,
    ensures
        count_or_zero(replay(ops).site_pv, k) == site_hits(ops, k),
    decreases ops.len(),
{
    if ops.len() > 0 {
        lemma_site_pv_counts_requests(ops.drop_last(), k);
        lemma_site_hits_bound(ops.drop_last(), k);
    }
}

/// After any run of counting requests from an empty store, the page views
/// of each page equal the number of requests for that page.
pub proof fn lemma_page_pv_counts_requests(ops: Seq<Pageview>, k: Seq<char>)
    requires
        ops.len() <= u64::MAX,
    ensures
        count_or_zero(replay(ops).page_pv, k) == page_hits(ops, k),
    decreases ops.len(),
{
    if ops.len() > 0 {
        lemma_page_pv_counts_requests(ops.drop_last(), k);
        lemma_page_hits_bound(ops.drop_last(), k);
    }
}

proof fn lemma_visitor_hashes_finite(ops: Seq<Pageview>, k: Seq<char>)
    ensures
        site_visitor_hashes(ops, k).finite(),
        site_visitor_hashes(ops, k).len() <= site_hits(ops, k),
        site_hits(ops, k) > 0 <==> site_visitor_hashes(ops, k).len() > 0,
    decreases ops.len(),
{
    if ops.len() > 0 {
        lemma_visitor_hashes_finite(ops.drop_last(), k);
        if ops.last().site == k {
            let s = site_visitor_hashes(ops.drop_last(), k);
            let h = visitor_hash_of(ops.last().token);
            assert(s.insert(h).contains(h));
            assert(s.insert(h).len() > 0) by {
                if s.insert(h).len() == 0 {
                    s.insert(h).lemma_len0_is_empty();
                }
            }
        }
    }
}

/// After any run of counting requests from an empty store, the unique
/// visitors of each site equal the number of distinct visitor hashes among
/// the requests for that site, and its visitor set is exactly those hashes.
pub proof fn lemma_site_uv_counts_visitors(ops: Seq<Pageview>, k: Seq<char>)
    requires
        ops.len() <= u64::MAX,
    ensures
        count_or_zero(replay(ops).site_uv, k) == site_visitor_hashes(ops, k).len(),
        set_or_empty(replay(ops).visitors, k) == site_visitor_hashes(ops, k),
    decreases ops.len(),
{
    if ops.len() > 0 {
        let prev = ops.drop_last();
        lemma_site_uv_counts_visitors(prev, k);
        lemma_visitor_hashes_finite(prev, k);
        lemma_site_hits_bound(prev, k);
        let o = ops.last();
        let h = visitor_hash_of(o.token);
        let v = replay(prev);
        if o.site == k {
            let s = site_visitor_hashes(prev, k);
            if !s.contains(h) {
                assert(s.insert(h).len() == s.len() + 1);
            } else {
                assert(s.insert(h) =~= s);
            }
        }
    }
}

/// Counting requests keep the site counters and visitor sets on one set of
/// keys: every site with page views has unique visitors and a visitor set,
/// and no other site has either.
pub proof fn lemma_traffic_keeps_site_keys_aligned(ops: Seq<Pageview>)
    ensures
        replay(ops).site_uv.dom() == replay(ops).site_pv.dom(),
        replay(ops).visitors.dom() == replay(ops).site_pv.dom(),
    decreases ops.len(),
{
    if ops.len() > 0 {
        lemma_traffic_keeps_site_keys_aligned(ops.drop_last());
        let v = replay(ops.drop_last());
        let o = ops.last();
        assert(replay(ops).site_uv.dom() =~= replay(ops).site_pv.dom());
        assert(replay(ops).visitors.dom() =~= replay(ops).site_pv.dom());
    } else {
        assert(StoreView::empty().site_uv.dom() =~= StoreView::empty().site_pv.dom());
        assert(StoreView::empty().visitors.dom() =~= StoreView::empty().site_pv.dom());
    }
}


proof fn lemma_loaded_site_pv(rows: Seq<SiteRow>)
    ensures
        forall|k: Seq<char>|
            loaded_site_pv(rows).contains_key(k) <==> exists|i: int| 0 <= i < rows.len() && #[trigger] rows[i].key@ == k,
        forall|i: int|
            0 <= i < rows.len() && (forall|j: int| i < j < rows.len() ==> #[trigger] rows[j].key@ != rows[i].key@)
                ==> #[trigger] loaded_site_pv(rows)[rows[i].key@] == rows[i].pv && loaded_site_uv(rows)[rows[i].key@]
                == rows[i].uv,
        forall|k: Seq<char>|
            loaded_site_uv(rows).contains_key(k) <==> #[trigger] loaded_site_pv(rows).contains_key(k),
        forall|k: Seq<char>|
            #[trigger] loaded_site_sets(rows).contains_key(k) <==> loaded_site_pv(rows).contains_key(k),
        forall|k: Seq<char>| #[trigger] loaded_site_sets(rows).contains_key(k) ==> loaded_site_sets(rows)[k] == Set::<u64>::empty(),
    decreases rows.len(),
{
    if rows.len() > 0 {
        let prev = rows.drop_last();
        lemma_loaded_site_pv(prev);
        assert(loaded_site_pv(rows) == loaded_site_pv(prev).insert(rows.last().key@, rows.last().pv));
        assert(loaded_site_uv(rows) == loaded_site_uv(prev).insert(rows.last().key@, rows.last().uv));
        assert(loaded_site_sets(rows) == loaded_site_sets(prev).insert(rows.last().key@, Set::<u64>::empty()));
        assert forall|k: Seq<char>|
            loaded_site_pv(rows).contains_key(k) implies exists|i: int| 0 <= i < rows.len() && #[trigger] rows[i].key@ == k by {
            if k != rows.last().key@ {
                let i = choose|i: int| 0 <= i < prev.len() && #[trigger] prev[i].key@ == k;
                assert(rows[i].key@ == k);
            } else {
                assert(rows[rows.len() - 1].key@ == k);
            }
        }
        assert forall|k: Seq<char>|
            (exists|i: int| 0 <= i < rows.len() && #[trigger] rows[i].key@ == k) implies loaded_site_pv(rows).contains_key(k) by {
            let i = choose|i: int| 0 <= i < rows.len() && #[trigger] rows[i].key@ == k;
            if i < prev.len() {
                assert(prev[i].key@ == k);
            }
        }
        assert forall|i: int|
            0 <= i < rows.len() && (forall|j: int| i < j < rows.len() ==> #[trigger] rows[j].key@ != rows[i].key@) implies
            #[trigger] loaded_site_pv(rows)[rows[i].key@] == rows[i].pv && loaded_site_uv(rows)[rows[i].key@] == rows[i].uv by {
            if i < prev.len() {
                assert(rows[rows.len() - 1].key@ != rows[i].key@);
                assert forall|j: int| i < j < prev.len() implies #[trigger] prev[j].key@ != prev[i].key@ by {
                    assert(rows[j].key@ != rows[i].key@);
                }
                assert(prev[i] == rows[i]);
            }
        }
    }
}

proof fn lemma_loaded_page_pv(rows: Seq<PageRow>)
    ensures
        forall|k: Seq<char>|
            loaded_page_pv(rows).contains_key(k) <==> exists|i: int| 0 <= i < rows.len() && #[trigger] rows[i].key@ == k,
        forall|i: int|
            0 <= i < rows.len() && (forall|j: int| i < j < rows.len() ==> #[trigger] rows[j].key@ != rows[i].key@)
                ==> #[trigger] loaded_page_pv(rows)[rows[i].key@] == rows[i].pv,
    decreases rows.len(),
{
    if rows.len() > 0 {
        let prev = rows.drop_last();
        lemma_loaded_page_pv(prev);
        assert(loaded_page_pv(rows) == loaded_page_pv(prev).insert(rows.last().key@, rows.last().pv));
        assert forall|k: Seq<char>|
            loaded_page_pv(rows).contains_key(k) implies exists|i: int| 0 <= i < rows.len() && #[trigger] rows[i].key@ == k by {
            if k != rows.last().key@ {
                let i = choose|i: int| 0 <= i < prev.len() && #[trigger] prev[i].key@ == k;
                assert(rows[i].key@ == k);
            } else {
                assert(rows[rows.len() - 1].key@ == k);
            }
        }
        assert forall|k: Seq<char>|
            (exists|i: int| 0 <= i < rows.len() && #[trigger] rows[i].key@ == k) implies loaded_page_pv(rows).contains_key(k) by {
            let i = choose|i: int| 0 <= i < rows.len() && #[trigger] rows[i].key@ == k;
            if i < prev.len() {
                assert(prev[i].key@ == k);
            }
        }
        assert forall|i: int|
            0 <= i < rows.len() && (forall|j: int| i < j < rows.len() ==> #[trigger] rows[j].key@ != rows[i].key@) implies
            #[trigger] loaded_page_pv(rows)[rows[i].key@] == rows[i].pv by {
            if i < prev.len() {
                assert(rows[rows.len() - 1].key@ != rows[i].key@);
                assert forall|j: int| i < j < prev.len() implies #[trigger] prev[j].key@ != prev[i].key@ by {
                    assert(rows[j].key@ != rows[i].key@);
                }
                assert(prev[i] == rows[i]);
            }
        }
    }
}

proof fn lemma_loaded_visitors(base: Map<Seq<char>, Set<u64>>, rows: Seq<VisitorRow>)
    ensures
        forall|k: Seq<char>|
            #[trigger] loaded_visitors(base, rows).contains_key(k) <==> base.contains_key(k) || exists|i: int|
                0 <= i < rows.len() && #[trigger] rows[i].site_key@ == k,
        forall|k: Seq<char>, h: u64|
            #[trigger] set_or_empty(loaded_visitors(base, rows), k).contains(h) <==> set_or_empty(base, k).contains(h)
                || exists|i: int| 0 <= i < rows.len() && #[trigger] rows[i].site_key@ == k && rows[i].hash == h,
    decreases rows.len(),
{
    if rows.len() > 0 {
        let prev = rows.drop_last();
        lemma_loaded_visitors(base, prev);
        let last = rows.last();
        let mp = loaded_visitors(base, prev);
        assert(loaded_visitors(base, rows) == mp.insert(last.site_key@, set_or_empty(mp, last.site_key@).insert(last.hash)));
        assert forall|k: Seq<char>|
            #[trigger] loaded_visitors(base, rows).contains_key(k) implies base.contains_key(k) || exists|i: int|
                0 <= i < rows.len() && #[trigger] rows[i].site_key@ == k by {
            if k == last.site_key@ {
                assert(rows[rows.len() - 1].site_key@ == k);
            } else if !base.contains_key(k) {
                let i = choose|i: int| 0 <= i < prev.len() && #[trigger] prev[i].site_key@ == k;
                assert(rows[i].site_key@ == k);
            }
        }
        assert forall|k: Seq<char>|
            base.contains_key(k) || (exists|i: int| 0 <= i < rows.len() && #[trigger] rows[i].site_key@ == k)
            implies #[trigger] loaded_visitors(base, rows).contains_key(k) by {
            if !base.contains_key(k) && k != last.site_key@ {
                let i = choose|i: int| 0 <= i < rows.len() && #[trigger] rows[i].site_key@ == k;
                assert(prev[i].site_key@ == k);
            }
        }
        assert forall|k: Seq<char>, h: u64|
            #[trigger] set_or_empty(loaded_visitors(base, rows), k).contains(h) <==> set_or_empty(base, k).contains(h)
                || exists|i: int| 0 <= i < rows.len() && #[trigger] rows[i].site_key@ == k && rows[i].hash == h by {
            if set_or_empty(loaded_visitors(base, rows), k).contains(h) {
                if k == last.site_key@ && h == last.hash {
                    assert(rows[rows.len() - 1].site_key@ == k);
                } else if !set_or_empty(base, k).contains(h) {
                    assert(set_or_empty(loaded_visitors(base, prev), k).contains(h));
                    let i = choose|i: int| 0 <= i < prev.len() && #[trigger] prev[i].site_key@ == k && prev[i].hash == h;
                    assert(rows[i].site_key@ == k);
                }
            }
            if set_or_empty(base, k).contains(h) {
                assert(set_or_empty(loaded_visitors(base, prev), k).contains(h));
            }
            if exists|i: int| 0 <= i < rows.len() && #[trigger] rows[i].site_key@ == k && rows[i].hash == h {
                let i = choose|i: int| 0 <= i < rows.len() && #[trigger] rows[i].site_key@ == k && rows[i].hash == h;
                if i < prev.len() {
                    assert(prev[i].site_key@ == k);
                    assert(set_or_empty(loaded_visitors(base, prev), k).contains(h));
                }
            }
        }
    }
}

/// Writing a snapshot of a store and loading it into an empty one gives
/// back the same counters and visitor sets, for every store whose sites have
/// page views, unique visitors and a visitor set alike.
pub proof fn lemma_snapshot_then_load(v: StoreView, s: Snapshot)
    requires
        snapshot_of(v, s),
        v.site_uv.dom() == v.site_pv.dom(),
        v.visitors.dom() == v.site_pv.dom(),
    ensures
        loaded(s).site_pv == v.site_pv,
        loaded(s).site_uv == v.site_uv,
        loaded(s).page_pv == v.page_pv,
        loaded(s).visitors == v.visitors,
{
    let sites = s.sites@;
    let pages = s.pages@;
    lemma_loaded_site_pv(sites);
    lemma_loaded_page_pv(pages);
    lemma_loaded_visitors(loaded_site_sets(sites), s.visitors@);
    assert forall|k: Seq<char>| #[trigger] loaded(s).site_pv.contains_key(k) <==> v.site_pv.contains_key(k) by {
        if v.site_pv.contains_key(k) {
            let i = choose|i: int| 0 <= i < sites.len() && #[trigger] sites[i].key@ == k;
        }
    }
    assert forall|i: int| 0 <= i < sites.len() implies #[trigger] loaded(s).site_pv[sites[i].key@] == sites[i].pv
        && loaded(s).site_uv[sites[i].key@] == sites[i].uv by {
        assert forall|j: int| i < j < sites.len() implies #[trigger] sites[j].key@ != sites[i].key@ by {}
    }
    assert forall|k: Seq<char>| #[trigger] loaded(s).site_pv.contains_key(k) implies loaded(s).site_pv[k] == v.site_pv[k]
        && loaded(s).site_uv[k] == v.site_uv[k] by {
        let i = choose|i: int| 0 <= i < sites.len() && #[trigger] sites[i].key@ == k;
        assert(loaded(s).site_pv[sites[i].key@] == sites[i].pv);
        assert(v.site_uv.contains_key(k));
    }
    assert(loaded(s).site_pv =~= v.site_pv);
    assert(loaded(s).site_uv =~= v.site_uv);
    assert forall|k: Seq<char>| #[trigger] loaded(s).page_pv.contains_key(k) <==> v.page_pv.contains_key(k) by {
        if v.page_pv.contains_key(k) {
            let i = choose|i: int| 0 <= i < pages.len() && #[trigger] pages[i].key@ == k;
        }
    }
    assert forall|i: int| 0 <= i < pages.len() implies #[trigger] loaded(s).page_pv[pages[i].key@] == pages[i].pv by {
        assert forall|j: int| i < j < pages.len() implies #[trigger] pages[j].key@ != pages[i].key@ by {}
    }
    assert forall|k: Seq<char>| #[trigger] loaded(s).page_pv.contains_key(k) implies loaded(s).page_pv[k] == v.page_pv[k] by {
        let i = choose|i: int| 0 <= i < pages.len() && #[trigger] pages[i].key@ == k;
        assert(loaded(s).page_pv[pages[i].key@] == pages[i].pv);
    }
    assert(loaded(s).page_pv =~= v.page_pv);
    let lv = loaded(s).visitors;
    assert forall|k: Seq<char>| #[trigger] lv.contains_key(k) <==> v.visitors.contains_key(k) by {
        if lv.contains_key(k) && !loaded_site_sets(sites).contains_key(k) {
            let i = choose|i: int| 0 <= i < s.visitors@.len() && #[trigger] s.visitors@[i].site_key@ == k;
        }
    }
    assert forall|k: Seq<char>| #[trigger] lv.contains_key(k) implies lv[k] == v.visitors[k] by {
        assert forall|h: u64| lv[k].contains(h) <==> v.visitors[k].contains(h) by {
            assert(set_or_empty(lv, k).contains(h) == lv[k].contains(h));
            if v.visitors[k].contains(h) {
                let i = choose|i: int| 0 <= i < s.visitors@.len() && #[trigger] s.visitors@[i].site_key@ == k
                    && s.visitors@[i].hash == h;
            }
            if set_or_empty(loaded_site_sets(sites), k).contains(h) {
                assert(loaded_site_sets(sites)[k] == Set::<u64>::empty());
            }
        }
        assert(lv[k] =~= v.visitors[k]);
    }
    assert(lv =~= v.visitors);
}

/// For every store, writing a snapshot and loading it into an empty store
/// gives back the same site and page views, the same unique visitors for
/// every site with page views (zero standing for none), and the same
/// visitor set for every site (empty standing for none).
pub proof fn lemma_snapshot_then_load_any_store(v: StoreView, s: Snapshot)
    requires
        snapshot_of(v, s),
    ensures
        loaded(s).site_pv == v.site_pv,
        loaded(s).page_pv == v.page_pv,
        forall|k: Seq<char>|
            #[trigger] v.site_pv.contains_key(k) ==> count_or_zero(loaded(s).site_uv, k) == count_or_zero(v.site_uv, k),
        forall|k: Seq<char>| #[trigger] set_or_empty(loaded(s).visitors, k) == set_or_empty(v.visitors, k),
{
    let sites = s.sites@;
    let pages = s.pages@;
    lemma_loaded_site_pv(sites);
    lemma_loaded_page_pv(pages);
    lemma_loaded_visitors(loaded_site_sets(sites), s.visitors@);
    assert forall|k: Seq<char>| #[trigger] loaded(s).site_pv.contains_key(k) <==> v.site_pv.contains_key(k) by {
        if v.site_pv.contains_key(k) {
            let i = choose|i: int| 0 <= i < sites.len() && #[trigger] sites[i].key@ == k;
        }
    }
    assert forall|i: int| 0 <= i < sites.len() implies #[trigger] loaded(s).site_pv[sites[i].key@] == sites[i].pv
        && loaded(s).site_uv[sites[i].key@] == sites[i].uv by {
        assert forall|j: int| i < j < sites.len() implies #[trigger] sites[j].key@ != sites[i].key@ by {}
    }
    assert forall|k: Seq<char>| #[trigger] v.site_pv.contains_key(k) implies loaded(s).site_pv[k] == v.site_pv[k]
        && count_or_zero(loaded(s).site_uv, k) == count_or_zero(v.site_uv, k) by {
        let i = choose|i: int| 0 <= i < sites.len() && #[trigger] sites[i].key@ == k;
        assert(loaded(s).site_pv[sites[i].key@] == sites[i].pv);
        assert(loaded_site_pv(sites).contains_key(k));
        assert(loaded_site_uv(sites).contains_key(k));
    }
    assert(loaded(s).site_pv =~= v.site_pv);
    assert forall|k: Seq<char>| #[trigger] loaded(s).page_pv.contains_key(k) <==> v.page_pv.contains_key(k) by {
        if v.page_pv.contains_key(k) {
            let i = choose|i: int| 0 <= i < pages.len() && #[trigger] pages[i].key@ == k;
        }
    }
    assert forall|i: int| 0 <= i < pages.len() implies #[trigger] loaded(s).page_pv[pages[i].key@] == pages[i].pv by {
        assert forall|j: int| i < j < pages.len() implies #[trigger] pages[j].key@ != pages[i].key@ by {}
    }
    assert forall|k: Seq<char>| #[trigger] loaded(s).page_pv.contains_key(k) implies loaded(s).page_pv[k] == v.page_pv[k] by {
        let i = choose|i: int| 0 <= i < pages.len() && #[trigger] pages[i].key@ == k;
        assert(loaded(s).page_pv[pages[i].key@] == pages[i].pv);
    }
    assert(loaded(s).page_pv =~= v.page_pv);
    let lv = loaded(s).visitors;
    assert forall|k: Seq<char>| #[trigger] set_or_empty(lv, k) == set_or_empty(v.visitors, k) by {
        assert forall|h: u64| set_or_empty(lv, k).contains(h) <==> set_or_empty(v.visitors, k).contains(h) by {
            if set_or_empty(v.visitors, k).contains(h) {
                assert(v.visitors[k].contains(h));
                let i = choose|i: int| 0 <= i < s.visitors@.len() && #[trigger] s.visitors@[i].site_key@ == k
                    && s.visitors@[i].hash == h;
            }
            if set_or_empty(loaded_site_sets(sites), k).contains(h) {
                assert(loaded_site_sets(sites)[k] == Set::<u64>::empty());
            }
        }
        assert(set_or_empty(lv, k) =~= set_or_empty(v.visitors, k));
    }
}

/// Loading (or importing) rows whose site keys and page keys are each
/// distinct gives exactly those rows: a site or page is present if and only
/// if a row names it, with that row's counters, each site's visitor set
/// holds exactly the hashes its visitor rows pair with it, nothing of the
/// previous contents remains, and no visitor counts as newly seen.
pub proof fn lemma_load_gives_exactly_the_rows(s: Snapshot)
    requires
        forall|i: int, j: int|
            0 <= i < s.sites@.len() && 0 <= j < s.sites@.len() && i != j ==> #[trigger] s.sites@[i].key@
                != #[trigger] s.sites@[j].key@,
        forall|i: int, j: int|
            0 <= i < s.pages@.len() && 0 <= j < s.pages@.len() && i != j ==> #[trigger] s.pages@[i].key@
                != #[trigger] s.pages@[j].key@,
    ensures
        forall|k: Seq<char>|
            #[trigger] loaded(s).site_pv.contains_key(k) <==> exists|i: int|
                0 <= i < s.sites@.len() && #[trigger] s.sites@[i].key@ == k,
        forall|i: int|
            0 <= i < s.sites@.len() ==> #[trigger] loaded(s).site_pv[s.sites@[i].key@] == s.sites@[i].pv
                && loaded(s).site_uv[s.sites@[i].key@] == s.sites@[i].uv,
        loaded(s).site_uv.dom() == loaded(s).site_pv.dom(),
        forall|k: Seq<char>|
            #[trigger] loaded(s).page_pv.contains_key(k) <==> exists|i: int|
                0 <= i < s.pages@.len() && #[trigger] s.pages@[i].key@ == k,
        forall|i: int| 0 <= i < s.pages@.len() ==> #[trigger] loaded(s).page_pv[s.pages@[i].key@] == s.pages@[i].pv,
        forall|k: Seq<char>, h: u64|
            #[trigger] set_or_empty(loaded(s).visitors, k).contains(h) <==> exists|i: int|
                0 <= i < s.visitors@.len() && #[trigger] s.visitors@[i].site_key@ == k && s.visitors@[i].hash == h,
        loaded(s).new_visitors.len() == 0,
{
    let sites = s.sites@;
    let pages = s.pages@;
    lemma_loaded_site_pv(sites);
    lemma_loaded_page_pv(pages);
    lemma_loaded_visitors(loaded_site_sets(sites), s.visitors@);
    assert forall|i: int| 0 <= i < sites.len() implies #[trigger] loaded(s).site_pv[sites[i].key@] == sites[i].pv
        && loaded(s).site_uv[sites[i].key@] == sites[i].uv by {
        assert forall|j: int| i < j < sites.len() implies #[trigger] sites[j].key@ != sites[i].key@ by {
            assert(s.sites@[i].key@ != s.sites@[j].key@);
        }
        assert(loaded_site_pv(sites)[sites[i].key@] == sites[i].pv);
    }
    assert forall|i: int| 0 <= i < pages.len() implies #[trigger] loaded(s).page_pv[pages[i].key@] == pages[i].pv by {
        assert forall|j: int| i < j < pages.len() implies #[trigger] pages[j].key@ != pages[i].key@ by {
            assert(s.pages@[i].key@ != s.pages@[j].key@);
        }
    }
    assert(loaded(s).site_uv.dom() =~= loaded(s).site_pv.dom());
    assert forall|k: Seq<char>, h: u64| #[trigger] set_or_empty(loaded(s).visitors, k).contains(h) <==> exists|i: int|
        0 <= i < s.visitors@.len() && #[trigger] s.visitors@[i].site_key@ == k && s.visitors@[i].hash == h by {
        if set_or_empty(loaded_site_sets(sites), k).contains(h) {
            assert(loaded_site_sets(sites)[k] == Set::<u64>::empty());
        }
    }
}

/// After any run of counting requests from an empty store, a snapshot loaded
/// into an empty store gives back the same counters and visitor sets.
pub proof fn lemma_traffic_survives_snapshot_and_load(ops: Seq<Pageview>, s: Snapshot)
    requires
        snapshot_of(replay(ops), s),
    ensures
        loaded(s).site_pv == replay(ops).site_pv,
        loaded(s).site_uv == replay(ops).site_uv,
        loaded(s).page_pv == replay(ops).page_pv,
        loaded(s).visitors == replay(ops).visitors,
{
    lemma_traffic_keeps_site_keys_aligned(ops);
    lemma_snapshot_then_load(replay(ops), s);
}


/// A visitor already in a site's set is not counted again: a further visit
/// leaves the site's unique visitors, visitor set and list of newly seen
/// visitors as they were, and adds one page view.
pub proof fn lemma_known_visitor_not_recounted(v: StoreView, site: Seq<char>, h: u64)
    requires
        v.knows_visitor(site, h),
    ensures
        v.site_visit(site, h).site_uv == v.site_uv,
        v.site_visit(site, h).visitors == v.visitors,
        v.site_visit(site, h).new_visitors == v.new_visitors,
        v.site_visit(site, h).site_pv[site] == crate::store::bump(count_or_zero(v.site_pv, site)),
{
    assert(v.visitors[site].insert(h) =~= v.visitors[site]);
    assert(v.visitors.insert(site, v.visitors[site]) =~= v.visitors);
}

/// Deleting a site removes every page filed under it.
pub proof fn lemma_delete_site_removes_its_pages(v: StoreView, site: Seq<char>, page: Seq<char>)
    requires
        has_prefix(page, page_prefix(site)),
    ensures
        !v.delete_site(site).page_pv.contains_key(page),
        !v.delete_site(site).page_paths.contains_key(page),
{
}

/// The key that a site key becomes when `from` is renamed to `to`.
pub open spec fn renamed_site_key(k: Seq<char>, from: Seq<char>, to: Seq<char>) -> Seq<char> {
    if k == from {
        to
    } else {
        k
    }
}

/// The key that a page key becomes when `from` is renamed to `to`.
pub open spec fn renamed_page_key(k: Seq<char>, from: Seq<char>, to: Seq<char>) -> Seq<char> {
    if has_prefix(k, page_prefix(from)) {
        page_prefix(to) + after(k, page_prefix(from).len())
    } else {
        k
    }
}

/// A rename to a key that has no page views and under which no page is
/// filed permutes the keyspace: each site and page counter reappears, with
/// the same value, under its renamed key; no other key holds a counter; and
/// no two keys are renamed alike. So the counter values, taken with their
/// multiplicity, are the same before and after. For unique visitors this
/// holds unless both keys have them: the old key's count then replaces the
/// new key's.
pub proof fn lemma_rename_permutes_counters(v: StoreView, from: Seq<char>, to: Seq<char>)
    requires
        from != to,
        v.site_pv.contains_key(from),
        !v.site_pv.contains_key(to),
        forall|p: Seq<char>| #[trigger] v.page_pv.contains_key(p) ==> !has_prefix(p, page_prefix(to)),
    ensures
        forall|k: Seq<char>|
            #[trigger] v.site_pv.contains_key(k) ==> v.rename_site(from, to).site_pv.contains_key(
                renamed_site_key(k, from, to),
            ) && v.rename_site(from, to).site_pv[renamed_site_key(k, from, to)] == v.site_pv[k],
        !(v.site_uv.contains_key(from) && v.site_uv.contains_key(to)) ==>
        (forall|k: Seq<char>|
            #[trigger] v.site_uv.contains_key(k) ==> v.rename_site(from, to).site_uv.contains_key(
                renamed_site_key(k, from, to),
            ) && v.rename_site(from, to).site_uv[renamed_site_key(k, from, to)] == v.site_uv[k]),
        forall|k: Seq<char>|
            #[trigger] v.rename_site(from, to).site_pv.contains_key(k) ==> exists|j: Seq<char>|
                #[trigger] v.site_pv.contains_key(j) && renamed_site_key(j, from, to) == k,
        !(v.site_uv.contains_key(from) && v.site_uv.contains_key(to)) ==>
        (forall|k: Seq<char>|
            #[trigger] v.rename_site(from, to).site_uv.contains_key(k) ==> exists|j: Seq<char>|
                #[trigger] v.site_uv.contains_key(j) && renamed_site_key(j, from, to) == k),
        forall|a: Seq<char>, b: Seq<char>|
            a != b && v.site_pv.contains_key(a) && v.site_pv.contains_key(b) ==> #[trigger] renamed_site_key(a, from, to)
                != #[trigger] renamed_site_key(b, from, to),
        !(v.site_uv.contains_key(from) && v.site_uv.contains_key(to)) ==>
        (forall|a: Seq<char>, b: Seq<char>|
            a != b && v.site_uv.contains_key(a) && v.site_uv.contains_key(b) ==> #[trigger] renamed_site_key(a, from, to)
                != #[trigger] renamed_site_key(b, from, to)),
        forall|p: Seq<char>|
            #[trigger] v.page_pv.contains_key(p) ==> v.rename_site(from, to).page_pv.contains_key(
                renamed_page_key(p, from, to),
            ) && v.rename_site(from, to).page_pv[renamed_page_key(p, from, to)] == v.page_pv[p],
        forall|p: Seq<char>|
            #[trigger] v.rename_site(from, to).page_pv.contains_key(p) ==> exists|j: Seq<char>|
                #[trigger] v.page_pv.contains_key(j) && renamed_page_key(j, from, to) == p,
        forall|a: Seq<char>, b: Seq<char>|
            a != b && v.page_pv.contains_key(a) && v.page_pv.contains_key(b) ==> #[trigger] renamed_page_key(a, from, to)
                != #[trigger] renamed_page_key(b, from, to),
{
    let w = v.rename_site(from, to);
    let fp = page_prefix(from);
    let tp = page_prefix(to);
    assert forall|p: Seq<char>| #[trigger] v.page_pv.contains_key(p) implies w.page_pv.contains_key(
        renamed_page_key(p, from, to),
    ) && w.page_pv[renamed_page_key(p, from, to)] == v.page_pv[p] by {
        if has_prefix(p, fp) {
            let sfx = after(p, fp.len());
            assert((tp + sfx).subrange(0, tp.len() as int) =~= tp);
            assert(after(tp + sfx, tp.len()) =~= sfx);
            assert(fp + sfx =~= p);
        }
    }
    assert forall|p: Seq<char>| #[trigger] w.page_pv.contains_key(p) implies exists|j: Seq<char>|
        #[trigger] v.page_pv.contains_key(j) && renamed_page_key(j, from, to) == p by {
        if has_prefix(p, tp) && v.page_pv.contains_key(fp + after(p, tp.len())) {
            let sfx = after(p, tp.len());
            let j = fp + sfx;
            assert(j.subrange(0, fp.len() as int) =~= fp);
            assert(after(j, fp.len()) =~= sfx);
            assert(tp + sfx =~= p);
            assert(renamed_page_key(j, from, to) == p);
        } else {
            assert(renamed_page_key(p, from, to) == p);
        }
    }
    assert forall|a: Seq<char>, b: Seq<char>|
        a != b && v.page_pv.contains_key(a) && v.page_pv.contains_key(b) implies #[trigger] renamed_page_key(a, from, to)
        != #[trigger] renamed_page_key(b, from, to) by {
        let ra = renamed_page_key(a, from, to);
        let rb = renamed_page_key(b, from, to);
        if has_prefix(a, fp) && has_prefix(b, fp) {
            if ra == rb {
                let sa = after(a, fp.len());
                let sb = after(b, fp.len());
                assert(after(ra, tp.len()) =~= sa);
                assert(after(rb, tp.len()) =~= sb);
                assert(fp + sa =~= a);
                assert(fp + sb =~= b);
            }
        } else if has_prefix(a, fp) {
            assert(ra.subrange(0, tp.len() as int) =~= tp);
        } else if has_prefix(b, fp) {
            assert(rb.subrange(0, tp.len() as int) =~= tp);
        }
    }
}

/// The counter values of `m`, each as often as it occurs.
pub open spec fn counter_values(m: Map<Seq<char>, u64>) -> Multiset<u64>
    decreases m.dom().len(),
    via counter_values_decreases
{
    if m.dom().finite() && m.dom().len() > 0 {
        let k = m.dom().choose();
        counter_values(m.remove(k)).insert(m[k])
    } else {
        Multiset::empty()
    }
}

#[via_fn]
proof fn counter_values_decreases(m: Map<Seq<char>, u64>) {
    if m.dom().finite() && m.dom().len() > 0 {
        if !m.dom().contains(m.dom().choose()) {
            m.dom().lemma_len0_is_empty();
        }
        assert(m.remove(m.dom().choose()).dom() =~= m.dom().remove(m.dom().choose()));
    }
}

proof fn lemma_choose_in_dom(m: Map<Seq<char>, u64>)
    requires
        m.dom().finite(),
        m.dom().len() > 0,
    ensures
        m.dom().contains(m.dom().choose()),
{
    if !m.dom().contains(m.dom().choose()) {
        m.dom().lemma_len0_is_empty();
    }
}

proof fn lemma_counter_values_remove(m: Map<Seq<char>, u64>, k: Seq<char>)
    requires
        m.dom().finite(),
        m.contains_key(k),
    ensures
        counter_values(m) == counter_values(m.remove(k)).insert(m[k]),
    decreases m.dom().len(),
{
    lemma_choose_in_dom(m);
    let c = m.dom().choose();
    assert(m.remove(k).dom() =~= m.dom().remove(k));
    assert(m.remove(c).dom() =~= m.dom().remove(c));
    if c != k {
        lemma_counter_values_remove(m.remove(c), k);
        lemma_counter_values_remove(m.remove(k), c);
        assert(m.remove(c).remove(k) =~= m.remove(k).remove(c));
        let r = counter_values(m.remove(c).remove(k));
        assert(r.insert(m[k]).insert(m[c]) =~= r.insert(m[c]).insert(m[k]));
    }
}

/// Two maps whose keys correspond one to one through `f`, with equal
/// values at corresponding keys, hold the same counter values.
pub proof fn lemma_counter_values_of_bijection(
    a: Map<Seq<char>, u64>,
    b: Map<Seq<char>, u64>,
    f: spec_fn(Seq<char>) -> Seq<char>,
)
    requires
        a.dom().finite(),
        b.dom().finite(),
        forall|k: Seq<char>| #[trigger] a.contains_key(k) ==> b.contains_key(f(k)) && b[f(k)] == a[k],
        forall|k: Seq<char>| #[trigger] b.contains_key(k) ==> exists|j: Seq<char>| a.contains_key(j) && #[trigger] f(j) == k,
        forall|x: Seq<char>, y: Seq<char>|
            x != y && a.contains_key(x) && a.contains_key(y) ==> #[trigger] f(x) != #[trigger] f(y),
    ensures
        counter_values(a) == counter_values(b),
    decreases a.dom().len(),
{
    if a.dom().len() == 0 {
        a.dom().lemma_len0_is_empty();
        if b.dom().len() > 0 {
            lemma_choose_in_dom(b);
            let j = choose|j: Seq<char>| a.contains_key(j) && #[trigger] f(j) == b.dom().choose();
            assert(a.dom().contains(j));
        }
    } else {
        lemma_choose_in_dom(a);
        let k = a.dom().choose();
        lemma_counter_values_remove(a, k);
        lemma_counter_values_remove(b, f(k));
        let a2 = a.remove(k);
        let b2 = b.remove(f(k));
        assert(a2.dom() =~= a.dom().remove(k));
        assert(b2.dom() =~= b.dom().remove(f(k)));
        assert forall|q: Seq<char>| #[trigger] b2.contains_key(q) implies exists|j: Seq<char>|
            a2.contains_key(j) && #[trigger] f(j) == q by {
            let j = choose|j: Seq<char>| a.contains_key(j) && #[trigger] f(j) == q;
            assert(a2.contains_key(j));
        }
        lemma_counter_values_of_bijection(a2, b2, f);
    }
}

/// A rename to a key that has no page views and under which no page is
/// filed keeps the counter values of the whole keyspace: site and page
/// views taken together hold the same values with the same multiplicities
/// before and after, and so do unique visitors unless both keys have them.
pub proof fn lemma_rename_keeps_counter_values(v: StoreView, from: Seq<char>, to: Seq<char>)
    requires
        from != to,
        v.site_pv.contains_key(from),
        !v.site_pv.contains_key(to),
        forall|p: Seq<char>| #[trigger] v.page_pv.contains_key(p) ==> !has_prefix(p, page_prefix(to)),
        v.site_pv.dom().finite(),
        v.site_uv.dom().finite(),
        v.page_pv.dom().finite(),
    ensures
        counter_values(v.rename_site(from, to).site_pv).add(counter_values(v.rename_site(from, to).page_pv))
            == counter_values(v.site_pv).add(counter_values(v.page_pv)),
        !(v.site_uv.contains_key(from) && v.site_uv.contains_key(to)) ==> counter_values(
            v.rename_site(from, to).site_uv,
        ) == counter_values(v.site_uv),
{
    let w = v.rename_site(from, to);
    lemma_rename_permutes_counters(v, from, to);
    let fs = |k: Seq<char>| renamed_site_key(k, from, to);
    let fp = |k: Seq<char>| renamed_page_key(k, from, to);
    assert(w.site_pv.dom() =~= v.site_pv.dom().map(fs)) by {
        assert forall|k: Seq<char>| w.site_pv.dom().contains(k) implies v.site_pv.dom().map(fs).contains(k) by {
            let j = choose|j: Seq<char>| #[trigger] v.site_pv.contains_key(j) && renamed_site_key(j, from, to) == k;
            assert(fs(j) == k);
        }
    }
    assert(w.page_pv.dom() =~= v.page_pv.dom().map(fp)) by {
        assert forall|k: Seq<char>| w.page_pv.dom().contains(k) implies v.page_pv.dom().map(fp).contains(k) by {
            let j = choose|j: Seq<char>| #[trigger] v.page_pv.contains_key(j) && renamed_page_key(j, from, to) == k;
            assert(fp(j) == k);
        }
    }
    v.site_pv.dom().lemma_map_finite(fs);
    v.page_pv.dom().lemma_map_finite(fp);
    lemma_counter_values_of_bijection(v.site_pv, w.site_pv, fs);
    if !(v.site_uv.contains_key(from) && v.site_uv.contains_key(to)) {
        assert(w.site_uv.dom() =~= v.site_uv.dom().map(fs)) by {
            assert forall|k: Seq<char>| w.site_uv.dom().contains(k) implies v.site_uv.dom().map(fs).contains(k) by {
                let j = choose|j: Seq<char>| #[trigger] v.site_uv.contains_key(j) && renamed_site_key(j, from, to) == k;
                assert(fs(j) == k);
            }
        }
        v.site_uv.dom().lemma_map_finite(fs);
        lemma_counter_values_of_bijection(v.site_uv, w.site_uv, fs);
    }
    lemma_counter_values_of_bijection(v.page_pv, w.page_pv, fp);
}

/// Merging adds the source's page views to the target's: when the sum fits
/// in a counter, the target holds exactly that sum afterwards.
pub proof fn lemma_merge_adds_site_pv(v: StoreView, from: Seq<char>, to: Seq<char>)
    requires
        from != to,
        v.site_pv.contains_key(from),
        v.site_pv[from] + count_or_zero(v.site_pv, to) <= u64::MAX,
    ensures
        v.merge_site(from, to).site_pv[to] == v.site_pv[from] + count_or_zero(v.site_pv, to),
        !v.merge_site(from, to).site_pv.contains_key(from),
{
}

} // verus!
