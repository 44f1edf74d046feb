//! The in-memory counter store: per-site page views, unique visitors and
//! visitor sets, per-page page views, the display maps, and the list of
//! visitors first seen since the last snapshot.

use crate::tables::{
    counter_clear, counter_entries, counter_get, counter_remove, counter_set, counter_table_new,
    counts_of, label_clear, label_get, label_keys, label_remove, label_set, label_table_new, labels_of,
    visitor_sets_of, visitor_table_new, visitors_clear, visitors_contains, visitors_ensure,
    visitors_insert, visitors_members, visitors_remove, visitors_sites,
};
use dashmap::{DashMap, DashSet};
use std::collections::hash_map::{DefaultHasher, RandomState};
use std::hash::{BuildHasher, BuildHasherDefault};
use crate::persist::{
    entry_of, opt_view,    loaded, loaded_hosts, loaded_page_pv, loaded_paths, loaded_site_pv, loaded_site_sets, loaded_site_uv,
    loaded_visitors, page_rows_of, site_rows_of, snapshot_of, visitor_rows_of, PageRow, SiteRow, Snapshot,
    VisitorRow,
};
use crate::text::{after, has_prefix, joined, page_prefix, prefix_of, starts_with, tail_from};
use vstd::prelude::*;

verus! {

/// The hash of a visitor token under the fixed-seed default hasher.
pub uninterp spec fn visitor_hash_of(token: Seq<char>) -> u64;

/// Relies on `BuildHasher::hash_one` over `BuildHasherDefault<DefaultHasher>`,
/// whose keys are fixed: the hash depends on the token alone. The standard
/// library keeps this hash the same within one build but does not promise
/// it across Rust releases, and the hashes are written to the database
/// file: a toolchain change may make returning visitors count as new.
#[verifier::external_body]
pub(crate) fn visitor_hash(token: &str) -> (r: u64)
    ensures
        r == visitor_hash_of(token@),
{
    BuildHasherDefault::<DefaultHasher>::default().hash_one(token)
}

/// A counter after one more event; counters wrap as an atomic add does.
pub open spec fn bump(x: u64) -> u64 {
    if x == u64::MAX {
        0
    } else {
        (x + 1) as u64
    }
}

/// The sum of two counters, wrapping as an atomic add does.
pub open spec fn wrap_add(a: u64, b: u64) -> u64 {
    if a + b <= u64::MAX {
        (a + b) as u64
    } else {
        (a + b - 0x1_0000_0000_0000_0000) as u64
    }
}

/// The counter under `k`, zero when there is none.
pub open spec fn count_or_zero(m: Map<Seq<char>, u64>, k: Seq<char>) -> u64 {
    if m.contains_key(k) {
        m[k]
    } else {
        0
    }
}

/// The visitor set under `k`, empty when there is none.
pub open spec fn set_or_empty(m: Map<Seq<char>, Set<u64>>, k: Seq<char>) -> Set<u64> {
    if m.contains_key(k) {
        m[k]
    } else {
        Set::empty()
    }
}

/// What the store holds, as mathematical maps.
pub struct StoreView {
    pub site_pv: Map<Seq<char>, u64>,
    pub site_uv: Map<Seq<char>, u64>,
    pub visitors: Map<Seq<char>, Set<u64>>,
    pub page_pv: Map<Seq<char>, u64>,
    pub site_hosts: Map<Seq<char>, Seq<char>>,
    pub page_paths: Map<Seq<char>, Seq<char>>,
    pub new_visitors: Seq<(Seq<char>, u64)>,
}

impl StoreView {
    /// The store that holds nothing.
    pub open spec fn empty() -> StoreView {
        StoreView {
            site_pv: Map::empty(),
            site_uv: Map::empty(),
            visitors: Map::empty(),
            page_pv: Map::empty(),
            site_hosts: Map::empty(),
            page_paths: Map::empty(),
            new_visitors: Seq::empty(),
        }
    }

    /// Every visitor set is finite, so its size is its number of visitors.
    pub open spec fn wf(self) -> bool {
        forall|k: Seq<char>| #[trigger] self.visitors.contains_key(k) ==> self.visitors[k].finite()
    }

    /// Whether `site` has page views, unique visitors or a visitor set.
    pub open spec fn has_site(self, site: Seq<char>) -> bool {
        self.site_pv.contains_key(site) || self.site_uv.contains_key(site) || self.visitors.contains_key(site)
    }

    /// Whether visitor `h` is already in the set of `site`.
    pub open spec fn knows_visitor(self, site: Seq<char>, h: u64) -> bool {
        self.visitors.contains_key(site) && self.visitors[site].contains(h)
    }

    /// One site visit: the site's page views go up by one; the visitor joins
    /// the site's set and, when new there, the unique visitors go up by one and
    /// the pair is recorded as new.
    pub open spec fn site_visit(self, site: Seq<char>, h: u64) -> StoreView {
        let fresh = !self.knows_visitor(site, h);
        StoreView {
            site_pv: self.site_pv.insert(site, bump(count_or_zero(self.site_pv, site))),
            site_uv: if fresh {
                self.site_uv.insert(site, bump(count_or_zero(self.site_uv, site)))
            } else {
                self.site_uv
            },
            visitors: self.visitors.insert(site, set_or_empty(self.visitors, site).insert(h)),
            new_visitors: if fresh {
                self.new_visitors.push((site, h))
            } else {
                self.new_visitors
            },
            ..self
        }
    }

    /// One page visit: the page's page views go up by one.
    pub open spec fn page_visit(self, page: Seq<char>) -> StoreView {
        StoreView { page_pv: self.page_pv.insert(page, bump(count_or_zero(self.page_pv, page))), ..self }
    }

    /// The display maps learn the host of `site` and the path of `page`,
    /// where they hold none yet.
    pub open spec fn label(self, site: Seq<char>, page: Seq<char>, host: Seq<char>, path: Seq<char>) -> StoreView {
        StoreView {
            site_hosts: if self.site_hosts.contains_key(site) {
                self.site_hosts
            } else {
                self.site_hosts.insert(site, host)
            },
            page_paths: if self.page_paths.contains_key(page) {
                self.page_paths
            } else {
                self.page_paths.insert(page, path)
            },
            ..self
        }
    }

    /// One counted page view, as a counting request performs it.
    pub open spec fn pageview(
        self,
        site: Seq<char>,
        page: Seq<char>,
        host: Seq<char>,
        path: Seq<char>,
        h: u64,
    ) -> StoreView {
        self.label(site, page, host, path).site_visit(site, h).page_visit(page)
    }

    /// The store without `site`: its counters, visitors and host go, and so
    /// does every page filed under it.
    pub open spec fn delete_site(self, site: Seq<char>) -> StoreView {
        StoreView {
            site_pv: self.site_pv.remove(site),
            site_uv: self.site_uv.remove(site),
            visitors: self.visitors.remove(site),
            site_hosts: self.site_hosts.remove(site),
            page_pv: without_prefix(self.page_pv, page_prefix(site)),
            page_paths: without_prefix(self.page_paths, page_prefix(site)),
            ..self
        }
    }

    /// The store without the page `page`.
    pub open spec fn delete_page(self, page: Seq<char>) -> StoreView {
        StoreView { page_pv: self.page_pv.remove(page), page_paths: self.page_paths.remove(page), ..self }
    }

    /// The store after deleting each site of `keys` in turn.
    pub open spec fn delete_sites(self, keys: Seq<Seq<char>>) -> StoreView
        decreases keys.len(),
    {
        if keys.len() == 0 {
            self
        } else {
            self.delete_sites(keys.drop_last()).delete_site(keys.last())
        }
    }

    /// How many of the deletions of `keys`, in turn, found a site to remove.
    pub open spec fn sites_found(self, keys: Seq<Seq<char>>) -> nat
        decreases keys.len(),
    {
        if keys.len() == 0 {
            0
        } else {
            self.sites_found(keys.drop_last()) + if self.delete_sites(keys.drop_last()).site_pv.contains_key(
                keys.last(),
            ) {
                1nat
            } else {
                0nat
            }
        }
    }

    /// The store after deleting each page of `keys` in turn.
    pub open spec fn delete_pages(self, keys: Seq<Seq<char>>) -> StoreView
        decreases keys.len(),
    {
        if keys.len() == 0 {
            self
        } else {
            self.delete_pages(keys.drop_last()).delete_page(keys.last())
        }
    }

    /// How many of the deletions of `keys`, in turn, found a page to remove.
    pub open spec fn pages_found(self, keys: Seq<Seq<char>>) -> nat
        decreases keys.len(),
    {
        if keys.len() == 0 {
            0
        } else {
            self.pages_found(keys.drop_last()) + if self.delete_pages(keys.drop_last()).page_pv.contains_key(
                keys.last(),
            ) {
                1nat
            } else {
                0nat
            }
        }
    }

    /// The store after an administrator sets, or resets, a site counter.
    /// Setting writes the value, creating the entry. Resetting the page views
    /// does nothing; resetting the unique visitors zeroes the counter and
    /// empties the visitor set, where each exists.
    pub open spec fn edit_site(self, site: Seq<char>, which: SiteCounter, value: Option<u64>) -> StoreView {
        match (which, value) {
            (SiteCounter::SitePv, Some(v)) => StoreView { site_pv: self.site_pv.insert(site, v), ..self },
            (SiteCounter::SitePv, None) => self,
            (SiteCounter::SiteUv, Some(v)) => StoreView { site_uv: self.site_uv.insert(site, v), ..self },
            (SiteCounter::SiteUv, None) => StoreView {
                site_uv: if self.site_uv.contains_key(site) {
                    self.site_uv.insert(site, 0)
                } else {
                    self.site_uv
                },
                visitors: if self.visitors.contains_key(site) {
                    self.visitors.insert(site, Set::empty())
                } else {
                    self.visitors
                },
                ..self
            },
        }
    }

    /// The store after an administrator sets the page views of `page`.
    pub open spec fn edit_page(self, page: Seq<char>, value: Option<u64>) -> StoreView {
        match value {
            Some(v) => StoreView { page_pv: self.page_pv.insert(page, v), ..self },
            None => self,
        }
    }

    /// The store after taking counters from an upstream source: each counter
    /// moves only up, to the incoming value where that is strictly greater;
    /// the site gets a visitor set and the display maps learn the host and
    /// path, where they hold none yet.
    pub open spec fn sync(
        self,
        site: Seq<char>,
        page: Seq<char>,
        host: Seq<char>,
        path: Seq<char>,
        site_pv: u64,
        site_uv: u64,
        page_pv: u64,
    ) -> StoreView {
        let l = self.label(site, page, host, path);
        StoreView {
            site_pv: raised(l.site_pv, site, site_pv),
            site_uv: raised(l.site_uv, site, site_uv),
            page_pv: raised(l.page_pv, page, page_pv),
            visitors: if l.visitors.contains_key(site) {
                l.visitors
            } else {
                l.visitors.insert(site, Set::empty())
            },
            ..l
        }
    }
}

impl StoreView {
    /// The store after `from` is renamed to `to`: its counters and visitor
    /// set move as whole values, each page under `from:` moves to the same
    /// suffix under `to:` with its counter, and the display entries of the
    /// old keys go.
    pub open spec fn rename_site(self, from: Seq<char>, to: Seq<char>) -> StoreView {
        StoreView {
            site_pv: moved_entry(self.site_pv, from, to),
            site_uv: moved_entry(self.site_uv, from, to),
            visitors: moved_entry(self.visitors, from, to),
            site_hosts: self.site_hosts.remove(from),
            page_pv: copied_pages(
                without_prefix(self.page_pv, page_prefix(from)),
                self.page_pv,
                page_prefix(from),
                page_prefix(to),
                false,
            ),
            page_paths: without_prefix(self.page_paths, page_prefix(from)),
            ..self
        }
    }

    /// The store after `from` is merged into `to`: page views add up, unique
    /// visitors become the larger of the two, the visitor sets are united,
    /// each page under `from:` adds its page views to the same suffix under
    /// `to:`, and then `from` and its pages are deleted.
    pub open spec fn merge_site(self, from: Seq<char>, to: Seq<char>) -> StoreView {
        let suv = count_or_zero(self.site_uv, from);
        let tuv = count_or_zero(self.site_uv, to);
        StoreView {
            site_pv: self.site_pv.insert(to, wrap_add(count_or_zero(self.site_pv, to), self.site_pv[from])).remove(
                from,
            ),
            site_uv: self.site_uv.insert(to, if suv > tuv { suv } else { tuv }).remove(from),
            visitors: if self.visitors.contains_key(from) {
                self.visitors.insert(to, set_or_empty(self.visitors, to).union(self.visitors[from])).remove(from)
            } else {
                self.visitors.remove(from)
            },
            site_hosts: self.site_hosts.remove(from),
            page_pv: without_prefix(
                copied_pages(self.page_pv, self.page_pv, page_prefix(from), page_prefix(to), true),
                page_prefix(from),
            ),
            page_paths: without_prefix(self.page_paths, page_prefix(from)),
            ..self
        }
    }
}

/// Why a rename was refused.
#[derive(Clone, Copy, Debug, PartialEq, Eq, Structural)]
pub enum RenameError {
    /// The old and new keys are the same.
    SameKey,
    /// The old key has no site.
    SourceMissing,
    /// The new key already has page views; merging is the operation for
    /// that. A new key with only unique visitors or a visitor set is renamed
    /// onto: the old key's values replace those it has.
    TargetExists,
}

impl RenameError {
    /// The message shown to the administrator.
    pub fn message(&self) -> (r: String)
        ensures
            r@ == match self {
                RenameError::SameKey => "新旧域名相同"@,
                RenameError::SourceMissing => "源站点不存在"@,
                RenameError::TargetExists => "目标站点已存在，请使用合并功能"@,
            },
    {
        match self {
            RenameError::SameKey => "新旧域名相同".to_owned(),
            RenameError::SourceMissing => "源站点不存在".to_owned(),
            RenameError::TargetExists => "目标站点已存在，请使用合并功能".to_owned(),
        }
    }
}

/// Why a merge was refused.
#[derive(Clone, Copy, Debug, PartialEq, Eq, Structural)]
pub enum MergeError {
    /// The source and target keys are the same.
    SameKey,
    /// The source key has no site.
    SourceMissing,
}

impl MergeError {
    /// The message shown to the administrator.
    pub fn message(&self) -> (r: String)
        ensures
            r@ == match self {
                MergeError::SameKey => "源和目标站点相同"@,
                MergeError::SourceMissing => "源站点不存在"@,
            },
    {
        match self {
            MergeError::SameKey => "源和目标站点相同".to_owned(),
            MergeError::SourceMissing => "源站点不存在".to_owned(),
        }
    }
}

impl StoreView {
    /// The store after a counter import sets the page views of `site`, its
    /// unique visitors when given, and gives it a visitor set when it has none.
    pub open spec fn import_site(self, site: Seq<char>, pv: u64, uv: Option<u64>) -> StoreView {
        StoreView {
            site_pv: self.site_pv.insert(site, pv),
            site_uv: match uv {
                Some(u) => self.site_uv.insert(site, u),
                None => self.site_uv,
            },
            visitors: if self.visitors.contains_key(site) {
                self.visitors
            } else {
                self.visitors.insert(site, Set::empty())
            },
            ..self
        }
    }
}

/// `m` with the counter of `k` raised to `v`, where `v` is greater.
pub open spec fn raised(m: Map<Seq<char>, u64>, k: Seq<char>, v: u64) -> Map<Seq<char>, u64> {
    if v > count_or_zero(m, k) {
        m.insert(k, v)
    } else {
        m
    }
}

/// The site counters that an administrator may set.
#[derive(Clone, Copy, Debug, PartialEq, Eq, Structural)]
pub enum SiteCounter {
    SitePv,
    SiteUv,
}

/// Why an administrative edit was refused.
#[derive(Clone, Copy, Debug, PartialEq, Eq, Structural)]
pub enum EditError {
    /// The counter name is neither `site_pv` nor `site_uv`.
    InvalidKeyType,
}

impl EditError {
    /// The message shown to the administrator.
    pub fn message(&self) -> (r: String)
        ensures
            r@ == "invalid key_type"@,
    {
        "invalid key_type".to_owned()
    }
}

impl SiteCounter {
    /// The counter that `name` designates: `site_pv` or `site_uv`.
    pub fn from_name(name: &str) -> (r: Result<SiteCounter, EditError>)
        ensures
            r == (if name@ == "site_pv"@ {
                Ok(SiteCounter::SitePv)
            } else if name@ == "site_uv"@ {
                Ok(SiteCounter::SiteUv)
            } else {
                Err(EditError::InvalidKeyType)
            }),
    {
        let n = name.to_owned();
        if n == "site_pv".to_owned() {
            Ok(SiteCounter::SitePv)
        } else if n == "site_uv".to_owned() {
            Ok(SiteCounter::SiteUv)
        } else {
            Err(EditError::InvalidKeyType)
        }
    }
}

/// The entries of `m` whose key does not begin with `p`.
pub open spec fn without_prefix<V>(m: Map<Seq<char>, V>, p: Seq<char>) -> Map<Seq<char>, V> {
    Map::new(|k: Seq<char>| m.contains_key(k) && !has_prefix(k, p), |k: Seq<char>| m[k])
}

/// Whether `k` lies under `to` and the matching key under `from` is in `m`:
/// a key that receives the counter of a page moved from `from` to `to`.
pub open spec fn receives(m: Map<Seq<char>, u64>, from: Seq<char>, to: Seq<char>, k: Seq<char>) -> bool {
    has_prefix(k, to) && m.contains_key(from + after(k, to.len()))
}

/// `base` after each page of `src` under `from` is copied under `to` with
/// the same suffix: its counter replaces the one there, or, when `add`
/// holds, is added to it (zero when absent).
pub open spec fn copied_pages(
    base: Map<Seq<char>, u64>,
    src: Map<Seq<char>, u64>,
    from: Seq<char>,
    to: Seq<char>,
    add: bool,
) -> Map<Seq<char>, u64> {
    Map::new(
        |k: Seq<char>| base.contains_key(k) || receives(src, from, to, k),
        |k: Seq<char>|
            if receives(src, from, to, k) {
                if add {
                    wrap_add(count_or_zero(base, k), src[from + after(k, to.len())])
                } else {
                    src[from + after(k, to.len())]
                }
            } else {
                base[k]
            },
    )
}

/// `m` with the entry under `a` moved to `b`, where there is one.
pub open spec fn moved_entry<V>(m: Map<Seq<char>, V>, a: Seq<char>, b: Seq<char>) -> Map<Seq<char>, V> {
    if m.contains_key(a) {
        m.remove(a).insert(b, m[a])
    } else {
        m
    }
}

proof fn lemma_prefix_split(k: Seq<char>, p: Seq<char>)
    requires
        has_prefix(k, p),
    ensures
        p + after(k, p.len()) == k,
{
    assert(p + after(k, p.len()) =~= k);
}

proof fn lemma_after_concat(p: Seq<char>, s: Seq<char>)
    ensures
        has_prefix(p + s, p),
        after(p + s, p.len()) == s,
{
    assert((p + s).subrange(0, p.len() as int) =~= p);
    assert(after(p + s, p.len()) =~= s);
}

/// The sum of two counters, wrapping at the top.
fn wrapped_sum(a: u64, b: u64) -> (r: u64)
    ensures
        r == wrap_add(a, b),
{
    if a <= u64::MAX - b {
        a + b
    } else {
        a - (u64::MAX - b) - 1
    }
}

/// Copies each entry of `entries` (the entries of `src`) that lies under
/// `from` to the same suffix under `to`, replacing or adding to the counter
/// there.
fn copy_prefixed_counters(
    m: &mut DashMap<String, u64, RandomState>,
    entries: &Vec<(String, u64)>,
    from: &str,
    to: &str,
    add: bool,
    Ghost(src): Ghost<Map<Seq<char>, u64>>,
)
    requires
        forall|i: int|
            0 <= i < entries@.len() ==> #[trigger] src.contains_key(entries@[i].0@) && src[entries@[i].0@]
                == entries@[i].1,
        forall|k: Seq<char>|
            #[trigger] src.contains_key(k) ==> exists|i: int|
                0 <= i < entries@.len() && #[trigger] entries@[i].0@ == k,
        forall|i: int, j: int|
            0 <= i < entries@.len() && 0 <= j < entries@.len() && i != j ==> #[trigger] entries@[i].0@
                != #[trigger] entries@[j].0@,
    ensures
        counts_of(*final(m)) == copied_pages(counts_of(*old(m)), src, from@, to@, add),
{
    let ghost base = counts_of(*m);
    let ghost es = entries@;
    let mut i: usize = 0;
    while i < entries.len()
        invariant
            0 <= i <= es.len(),
            es == entries@,
            base == counts_of(*old(m)),
            forall|j: int|
                0 <= j < entries@.len() ==> #[trigger] src.contains_key(entries@[j].0@) && src[entries@[j].0@]
                    == entries@[j].1,
            forall|a: int, b: int|
                0 <= a < entries@.len() && 0 <= b < entries@.len() && a != b ==> #[trigger] entries@[a].0@
                    != #[trigger] entries@[b].0@,
            counts_of(*m) == copied_pages(
                base,
                src.restrict(Set::new(|k: Seq<char>| exists|j: int| 0 <= j < i && #[trigger] es[j].0@ == k)),
                from@,
                to@,
                add,
            ),
        decreases es.len() - i,
    {
        let ghost done = Set::new(|k: Seq<char>| exists|j: int| 0 <= j < i && #[trigger] es[j].0@ == k);
        let ghost done2 = Set::new(|k: Seq<char>| exists|j: int| 0 <= j < i + 1 && #[trigger] es[j].0@ == k);
        let ghost e = es[i as int].0@;
        assert(done2 =~= done.insert(e)) by {
            assert forall|k: Seq<char>| done2.contains(k) implies done.insert(e).contains(k) by {
                let j = choose|j: int| 0 <= j < i + 1 && #[trigger] es[j].0@ == k;
            }
            assert forall|k: Seq<char>| done.insert(e).contains(k) implies done2.contains(k) by {
                if k != e {
                    let j = choose|j: int| 0 <= j < i && #[trigger] es[j].0@ == k;
                    assert(es[j].0@ == k);
                } else {
                    assert(es[i as int].0@ == k);
                }
            }
        }
        assert(!done.contains(e)) by {
            if done.contains(e) {
                let j = choose|j: int| 0 <= j < i && #[trigger] es[j].0@ == e;
            }
        }
        let ghost before = counts_of(*m);
        if starts_with(entries[i].0.as_str(), from) {
            let suffix = tail_from(entries[i].0.as_str(), from.unicode_len());
            let nk = joined(to, suffix.as_str());
            let v = if add {
                wrapped_sum(value_or_zero(counter_get(m, nk.as_str())), entries[i].1)
            } else {
                entries[i].1
            };
            counter_set(m, nk.as_str(), v);
            proof {
                lemma_prefix_split(e, from@);
                lemma_after_concat(to@, suffix@);
                let s1 = src.restrict(done);
                let s2 = src.restrict(done2);
                assert(receives(s2, from@, to@, nk@));
                assert(!receives(s1, from@, to@, nk@));
                assert forall|k: Seq<char>| k != nk@ implies receives(s1, from@, to@, k) == receives(s2, from@, to@, k) by {
                    if receives(s2, from@, to@, k) && !receives(s1, from@, to@, k) {
                        lemma_prefix_split(k, to@);
                        lemma_after_concat(from@, after(k, to@.len()));
                    }
                }
                assert(counts_of(*m) =~= copied_pages(base, s2, from@, to@, add));
            }
        } else {
            proof {
                let s1 = src.restrict(done);
                let s2 = src.restrict(done2);
                assert forall|k: Seq<char>| receives(s1, from@, to@, k) == receives(s2, from@, to@, k) by {
                    if receives(s2, from@, to@, k) && !receives(s1, from@, to@, k) {
                        lemma_after_concat(from@, after(k, to@.len()));
                    }
                }
                assert(copied_pages(base, s1, from@, to@, add) =~= copied_pages(base, s2, from@, to@, add));
            }
        }
        i += 1;
    }
    proof {
        let all = Set::new(|k: Seq<char>| exists|j: int| 0 <= j < i && #[trigger] es[j].0@ == k);
        assert forall|k: Seq<char>| src.contains_key(k) implies all.contains(k) by {
            let j = choose|j: int| 0 <= j < entries@.len() && #[trigger] entries@[j].0@ == k;
            assert(es[j].0@ == k);
        }
        assert(src.restrict(all) =~= src);
    }
}

/// Adds each of `members` to the visitor set of `k`, creating it.
fn add_members(m: &mut DashMap<String, DashSet<u64, RandomState>, RandomState>, k: &str, members: &Vec<u64>)
    ensures
        visitor_sets_of(*final(m)) == visitor_sets_of(*old(m)).insert(
            k@,
            set_or_empty(visitor_sets_of(*old(m)), k@).union(members@.to_set()),
        ),
{
    let ghost m0 = visitor_sets_of(*m);
    visitors_ensure(m, k);
    proof {
        assert(members@.subrange(0, 0).to_set() =~= Set::empty());
        assert(set_or_empty(m0, k@).union(Set::empty()) =~= set_or_empty(m0, k@));
        assert(visitor_sets_of(*m) =~= m0.insert(k@, set_or_empty(m0, k@).union(members@.subrange(0, 0).to_set())));
    }
    let mut i: usize = 0;
    while i < members.len()
        invariant
            0 <= i <= members@.len(),
            m0 == visitor_sets_of(*old(m)),
            visitor_sets_of(*m) == m0.insert(k@, set_or_empty(m0, k@).union(members@.subrange(0, i as int).to_set())),
        decreases members@.len() - i,
    {
        visitors_insert(m, k, members[i]);
        proof {
            let before = members@.subrange(0, i as int);
            assert(members@.subrange(0, i + 1) =~= before.push(members@[i as int]));
            before.lemma_push_to_set_commute(members@[i as int]);
            assert(set_or_empty(m0, k@).union(before.to_set()).insert(members@[i as int]) =~= set_or_empty(
                m0,
                k@,
            ).union(members@.subrange(0, i + 1).to_set()));
            assert(visitor_sets_of(*m) =~= m0.insert(k@, set_or_empty(m0, k@).union(members@.subrange(0, i + 1).to_set())));
        }
        i += 1;
    }
    proof {
        assert(members@.subrange(0, i as int) =~= members@);
        assert(set_or_empty(m0, k@).union(Seq::<u64>::empty().to_set()) =~= set_or_empty(m0, k@));
    }
}

proof fn lemma_wf_at(v: StoreView, k: Seq<char>)
    requires
        v.wf(),
    ensures
        set_or_empty(v.visitors, k).finite(),
{
}

/// The live counter tables.
pub struct Store {
    site_pv: DashMap<String, u64, RandomState>,
    site_uv: DashMap<String, u64, RandomState>,
    site_visitors: DashMap<String, DashSet<u64, RandomState>, RandomState>,
    page_pv: DashMap<String, u64, RandomState>,
    site_hosts: DashMap<String, String, RandomState>,
    page_paths: DashMap<String, String, RandomState>,
    new_visitors: Vec<(String, u64)>,
}

impl View for Store {
    type V = StoreView;

    closed spec fn view(&self) -> StoreView {
        StoreView {
            site_pv: counts_of(self.site_pv),
            site_uv: counts_of(self.site_uv),
            visitors: visitor_sets_of(self.site_visitors),
            page_pv: counts_of(self.page_pv),
            site_hosts: labels_of(self.site_hosts),
            page_paths: labels_of(self.page_paths),
            new_visitors: self.new_visitors@.map_values(|p: (String, u64)| (p.0@, p.1)),
        }
    }
}

/// One more event on a counter, wrapping at the top.
fn bumped(x: u64) -> (r: u64)
    ensures
        r == bump(x),
{
    if x == u64::MAX {
        0
    } else {
        x + 1
    }
}

fn value_or_zero(v: Option<u64>) -> (r: u64)
    ensures
        r == (match v {
            Some(x) => x,
            None => 0,
        }),
{
    match v {
        Some(x) => x,
        None => 0,
    }
}

/// Removes from a counter table every key that begins with `prefix`.
fn remove_prefixed_counters(m: &mut DashMap<String, u64, RandomState>, prefix: &str)
    ensures
        counts_of(*final(m)) == without_prefix(counts_of(*old(m)), prefix@),
{
    let entries = counter_entries(m);
    let ghost m0 = counts_of(*m);
    let ghost mut removed: Set<Seq<char>> = Set::empty();
    let mut i: usize = 0;
    while i < entries.len()
        invariant
            0 <= i <= entries@.len(),
            m0 == counts_of(*old(m)),
            forall|k: Seq<char>|
                #[trigger] m0.contains_key(k) ==> exists|j: int|
                    0 <= j < entries@.len() && #[trigger] entries@[j].0@ == k,
            counts_of(*m) == m0.remove_keys(removed),
            forall|k: Seq<char>| #[trigger] removed.contains(k) ==> has_prefix(k, prefix@),
            forall|j: int|
                0 <= j < i && has_prefix(entries@[j].0@, prefix@) ==> #[trigger] removed.contains(
                    entries@[j].0@,
                ),
        decreases entries@.len() - i,
    {
        if starts_with(&entries[i].0, prefix) {
            counter_remove(m, &entries[i].0);
            proof {
                removed = removed.insert(entries@[i as int].0@);
                assert(m0.remove_keys(removed) =~= m0.remove_keys(removed.remove(entries@[i as int].0@)).remove(entries@[i as int].0@));
            }
        }
        i += 1;
    }
    proof {
        assert forall|k: Seq<char>| #[trigger] m0.contains_key(k) && has_prefix(k, prefix@) implies removed.contains(k) by {
            let j = choose|j: int| 0 <= j < entries@.len() && #[trigger] entries@[j].0@ == k;
        }
        assert(counts_of(*m) =~= without_prefix(m0, prefix@));
    }
}

/// Removes from a display table every key that begins with `prefix`.
fn remove_prefixed_labels(m: &mut DashMap<String, String, RandomState>, prefix: &str)
    ensures
        labels_of(*final(m)) == without_prefix(labels_of(*old(m)), prefix@),
{
    let keys = label_keys(m);
    let ghost m0 = labels_of(*m);
    let ghost mut removed: Set<Seq<char>> = Set::empty();
    let mut i: usize = 0;
    while i < keys.len()
        invariant
            0 <= i <= keys@.len(),
            m0 == labels_of(*old(m)),
            forall|k: Seq<char>|
                #[trigger] m0.contains_key(k) ==> exists|j: int|
                    0 <= j < keys@.len() && #[trigger] keys@[j]@ == k,
            labels_of(*m) == m0.remove_keys(removed),
            forall|k: Seq<char>| #[trigger] removed.contains(k) ==> has_prefix(k, prefix@),
            forall|j: int|
                0 <= j < i && has_prefix(keys@[j]@, prefix@) ==> #[trigger] removed.contains(keys@[j]@),
        decreases keys@.len() - i,
    {
        if starts_with(&keys[i], prefix) {
            label_remove(m, &keys[i]);
            proof {
                removed = removed.insert(keys@[i as int]@);
                assert(m0.remove_keys(removed) =~= m0.remove_keys(removed.remove(keys@[i as int]@)).remove(keys@[i as int]@));
            }
        }
        i += 1;
    }
    proof {
        assert forall|k: Seq<char>| #[trigger] m0.contains_key(k) && has_prefix(k, prefix@) implies removed.contains(k) by {
            let j = choose|j: int| 0 <= j < keys@.len() && #[trigger] keys@[j]@ == k;
        }
        assert(labels_of(*m) =~= without_prefix(m0, prefix@));
    }
}

impl Store {
    /// An empty store.
    pub fn new() -> (r: Store)
        ensures
            r@.wf(),
            r@ == StoreView::empty(),
    {
        let r = Store {
            site_pv: counter_table_new(),
            site_uv: counter_table_new(),
            site_visitors: visitor_table_new(),
            page_pv: counter_table_new(),
            site_hosts: label_table_new(),
            page_paths: label_table_new(),
            new_visitors: Vec::new(),
        };
        assert(r@.new_visitors =~= Seq::empty());
        r
    }

    /// Deletes `site_key`, its visitors, its host and every page filed under
    /// it; says whether the site had page views to remove.
    pub fn delete_site(&mut self, site_key: &str) -> (r: bool)
        ensures
            old(self)@.wf() ==> final(self)@.wf(),
            final(self)@ == old(self)@.delete_site(site_key@),
            r == old(self)@.site_pv.contains_key(site_key@),
    {
        let r = counter_remove(&mut self.site_pv, site_key);
        counter_remove(&mut self.site_uv, site_key);
        visitors_remove(&mut self.site_visitors, site_key);
        label_remove(&mut self.site_hosts, site_key);
        let prefix = prefix_of(site_key);
        remove_prefixed_counters(&mut self.page_pv, prefix.as_str());
        remove_prefixed_labels(&mut self.page_paths, prefix.as_str());
        proof {
            if old(self)@.wf() {
                assert forall|k: Seq<char>| #[trigger] self@.visitors.contains_key(k) implies self@.visitors[k].finite() by {
                    lemma_wf_at(old(self)@, k);
                    lemma_wf_at(old(self)@, site_key@);
                }
            }
        }
        r
    }

    /// Deletes the page `page_key`; says whether it had page views to remove.
    pub fn delete_page(&mut self, page_key: &str) -> (r: bool)
        ensures
            final(self)@ == old(self)@.delete_page(page_key@),
            r == old(self)@.page_pv.contains_key(page_key@),
    {
        let r = counter_remove(&mut self.page_pv, page_key);
        label_remove(&mut self.page_paths, page_key);
        r
    }

    /// Deletes each site of `keys` in turn; returns how many were present.
    pub fn batch_delete_sites(&mut self, keys: &Vec<String>) -> (r: usize)
        ensures
            old(self)@.wf() ==> final(self)@.wf(),
            final(self)@ == old(self)@.delete_sites(keys@.map_values(|k: String| k@)),
            r == old(self)@.sites_found(keys@.map_values(|k: String| k@)),
    {
        let ghost ks = keys@.map_values(|k: String| k@);
        let mut deleted: usize = 0;
        let mut i: usize = 0;
        while i < keys.len()
            invariant
                0 <= i <= keys@.len(),
                deleted <= i,
                ks == keys@.map_values(|k: String| k@),
                self@ == old(self)@.delete_sites(ks.subrange(0, i as int)),
                old(self)@.wf() ==> self@.wf(),
                deleted == old(self)@.sites_found(ks.subrange(0, i as int)),
            decreases keys@.len() - i,
        {
            let found = self.delete_site(keys[i].as_str());
            if found {
                deleted += 1;
            }
            proof {
                assert(ks.subrange(0, i + 1).drop_last() =~= ks.subrange(0, i as int));
            }
            i += 1;
        }
        proof {
            assert(ks.subrange(0, i as int) =~= ks);
        }
        deleted
    }

    /// Deletes each page of `keys` in turn; returns how many were present.
    pub fn batch_delete_pages(&mut self, keys: &Vec<String>) -> (r: usize)
        ensures
            final(self)@ == old(self)@.delete_pages(keys@.map_values(|k: String| k@)),
            r == old(self)@.pages_found(keys@.map_values(|k: String| k@)),
    {
        let ghost ks = keys@.map_values(|k: String| k@);
        let mut deleted: usize = 0;
        let mut i: usize = 0;
        while i < keys.len()
            invariant
                0 <= i <= keys@.len(),
                deleted <= i,
                ks == keys@.map_values(|k: String| k@),
                self@ == old(self)@.delete_pages(ks.subrange(0, i as int)),
                deleted == old(self)@.pages_found(ks.subrange(0, i as int)),
            decreases keys@.len() - i,
        {
            let found = self.delete_page(keys[i].as_str());
            if found {
                deleted += 1;
            }
            proof {
                assert(ks.subrange(0, i + 1).drop_last() =~= ks.subrange(0, i as int));
            }
            i += 1;
        }
        proof {
            assert(ks.subrange(0, i as int) =~= ks);
        }
        deleted
    }

    /// Sets, or resets when `value` is `None`, a counter of `site_key`.
    pub fn edit_site_counter(&mut self, site_key: &str, which: SiteCounter, value: Option<u64>)
        ensures
            old(self)@.wf() ==> final(self)@.wf(),
            final(self)@ == old(self)@.edit_site(site_key@, which, value),
    {
        match (which, value) {
            (SiteCounter::SitePv, Some(v)) => {
                counter_set(&mut self.site_pv, site_key, v);
            },
            (SiteCounter::SitePv, None) => {},
            (SiteCounter::SiteUv, Some(v)) => {
                counter_set(&mut self.site_uv, site_key, v);
            },
            (SiteCounter::SiteUv, None) => {
                if counter_get(&self.site_uv, site_key).is_some() {
                    counter_set(&mut self.site_uv, site_key, 0);
                }
                if visitors_contains(&self.site_visitors, site_key) {
                    visitors_remove(&mut self.site_visitors, site_key);
                    visitors_ensure(&mut self.site_visitors, site_key);
                    proof {
                        assert(self@.visitors =~= old(self)@.visitors.insert(site_key@, Set::empty()));
                    }
                }
            },
        }
        proof {
            if old(self)@.wf() {
                assert forall|k: Seq<char>| #[trigger] self@.visitors.contains_key(k) implies self@.visitors[k].finite() by {
                    lemma_wf_at(old(self)@, k);
                    lemma_wf_at(old(self)@, site_key@);
                }
            }
        }
    }

    /// Sets the page views of `page_key`, creating it; `None` leaves it.
    pub fn edit_page_pv(&mut self, page_key: &str, value: Option<u64>)
        ensures
            final(self)@ == old(self)@.edit_page(page_key@, value),
    {
        if let Some(v) = value {
            counter_set(&mut self.page_pv, page_key, v);
        }
    }

    /// Renames the site `old_key` to `new_key`, moving its pages along.
    pub fn rename_site(&mut self, old_key: &str, new_key: &str) -> (r: Result<(), RenameError>)
        ensures
            old(self)@.wf() ==> final(self)@.wf(),
            old_key@ == new_key@ ==> r == Err::<(), RenameError>(RenameError::SameKey),
            old_key@ != new_key@ && !old(self)@.site_pv.contains_key(old_key@) ==> r == Err::<(), RenameError>(
                RenameError::SourceMissing,
            ),
            old_key@ != new_key@ && old(self)@.site_pv.contains_key(old_key@) && old(self)@.site_pv.contains_key(
                new_key@,
            ) ==> r == Err::<(), RenameError>(RenameError::TargetExists),
            r is Ok ==> final(self)@ == old(self)@.rename_site(old_key@, new_key@),
            r is Err ==> final(self)@ == old(self)@,
            old_key@ != new_key@ && old(self)@.site_pv.contains_key(old_key@) && !old(self)@.site_pv.contains_key(
                new_key@,
            ) ==> r is Ok,
    {
        if old_key.to_owned() == new_key.to_owned() {
            return Err(RenameError::SameKey);
        }
        if counter_get(&self.site_pv, old_key).is_none() {
            return Err(RenameError::SourceMissing);
        }
        if counter_get(&self.site_pv, new_key).is_some() {
            return Err(RenameError::TargetExists);
        }
        let ghost v0 = self@;
        if let Some(pv) = counter_get(&self.site_pv, old_key) {
            counter_remove(&mut self.site_pv, old_key);
            counter_set(&mut self.site_pv, new_key, pv);
        }
        if let Some(uv) = counter_get(&self.site_uv, old_key) {
            counter_remove(&mut self.site_uv, old_key);
            counter_set(&mut self.site_uv, new_key, uv);
        }
        if visitors_contains(&self.site_visitors, old_key) {
            let members = visitors_members(&self.site_visitors, old_key);
            visitors_remove(&mut self.site_visitors, old_key);
            visitors_remove(&mut self.site_visitors, new_key);
            add_members(&mut self.site_visitors, new_key, &members);
            proof {
                assert(Set::<u64>::empty().union(v0.visitors[old_key@]) =~= v0.visitors[old_key@]);
                assert(self@.visitors =~= moved_entry(v0.visitors, old_key@, new_key@));
            }
        }
        label_remove(&mut self.site_hosts, old_key);
        let old_prefix = prefix_of(old_key);
        let new_prefix = prefix_of(new_key);
        let entries = counter_entries(&self.page_pv);
        remove_prefixed_counters(&mut self.page_pv, old_prefix.as_str());
        copy_prefixed_counters(
            &mut self.page_pv,
            &entries,
            old_prefix.as_str(),
            new_prefix.as_str(),
            false,
            Ghost(v0.page_pv),
        );
        remove_prefixed_labels(&mut self.page_paths, old_prefix.as_str());
        proof {
            assert(self@.site_pv =~= moved_entry(v0.site_pv, old_key@, new_key@));
            assert(self@.site_uv =~= moved_entry(v0.site_uv, old_key@, new_key@));
        }
        proof {
            if old(self)@.wf() {
                assert forall|k: Seq<char>| #[trigger] self@.visitors.contains_key(k) implies self@.visitors[k].finite() by {
                    lemma_wf_at(old(self)@, k);
                    lemma_wf_at(old(self)@, old_key@);
                    lemma_wf_at(old(self)@, new_key@);
                }
            }
        }
        Ok(())
    }

    /// Merges the site `source` into `target` and deletes `source`.
    pub fn merge_site(&mut self, source: &str, target: &str) -> (r: Result<(), MergeError>)
        ensures
            old(self)@.wf() ==> final(self)@.wf(),
            source@ == target@ ==> r == Err::<(), MergeError>(MergeError::SameKey),
            source@ != target@ && !old(self)@.site_pv.contains_key(source@) ==> r == Err::<(), MergeError>(
                MergeError::SourceMissing,
            ),
            source@ != target@ && old(self)@.site_pv.contains_key(source@) ==> r is Ok,
            r is Ok ==> final(self)@ == old(self)@.merge_site(source@, target@),
            r is Err ==> final(self)@ == old(self)@,
            r is Ok && old(self)@.site_pv[source@] + count_or_zero(old(self)@.site_pv, target@) <= u64::MAX
                ==> final(self)@.site_pv[target@] == old(self)@.site_pv[source@] + count_or_zero(
                old(self)@.site_pv,
                target@,
            ),
    {
        if source.to_owned() == target.to_owned() {
            return Err(MergeError::SameKey);
        }
        let source_pv = match counter_get(&self.site_pv, source) {
            Some(v) => v,
            None => {
                return Err(MergeError::SourceMissing);
            },
        };
        let ghost v0 = self@;
        let target_pv = value_or_zero(counter_get(&self.site_pv, target));
        counter_set(&mut self.site_pv, target, wrapped_sum(target_pv, source_pv));
        let source_uv = value_or_zero(counter_get(&self.site_uv, source));
        let target_uv = value_or_zero(counter_get(&self.site_uv, target));
        counter_set(&mut self.site_uv, target, if source_uv > target_uv { source_uv } else { target_uv });
        if visitors_contains(&self.site_visitors, source) {
            let members = visitors_members(&self.site_visitors, source);
            add_members(&mut self.site_visitors, target, &members);
        }
        let source_prefix = prefix_of(source);
        let target_prefix = prefix_of(target);
        let entries = counter_entries(&self.page_pv);
        copy_prefixed_counters(
            &mut self.page_pv,
            &entries,
            source_prefix.as_str(),
            target_prefix.as_str(),
            true,
            Ghost(v0.page_pv),
        );
        counter_remove(&mut self.site_pv, source);
        counter_remove(&mut self.site_uv, source);
        visitors_remove(&mut self.site_visitors, source);
        label_remove(&mut self.site_hosts, source);
        remove_prefixed_counters(&mut self.page_pv, source_prefix.as_str());
        remove_prefixed_labels(&mut self.page_paths, source_prefix.as_str());
        proof {
            assert(wrap_add(count_or_zero(v0.site_pv, target@), v0.site_pv[source@]) == wrap_add(
                v0.site_pv[source@],
                count_or_zero(v0.site_pv, target@),
            ));
            assert(self@.visitors =~= v0.merge_site(source@, target@).visitors);
        }
        proof {
            if old(self)@.wf() {
                assert forall|k: Seq<char>| #[trigger] self@.visitors.contains_key(k) implies self@.visitors[k].finite() by {
                    lemma_wf_at(old(self)@, k);
                    lemma_wf_at(old(self)@, source@);
                    lemma_wf_at(old(self)@, target@);
                }
            }
        }
        Ok(())
    }

    /// The rows of the `sites` table: one per site with page views.
    fn site_rows(&self) -> (r: Vec<SiteRow>)
        ensures
            site_rows_of(self@, r@),
    {
        let entries = counter_entries(&self.site_pv);
        let mut rows: Vec<SiteRow> = Vec::new();
        let mut i: usize = 0;
        while i < entries.len()
            invariant
                0 <= i <= entries@.len(),
                rows@.len() == i,
                forall|j: int|
                    0 <= j < i ==> #[trigger] rows@[j].key@ == entries@[j].0@ && rows@[j].pv == entries@[j].1
                        && rows@[j].uv == count_or_zero(self@.site_uv, entries@[j].0@) && opt_view(rows@[j].host)
                        == entry_of(self@.site_hosts, entries@[j].0@),
            decreases entries@.len() - i,
        {
            let key = entries[i].0.clone();
            let uv = value_or_zero(counter_get(&self.site_uv, key.as_str()));
            let host = label_get(&self.site_hosts, key.as_str());
            rows.push(SiteRow { key, pv: entries[i].1, uv, host });
            i += 1;
        }
        proof {
            assert forall|k: Seq<char>| #[trigger] self@.site_pv.contains_key(k) implies exists|j: int|
                0 <= j < rows@.len() && #[trigger] rows@[j].key@ == k by {
                let j = choose|j: int| 0 <= j < entries@.len() && #[trigger] entries@[j].0@ == k;
                assert(rows@[j].key@ == k);
            }
            assert forall|a: int, b: int|
                0 <= a < rows@.len() && 0 <= b < rows@.len() && a != b implies #[trigger] rows@[a].key@
                != #[trigger] rows@[b].key@ by {
                assert(rows@[a].key@ == entries@[a].0@);
                assert(rows@[b].key@ == entries@[b].0@);
            }
        }
        rows
    }

    /// The rows of the `pages` table: one per page.
    fn page_rows(&self) -> (r: Vec<PageRow>)
        ensures
            page_rows_of(self@, r@),
    {
        let entries = counter_entries(&self.page_pv);
        let mut rows: Vec<PageRow> = Vec::new();
        let mut i: usize = 0;
        while i < entries.len()
            invariant
                0 <= i <= entries@.len(),
                rows@.len() == i,
                forall|j: int|
                    0 <= j < i ==> #[trigger] rows@[j].key@ == entries@[j].0@ && rows@[j].pv == entries@[j].1
                        && opt_view(rows@[j].path) == entry_of(self@.page_paths, entries@[j].0@),
            decreases entries@.len() - i,
        {
            let key = entries[i].0.clone();
            let path = label_get(&self.page_paths, key.as_str());
            proof {
                assert(opt_view(path) == entry_of(self@.page_paths, entries@[i as int].0@));
            }
            let ghost before = rows@;
            rows.push(PageRow { key, pv: entries[i].1, path });
            proof {
                assert forall|j: int| 0 <= j < i + 1 implies #[trigger] rows@[j].key@ == entries@[j].0@
                    && rows@[j].pv == entries@[j].1 && opt_view(rows@[j].path) == entry_of(
                    self@.page_paths,
                    entries@[j].0@,
                ) by {
                    if j < i {
                        assert(rows@[j] == before[j]);
                    }
                }
            }
            i += 1;
        }
        proof {
            assert forall|k: Seq<char>| #[trigger] self@.page_pv.contains_key(k) implies exists|j: int|
                0 <= j < rows@.len() && #[trigger] rows@[j].key@ == k by {
                let j = choose|j: int| 0 <= j < entries@.len() && #[trigger] entries@[j].0@ == k;
                assert(rows@[j].key@ == k);
            }
            assert forall|a: int, b: int|
                0 <= a < rows@.len() && 0 <= b < rows@.len() && a != b implies #[trigger] rows@[a].key@
                != #[trigger] rows@[b].key@ by {
                assert(rows@[a].key@ == entries@[a].0@);
                assert(rows@[b].key@ == entries@[b].0@);
            }
        }
        rows
    }

    /// The rows of the `visitors` table: one per (site, visitor) pair.
    fn visitor_rows(&self) -> (r: Vec<VisitorRow>)
        ensures
            visitor_rows_of(self@, r@),
    {
        let sites = visitors_sites(&self.site_visitors);
        let ghost vs = self@.visitors;
        let mut rows: Vec<VisitorRow> = Vec::new();
        let mut i: usize = 0;
        while i < sites.len()
            invariant
                0 <= i <= sites@.len(),
                vs == self@.visitors,
                forall|t: int| 0 <= t < sites@.len() ==> #[trigger] vs.contains_key(sites@[t]@),
                forall|t: int|
                    0 <= t < rows@.len() ==> #[trigger] vs.contains_key(rows@[t].site_key@)
                        && vs[rows@[t].site_key@].contains(rows@[t].hash),
                forall|j: int, h: u64|
                    0 <= j < i && #[trigger] vs[sites@[j]@].contains(h) ==> exists|t: int|
                        0 <= t < rows@.len() && #[trigger] rows@[t].site_key@ == sites@[j]@ && rows@[t].hash == h,
            decreases sites@.len() - i,
        {
            let members = visitors_members(&self.site_visitors, sites[i].as_str());
            let mut q: usize = 0;
            while q < members.len()
                invariant
                    0 <= i < sites@.len(),
                    0 <= q <= members@.len(),
                    vs == self@.visitors,
                    members@.to_set() == vs[sites@[i as int]@],
                    forall|t: int| 0 <= t < sites@.len() ==> #[trigger] vs.contains_key(sites@[t]@),
                    forall|t: int|
                        0 <= t < rows@.len() ==> #[trigger] vs.contains_key(rows@[t].site_key@)
                            && vs[rows@[t].site_key@].contains(rows@[t].hash),
                    forall|j: int, h: u64|
                        0 <= j < i && #[trigger] vs[sites@[j]@].contains(h) ==> exists|t: int|
                            0 <= t < rows@.len() && #[trigger] rows@[t].site_key@ == sites@[j]@ && rows@[t].hash == h,
                    forall|p: int|
                        0 <= p < q ==> exists|t: int|
                            0 <= t < rows@.len() && #[trigger] rows@[t].site_key@ == sites@[i as int]@
                                && rows@[t].hash == #[trigger] members@[p],
                decreases members@.len() - q,
            {
                proof {
                    assert(members@.to_set().contains(members@[q as int]));
                }
                let ghost before = rows@;
                rows.push(VisitorRow { site_key: sites[i].clone(), hash: members[q] });
                proof {
                    assert forall|j: int, h: u64|
                        0 <= j < i && #[trigger] vs[sites@[j]@].contains(h) implies exists|t: int|
                        0 <= t < rows@.len() && #[trigger] rows@[t].site_key@ == sites@[j]@ && rows@[t].hash == h by {
                        let t = choose|t: int|
                            0 <= t < before.len() && #[trigger] before[t].site_key@ == sites@[j]@ && before[t].hash == h;
                        assert(rows@[t] == before[t]);
                    }
                    assert forall|p: int| 0 <= p < q + 1 implies exists|t: int|
                        0 <= t < rows@.len() && #[trigger] rows@[t].site_key@ == sites@[i as int]@
                            && rows@[t].hash == #[trigger] members@[p] by {
                        if p < q {
                            let t = choose|t: int|
                                0 <= t < before.len() && #[trigger] before[t].site_key@ == sites@[i as int]@
                                    && before[t].hash == #[trigger] members@[p];
                            assert(rows@[t] == before[t]);
                        } else {
                            assert(rows@[before.len() as int].site_key@ == sites@[i as int]@);
                        }
                    }
                }
                q += 1;
            }
            proof {
                assert forall|j: int, h: u64|
                    0 <= j < i + 1 && #[trigger] vs[sites@[j]@].contains(h) implies exists|t: int|
                    0 <= t < rows@.len() && #[trigger] rows@[t].site_key@ == sites@[j]@ && rows@[t].hash == h by {
                    if j == i {
                        assert(members@.to_set().contains(h));
                        let p = choose|p: int| 0 <= p < members@.len() && members@[p] == h;
                        assert(members@[p] == h);
                    }
                }
            }
            i += 1;
        }
        proof {
            assert forall|k: Seq<char>, h: u64| vs.contains_key(k) && #[trigger] vs[k].contains(h) implies exists|t: int|
                0 <= t < rows@.len() && #[trigger] rows@[t].site_key@ == k && rows@[t].hash == h by {
                let j = choose|j: int| 0 <= j < sites@.len() && #[trigger] sites@[j]@ == k;
                assert(vs[sites@[j]@].contains(h));
            }
        }
        rows
    }

    /// Loads the rows of `snap` into an empty store.
    fn fill(&mut self, snap: &Snapshot)
        requires
            old(self)@ == StoreView::empty(),
        ensures
            final(self)@.wf(),
            final(self)@ == loaded(*snap),
    {
        let mut i: usize = 0;
        while i < snap.sites.len()
            invariant
                0 <= i <= snap.sites@.len(),
                self@.site_pv == loaded_site_pv(snap.sites@.subrange(0, i as int)),
                self@.site_uv == loaded_site_uv(snap.sites@.subrange(0, i as int)),
                self@.visitors == loaded_site_sets(snap.sites@.subrange(0, i as int)),
                self@.wf(),
                self@.site_hosts == loaded_hosts(snap.sites@.subrange(0, i as int)),
                self@.page_pv == Map::<Seq<char>, u64>::empty(),
                self@.page_paths == Map::<Seq<char>, Seq<char>>::empty(),
                self@.new_visitors == Seq::<(Seq<char>, u64)>::empty(),
            decreases snap.sites@.len() - i,
        {
            let row = &snap.sites[i];
            counter_set(&mut self.site_pv, row.key.as_str(), row.pv);
            counter_set(&mut self.site_uv, row.key.as_str(), row.uv);
            visitors_remove(&mut self.site_visitors, row.key.as_str());
            visitors_ensure(&mut self.site_visitors, row.key.as_str());
            if let Some(h) = &row.host {
                label_set(&mut self.site_hosts, row.key.as_str(), h.as_str());
            }
            proof {
                let rs = snap.sites@.subrange(0, i + 1);
                assert(rs.drop_last() =~= snap.sites@.subrange(0, i as int));
                assert(self@.visitors =~= loaded_site_sets(rs));
            }
            i += 1;
        }
        proof {
            assert(snap.sites@.subrange(0, i as int) =~= snap.sites@);
            assert(snap.visitors@.subrange(0, 0) =~= Seq::<VisitorRow>::empty());
        }
        let mut i: usize = 0;
        while i < snap.visitors.len()
            invariant
                0 <= i <= snap.visitors@.len(),
                self@.site_pv == loaded_site_pv(snap.sites@),
                self@.site_uv == loaded_site_uv(snap.sites@),
                self@.visitors == loaded_visitors(loaded_site_sets(snap.sites@), snap.visitors@.subrange(0, i as int)),
                self@.wf(),
                self@.site_hosts == loaded_hosts(snap.sites@),
                self@.page_pv == Map::<Seq<char>, u64>::empty(),
                self@.page_paths == Map::<Seq<char>, Seq<char>>::empty(),
                self@.new_visitors == Seq::<(Seq<char>, u64)>::empty(),
            decreases snap.visitors@.len() - i,
        {
            visitors_insert(&mut self.site_visitors, snap.visitors[i].site_key.as_str(), snap.visitors[i].hash);
            proof {
                let rs = snap.visitors@.subrange(0, i + 1);
                assert(rs.drop_last() =~= snap.visitors@.subrange(0, i as int));
            }
            i += 1;
        }
        proof {
            assert(snap.visitors@.subrange(0, i as int) =~= snap.visitors@);
        }
        let mut i: usize = 0;
        while i < snap.pages.len()
            invariant
                0 <= i <= snap.pages@.len(),
                self@.site_pv == loaded_site_pv(snap.sites@),
                self@.site_uv == loaded_site_uv(snap.sites@),
                self@.visitors == loaded_visitors(loaded_site_sets(snap.sites@), snap.visitors@),
                self@.wf(),
                self@.site_hosts == loaded_hosts(snap.sites@),
                self@.page_pv == loaded_page_pv(snap.pages@.subrange(0, i as int)),
                self@.page_paths == loaded_paths(snap.pages@.subrange(0, i as int)),
                self@.new_visitors == Seq::<(Seq<char>, u64)>::empty(),
            decreases snap.pages@.len() - i,
        {
            let row = &snap.pages[i];
            counter_set(&mut self.page_pv, row.key.as_str(), row.pv);
            if let Some(p) = &row.path {
                label_set(&mut self.page_paths, row.key.as_str(), p.as_str());
            }
            proof {
                let rs = snap.pages@.subrange(0, i + 1);
                assert(rs.drop_last() =~= snap.pages@.subrange(0, i as int));
            }
            i += 1;
        }
        proof {
            assert(snap.pages@.subrange(0, i as int) =~= snap.pages@);
        }
    }

    /// A store holding what `snap` holds, as loading at startup builds it.
    pub fn from_snapshot(snap: &Snapshot) -> (r: Store)
        ensures
            r@.wf(),
            r@ == loaded(*snap),
    {
        let mut r = Store::new();
        r.fill(snap);
        r
    }

    /// Replaces everything the store holds with what `snap` holds, and
    /// forgets the visitors first seen since the last snapshot.
    pub fn replace_all(&mut self, snap: &Snapshot)
        ensures
            final(self)@.wf(),
            final(self)@ == loaded(*snap),
    {
        counter_clear(&mut self.site_pv);
        counter_clear(&mut self.site_uv);
        visitors_clear(&mut self.site_visitors);
        counter_clear(&mut self.page_pv);
        label_clear(&mut self.site_hosts);
        label_clear(&mut self.page_paths);
        self.new_visitors = Vec::new();
        proof {
            assert(self@.new_visitors =~= Seq::empty());
            assert(self@ == StoreView::empty());
        }
        self.fill(snap);
    }

    /// A snapshot of the whole store, as the persistence engine writes it.
    pub fn snapshot(&self) -> (r: Snapshot)
        ensures
            snapshot_of(self@, r),
    {
        let sites = self.site_rows();
        let pages = self.page_rows();
        let visitors = self.visitor_rows();
        Snapshot { sites, pages, visitors }
    }

    /// Sets the counters of `site_key` from a counter import.
    pub fn import_site(&mut self, site_key: &str, pv: u64, uv: Option<u64>)
        ensures
            old(self)@.wf() ==> final(self)@.wf(),
            final(self)@ == old(self)@.import_site(site_key@, pv, uv),
    {
        counter_set(&mut self.site_pv, site_key, pv);
        if let Some(u) = uv {
            counter_set(&mut self.site_uv, site_key, u);
        }
        visitors_ensure(&mut self.site_visitors, site_key);
        proof {
            if old(self)@.wf() {
                assert forall|k: Seq<char>| #[trigger] self@.visitors.contains_key(k) implies self@.visitors[k].finite() by {
                    lemma_wf_at(old(self)@, k);
                    lemma_wf_at(old(self)@, site_key@);
                }
            }
        }
    }

    /// Hands out the visitors first seen since the last call, oldest first,
    /// and forgets them.
    pub fn drain_new_visitors(&mut self) -> (r: Vec<(String, u64)>)
        ensures
            r@.map_values(|p: (String, u64)| (p.0@, p.1)) == old(self)@.new_visitors,
            final(self)@ == (StoreView { new_visitors: Seq::empty(), ..old(self)@ }),
    {
        let mut r: Vec<(String, u64)> = Vec::new();
        std::mem::swap(&mut r, &mut self.new_visitors);
        proof {
            assert(self@.new_visitors =~= Seq::empty());
        }
        r
    }
}

/// Takes counters read from an upstream counter service for one page,
/// raising each counter only where the incoming value is greater.
pub fn store_stats(
    store: &mut Store,
    site_hash: &str,
    page_key: &str,
    host: &str,
    path: &str,
    site_pv: u64,
    site_uv: u64,
    page_pv: u64,
)
    ensures
        old(store)@.wf() ==> final(store)@.wf(),
        final(store)@ == old(store)@.sync(site_hash@, page_key@, host@, path@, site_pv, site_uv, page_pv),
{
    set_labels(store, site_hash, page_key, host, path);
    if site_pv > value_or_zero(counter_get(&store.site_pv, site_hash)) {
        counter_set(&mut store.site_pv, site_hash, site_pv);
    }
    if site_uv > value_or_zero(counter_get(&store.site_uv, site_hash)) {
        counter_set(&mut store.site_uv, site_hash, site_uv);
    }
    if page_pv > value_or_zero(counter_get(&store.page_pv, page_key)) {
        counter_set(&mut store.page_pv, page_key, page_pv);
    }
    visitors_ensure(&mut store.site_visitors, site_hash);
}

/// Records the host of `site_key` and the path of `page_key` where the
/// display maps hold none yet.
pub fn set_labels(store: &mut Store, site_key: &str, page_key: &str, host: &str, path: &str)
    ensures
        final(store)@ == old(store)@.label(site_key@, page_key@, host@, path@),
{
    if label_get(&store.site_hosts, site_key).is_none() {
        label_set(&mut store.site_hosts, site_key, host);
    }
    if label_get(&store.page_paths, page_key).is_none() {
        label_set(&mut store.page_paths, page_key, path);
    }
}

/// Counts one visit of `site_key` by the visitor behind `user_identity`, and
/// returns the site's page views and unique visitors after it.
pub fn incr_site(store: &mut Store, site_key: &str, user_identity: &str) -> (r: (u64, u64))
    ensures
        old(store)@.wf() ==> final(store)@.wf(),
        final(store)@ == old(store)@.site_visit(site_key@, visitor_hash_of(user_identity@)),
        r.0 == final(store)@.site_pv[site_key@],
        r.1 == count_or_zero(final(store)@.site_uv, site_key@),
{
    let pv = bumped(value_or_zero(counter_get(&store.site_pv, site_key)));
    counter_set(&mut store.site_pv, site_key, pv);
    let vh = visitor_hash(user_identity);
    let is_new = visitors_insert(&mut store.site_visitors, site_key, vh);
    let uv = if is_new {
        store.new_visitors.push((site_key.to_owned(), vh));
        let uv = bumped(value_or_zero(counter_get(&store.site_uv, site_key)));
        counter_set(&mut store.site_uv, site_key, uv);
        uv
    } else {
        value_or_zero(counter_get(&store.site_uv, site_key))
    };
    proof {
        let v = old(store)@.site_visit(site_key@, vh);
        assert(store@.new_visitors =~= v.new_visitors);
        assert(store@.visitors =~= v.visitors);
    }
    (pv, uv)
}

/// Counts one view of `page_key` and returns its page views after it.
pub fn incr_page(store: &mut Store, page_key: &str) -> (r: u64)
    ensures
        final(store)@ == old(store)@.page_visit(page_key@),
        r == final(store)@.page_pv[page_key@],
{
    let pv = bumped(value_or_zero(counter_get(&store.page_pv, page_key)));
    counter_set(&mut store.page_pv, page_key, pv);
    pv
}

/// The page views and unique visitors of `site_key`; zero where absent.
pub fn get_site(store: &Store, site_key: &str) -> (r: (u64, u64))
    ensures
        r.0 == count_or_zero(store@.site_pv, site_key@),
        r.1 == count_or_zero(store@.site_uv, site_key@),
{
    let pv = value_or_zero(counter_get(&store.site_pv, site_key));
    let uv = value_or_zero(counter_get(&store.site_uv, site_key));
    (pv, uv)
}

/// The page views of `page_key`; zero where absent.
pub fn get_page(store: &Store, page_key: &str) -> (r: u64)
    ensures
        r == count_or_zero(store@.page_pv, page_key@),
{
    value_or_zero(counter_get(&store.page_pv, page_key))
}

} // verus!
