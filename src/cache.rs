//! A small store of recent directory listings, bounded in size and in age.
//! Entries are kept most recently used first; a listing older than the time
//! to live is dropped when read, and the least recently used entries are
//! evicted when the store is over capacity.

use vstd::prelude::*;

verus! {

/// One directory entry: its name and whether it is a directory.
pub struct DirEntryInfo {
    pub name: String,
    pub is_dir: bool,
}

struct CacheEntry {
    dir: String,
    items: Vec<DirEntryInfo>,
    stamp_ms: u64,
}

/// A listing as plain values.
pub type ListingView = Seq<(Seq<char>, bool)>;

/// A cached directory, its listing and when it was stored.
pub type EntryView = (Seq<char>, ListingView, u64);

pub open spec fn listing_view(v: Seq<DirEntryInfo>) -> ListingView {
    v.map_values(|e: DirEntryInfo| (e.name@, e.is_dir))
}

spec fn entry_view(e: CacheEntry) -> EntryView {
    (e.dir@, listing_view(e.items@), e.stamp_ms)
}

/// Index of the entry for directory `d` at or after `i`, or -1.
pub open spec fn find_from(es: Seq<EntryView>, d: Seq<char>, i: int) -> int
    decreases es.len() - i,
{
    if i < 0 || i >= es.len() {
        -1
    } else if es[i].0 == d {
        i
    } else {
        find_from(es, d, i + 1)
    }
}

pub open spec fn find_dir(es: Seq<EntryView>, d: Seq<char>) -> int {
    find_from(es, d, 0)
}

/// No two entries are for the same directory.
pub open spec fn distinct_dirs(es: Seq<EntryView>) -> bool {
    forall|i: int, j: int| 0 <= i < j < es.len() ==> es[i].0 != es[j].0
}

/// `es` without the entry for `d`.
pub open spec fn without_dir(es: Seq<EntryView>, d: Seq<char>) -> Seq<EntryView> {
    if find_dir(es, d) >= 0 {
        es.remove(find_dir(es, d))
    } else {
        es
    }
}

/// The first `cap` entries, the most recently used.
pub open spec fn evict_to(es: Seq<EntryView>, cap: nat) -> Seq<EntryView> {
    if es.len() > cap {
        es.take(cap as int)
    } else {
        es
    }
}

/// The entries after storing `items` for `d` at time `now`.
pub open spec fn after_insert(
    es: Seq<EntryView>,
    d: Seq<char>,
    items: ListingView,
    now: u64,
    cap: nat,
) -> Seq<EntryView> {
    evict_to(seq![(d, items, now)] + without_dir(es, d), cap)
}

/// An entry stored at `stamp` is still valid at `now`.
pub open spec fn fresh(stamp: u64, now: u64, ttl: u64) -> bool {
    (if now >= stamp {
        now - stamp
    } else {
        0
    }) <= ttl
}

/// What a read of `d` at time `now` returns.
pub open spec fn lookup(es: Seq<EntryView>, d: Seq<char>, now: u64, ttl: u64) -> Option<
    ListingView,
> {
    let i = find_dir(es, d);
    if i >= 0 && fresh(es[i].2, now, ttl) {
        Some(es[i].1)
    } else {
        None
    }
}

/// The entries after a read of `d` at time `now`: a valid entry moves to the
/// front, an expired one is dropped.
pub open spec fn after_lookup(es: Seq<EntryView>, d: Seq<char>, now: u64, ttl: u64) -> Seq<
    EntryView,
> {
    let i = find_dir(es, d);
    if i < 0 {
        es
    } else if fresh(es[i].2, now, ttl) {
        seq![es[i]] + es.remove(i)
    } else {
        es.remove(i)
    }
}

/// Directory listings, most recently used first.
pub struct DirCache {
    ttl_ms: u64,
    max_entries: usize,
    entries: Vec<CacheEntry>,
}

impl View for DirCache {
    type V = Seq<EntryView>;

    closed spec fn view(&self) -> Seq<EntryView> {
        self.entries@.map_values(|e: CacheEntry| entry_view(e))
    }
}

proof fn lemma_find_from(es: Seq<EntryView>, d: Seq<char>, i: int)
    requires
        0 <= i,
    ensures
        find_from(es, d, i) == -1 || (i <= find_from(es, d, i) < es.len() && es[find_from(
            es,
            d,
            i,
        )].0 == d),
        find_from(es, d, i) == -1 ==> forall|j: int| i <= j < es.len() ==> es[j].0 != d,
        find_from(es, d, i) >= 0 ==> forall|j: int| i <= j < find_from(es, d, i) ==> es[j].0 != d,
    decreases es.len() - i,
{
    if i < es.len() && es[i].0 != d {
        lemma_find_from(es, d, i + 1);
    }
}

/// Storing a listing keeps directories distinct and the store within its
/// capacity; on overflow exactly the least recently used entries go.
pub proof fn lemma_insert_bounded(
    es: Seq<EntryView>,
    d: Seq<char>,
    items: ListingView,
    now: u64,
    cap: nat,
)
    requires
        distinct_dirs(es),
    ensures
        distinct_dirs(after_insert(es, d, items, now, cap)),
        after_insert(es, d, items, now, cap).len() <= cap,
        after_insert(es, d, items, now, cap) == (seq![(d, items, now)] + without_dir(es, d)).take(
            after_insert(es, d, items, now, cap).len() as int,
        ),
        cap >= 1 ==> after_insert(es, d, items, now, cap)[0] == (d, items, now),
{
    lemma_find_from(es, d, 0);
    let w = without_dir(es, d);
    assert(forall|j: int| 0 <= j < w.len() ==> w[j].0 != d) by {
        if find_dir(es, d) >= 0 {
            let k = find_dir(es, d);
            assert forall|j: int| 0 <= j < w.len() implies w[j].0 != d by {
                if j >= k {
                    assert(w[j] == es[j + 1]);
                }
            }
        }
    }
    assert(distinct_dirs(w)) by {
        if find_dir(es, d) >= 0 {
            let k = find_dir(es, d);
            assert forall|i: int, j: int| 0 <= i < j < w.len() implies w[i].0 != w[j].0 by {
                let ii = if i < k {
                    i
                } else {
                    i + 1
                };
                let jj = if j < k {
                    j
                } else {
                    j + 1
                };
                assert(w[i] == es[ii] && w[j] == es[jj]);
            }
        }
    }
    let full = seq![(d, items, now)] + w;
    assert(distinct_dirs(full)) by {
        assert forall|i: int, j: int| 0 <= i < j < full.len() implies full[i].0 != full[j].0 by {
            if i == 0 {
                assert(full[j] == w[j - 1]);
            } else {
                assert(full[i] == w[i - 1] && full[j] == w[j - 1]);
            }
        }
    }
    let r = evict_to(full, cap);
    assert(r =~= full.take(r.len() as int));
}

/// A listing read back right after it was stored, within the time to live, is
/// the stored listing; read after the time to live, it is gone.
pub proof fn lemma_insert_then_lookup(
    es: Seq<EntryView>,
    d: Seq<char>,
    items: ListingView,
    stored: u64,
    now: u64,
    ttl: u64,
    cap: nat,
)
    requires
        cap >= 1,
    ensures
        fresh(stored, now, ttl) ==> lookup(after_insert(es, d, items, stored, cap), d, now, ttl)
            == Some(items),
        !fresh(stored, now, ttl) ==> lookup(after_insert(es, d, items, stored, cap), d, now, ttl)
            is None,
{
    let r = after_insert(es, d, items, stored, cap);
    assert(r[0] == (d, items, stored));
    assert(find_dir(r, d) == 0);
}

impl DirCache {
    /// The time to live of a listing, in milliseconds.
    pub closed spec fn ttl(&self) -> u64 {
        self.ttl_ms
    }

    /// How many directories the store holds at most.
    pub closed spec fn capacity(&self) -> nat {
        self.max_entries as nat
    }

    /// Directories are distinct and within capacity.
    pub open spec fn wf(&self) -> bool {
        distinct_dirs(self@) && self@.len() <= self.capacity()
    }

    /// An empty store.
    pub fn new(ttl_ms: u64, max_entries: usize) -> (r: DirCache)
        ensures
            r@ == Seq::<EntryView>::empty(),
            r.ttl() == ttl_ms,
            r.capacity() == max_entries,
            r.wf(),
    {
        let r = DirCache { ttl_ms, max_entries, entries: Vec::new() };
        assert(r@ =~= Seq::<EntryView>::empty());
        r
    }

    fn position(&self, dir: &String) -> (r: Option<usize>)
        ensures
            match r {
                Some(i) => i == find_dir(self@, dir@) && i < self@.len(),
                None => find_dir(self@, dir@) == -1,
            },
    {
        let mut i: usize = 0;
        while i < self.entries.len()
            invariant
                i <= self@.len(),
                self@.len() == self.entries@.len(),
                find_from(self@, dir@, i as int) == find_dir(self@, dir@),
            decreases self@.len() - i,
        {
            if self.entries[i].dir == *dir {
                return Some(i);
            }
            i = i + 1;
        }
        None
    }

    fn evict(&mut self)
        ensures
            final(self)@ == evict_to(old(self)@, old(self).capacity()),
            final(self).ttl() == old(self).ttl(),
            final(self).capacity() == old(self).capacity(),
    {
        let ghost start = self@;
        while self.entries.len() > self.max_entries
            invariant
                self.ttl() == old(self).ttl(),
                self.capacity() == old(self).capacity(),
                self@.len() >= self.capacity() ==> self@ == start.take(self@.len() as int),
                self@.len() < self.capacity() ==> self@ == start,
                start == old(self)@,
                self@.len() <= start.len(),
            decreases self@.len(),
        {
            let ghost before = self@;
            self.entries.pop();
            assert(self@ =~= before.drop_last());
        }
        assert(self@ =~= evict_to(start, self.capacity()));
    }

    /// The listing stored for `dir`, if it is younger than the time to live
    /// at time `now_ms`. A hit moves the entry to the front; an expired entry
    /// is dropped.
    pub fn get(&mut self, dir: &str, now_ms: u64) -> (r: Option<Vec<DirEntryInfo>>)
        requires
            old(self).wf(),
        ensures
            final(self).wf(),
            final(self).ttl() == old(self).ttl(),
            final(self).capacity() == old(self).capacity(),
            final(self)@ == after_lookup(old(self)@, dir@, now_ms, old(self).ttl()),
            match lookup(old(self)@, dir@, now_ms, old(self).ttl()) {
                Some(items) => r matches Some(v) && listing_view(v@) == items,
                None => r is None,
            },
    {
        let key = dir.to_owned();
        let pos = match self.position(&key) {
            Some(p) => p,
            None => return None,
        };
        proof {
            lemma_find_from(self@, dir@, 0);
        }
        let ghost es = self@;
        let entry = self.entries.remove(pos);
        assert(self@ =~= es.remove(pos as int));
        let age = if now_ms >= entry.stamp_ms {
            now_ms - entry.stamp_ms
        } else {
            0
        };
        if age <= self.ttl_ms {
            let items = copy_listing(&entry.items);
            self.entries.insert(0, entry);
            assert(self@ =~= seq![es[pos as int]] + es.remove(pos as int));
            proof {
                assert forall|i: int, j: int| 0 <= i < j < self@.len() implies self@[i].0
                    != self@[j].0 by {
                    let r = es.remove(pos as int);
                    if i == 0 {
                        let jj = if j - 1 < pos {
                            j - 1
                        } else {
                            j
                        };
                        assert(self@[j] == r[j - 1] && r[j - 1] == es[jj]);
                    } else {
                        let ii = if i - 1 < pos {
                            i - 1
                        } else {
                            i
                        };
                        let jj = if j - 1 < pos {
                            j - 1
                        } else {
                            j
                        };
                        assert(self@[i] == r[i - 1] && r[i - 1] == es[ii]);
                        assert(self@[j] == r[j - 1] && r[j - 1] == es[jj]);
                    }
                }
            }
            Some(items)
        } else {
            proof {
                assert forall|i: int, j: int| 0 <= i < j < self@.len() implies self@[i].0
                    != self@[j].0 by {
                    let ii = if i < pos {
                        i
                    } else {
                        i + 1
                    };
                    let jj = if j < pos {
                        j
                    } else {
                        j + 1
                    };
                    assert(self@[i] == es[ii] && self@[j] == es[jj]);
                }
            }
            None
        }
    }

    /// Stores `items` for `dir` at time `now_ms`, replacing an older listing
    /// of it, then evicts the least recently used entries beyond capacity.
    pub fn insert(&mut self, dir: &str, items: Vec<DirEntryInfo>, now_ms: u64)
        requires
            old(self).wf(),
        ensures
            final(self).wf(),
            final(self).ttl() == old(self).ttl(),
            final(self).capacity() == old(self).capacity(),
            final(self)@ == after_insert(
                old(self)@,
                dir@,
                listing_view(items@),
                now_ms,
                old(self).capacity(),
            ),
    {
        let key = dir.to_owned();
        proof {
            lemma_find_from(self@, dir@, 0);
            lemma_insert_bounded(self@, dir@, listing_view(items@), now_ms, self.capacity());
        }
        let ghost es = self@;
        match self.position(&key) {
            Some(p) => {
                self.entries.remove(p);
                assert(self@ =~= es.remove(p as int));
            },
            None => {},
        }
        let ghost mid = self@;
        assert(mid == without_dir(es, dir@));
        self.entries.insert(0, CacheEntry { dir: key, items, stamp_ms: now_ms });
        assert(self@ =~= seq![(dir@, listing_view(items@), now_ms)] + mid);
        self.evict();
    }

    /// Changes the time to live and the capacity, evicting the least recently
    /// used entries beyond the new capacity. Stored times are kept.
    pub fn update_limits(&mut self, ttl_ms: u64, max_entries: usize)
        requires
            old(self).wf(),
        ensures
            final(self).wf(),
            final(self).ttl() == ttl_ms,
            final(self).capacity() == max_entries,
            final(self)@ == evict_to(old(self)@, max_entries as nat),
    {
        self.ttl_ms = ttl_ms;
        self.max_entries = max_entries;
        proof {
            assert(self@ == old(self)@);
        }
        self.evict();
        proof {
            let es = old(self)@;
            assert forall|i: int, j: int| 0 <= i < j < self@.len() implies self@[i].0
                != self@[j].0 by {
                assert(self@[i] == es[i] && self@[j] == es[j]);
            }
        }
    }
}

fn copy_listing(v: &Vec<DirEntryInfo>) -> (r: Vec<DirEntryInfo>)
    ensures
        listing_view(r@) == listing_view(v@),
{
    let mut out: Vec<DirEntryInfo> = Vec::new();
    let mut i: usize = 0;
    while i < v.len()
        invariant
            i <= v@.len(),
            listing_view(out@) == listing_view(v@.take(i as int)),
        decreases v@.len() - i,
    {
        let ghost before = out@;
        let e = DirEntryInfo { name: v[i].name.clone(), is_dir: v[i].is_dir };
        out.push(e);
        proof {
            assert(v@.take(i + 1) =~= v@.take(i as int).push(v@[i as int]));
            assert(listing_view(out@) =~= listing_view(before).push((e.name@, e.is_dir)));
            assert(listing_view(v@.take(i + 1)) =~= listing_view(v@.take(i as int)).push(
                (v@[i as int].name@, v@[i as int].is_dir),
            ));
        }
        i = i + 1;
    }
    assert(v@.take(v@.len() as int) =~= v@);
    out
}

} // verus!
