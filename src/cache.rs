//! The taxon cache: cache-aside storage of taxa, keyed by taxon id and by the
//! name that matched them. Entries never expire.
use vstd::prelude::*;

use crate::classify::Taxon;
use crate::errors::TaxonomyError;
use crate::remote::{contains_id, lemma_push_has};
use crate::text::text_eq;

verus! {

/// One cached taxon.
#[derive(Clone, Debug)]
pub struct CachedTaxon {
    pub taxon_id: i32,
    /// The name under which the taxon was looked up (or its own name).
    pub matched_name: String,
    pub taxon: Taxon,
    /// When the taxon was downloaded, in seconds.
    pub downloaded_at: i64,
}

/// The model of an entry: id, matched name, taxon, download time.
pub type EntryModel = (i32, Seq<char>, Taxon, i64);

/// A key of the cache.
pub enum CacheKey {
    Id(i32),
    Name(String),
}

/// What a lookup leads to.
#[derive(Clone, Copy, Debug, PartialEq, Eq, Structural)]
pub enum LookupStep {
    /// The cache holds the key: answer from it, with no remote call.
    Hit,
    /// The cache misses: fetch from the remote service.
    Fetch,
    /// The cache misses while offline: fail with no remote call.
    Offline,
}

/// The taxon cache. Ids are unique among its entries, and so are matched names.
pub struct TaxonCache {
    entries: Vec<CachedTaxon>,
}

pub open spec fn entry_model(e: CachedTaxon) -> EntryModel {
    (e.taxon_id, e.matched_name@, e.taxon, e.downloaded_at)
}

/// Whether two taxa carry the same values.
pub open spec fn same_taxon(a: Taxon, b: Taxon) -> bool {
    &&& a.id == b.id
    &&& a.name == b.name
    &&& a.preferred_common_name == b.preferred_common_name
    &&& a.rank == b.rank
    &&& a.ancestor_ids.is_some() == b.ancestor_ids.is_some()
    &&& a.ancestor_ids.is_some() ==> a.ancestor_ids.unwrap()@ == b.ancestor_ids.unwrap()@
}

/// Ids and matched names are unique, and each entry's id is its taxon's.
pub open spec fn entries_wf(m: Seq<EntryModel>) -> bool {
    &&& forall|i: int| 0 <= i < m.len() ==> (#[trigger] m[i]).2.id == m[i].0
    &&& forall|i: int, j: int| 0 <= i < m.len() && 0 <= j < m.len() && i != j ==> (#[trigger] m[i]).0 != (#[trigger] m[j]).0
    &&& forall|i: int, j: int| 0 <= i < m.len() && 0 <= j < m.len() && i != j ==> (#[trigger] m[i]).1 != (#[trigger] m[j]).1
}

/// Whether an entry answers the key.
pub open spec fn answers(e: EntryModel, key: CacheKey) -> bool {
    match key {
        CacheKey::Id(id) => e.0 == id,
        CacheKey::Name(n) => e.1 == n@,
    }
}

/// Whether the cache holds the key.
pub open spec fn holds(m: Seq<EntryModel>, key: CacheKey) -> bool {
    exists|i: int| 0 <= i < m.len() && answers(#[trigger] m[i], key)
}

/// What a lookup of `key` leads to.
pub open spec fn lookup_step(m: Seq<EntryModel>, key: CacheKey, offline: bool) -> LookupStep {
    if holds(m, key) {
        LookupStep::Hit
    } else if offline {
        LookupStep::Offline
    } else {
        LookupStep::Fetch
    }
}

/// The name under which a fetched taxon is stored: the queried name, else
/// the taxon's own.
pub open spec fn stored_name(taxon: Taxon, matched_name: Option<String>) -> Option<Seq<char>> {
    match matched_name {
        Some(n) => Some(n@),
        None => match taxon.name {
            Some(n) => Some(n@),
            None => None,
        },
    }
}

/// Whether another entry than the one of `id` already holds the name `n`.
pub open spec fn name_taken(m: Seq<EntryModel>, id: i32, n: Seq<char>) -> bool {
    exists|i: int| 0 <= i < m.len() && (#[trigger] m[i]).1 == n && m[i].0 != id
}

/// The entries after an upsert keyed by the taxon's id: the entry of that id
/// is replaced, or a new one is appended.
pub open spec fn upsert(m: Seq<EntryModel>, taxon: Taxon, n: Seq<char>, at: i64) -> Seq<EntryModel> {
    let e = (taxon.id, n, taxon, at);
    if exists|i: int| 0 <= i < m.len() && (#[trigger] m[i]).0 == taxon.id {
        let i = choose|i: int| 0 <= i < m.len() && (#[trigger] m[i]).0 == taxon.id;
        m.update(i, e)
    } else {
        m.push(e)
    }
}

impl View for TaxonCache {
    type V = Seq<EntryModel>;

    closed spec fn view(&self) -> Seq<EntryModel> {
        self.entries@.map_values(|e: CachedTaxon| entry_model(e))
    }
}

impl TaxonCache {
    pub open spec fn wf(&self) -> bool {
        entries_wf(self@)
    }

    /// An empty cache.
    pub fn new() -> (r: TaxonCache)
        ensures
            r.wf(),
            r@.len() == 0,
    {
        TaxonCache { entries: Vec::new() }
    }

    /// The cached entries.
    pub fn entries(&self) -> (r: &Vec<CachedTaxon>)
        ensures
            r@.map_values(|e: CachedTaxon| entry_model(e)) == self@,
    {
        &self.entries
    }

    /// The index of the entry that answers `key`, if any.
    fn position(&self, key: &CacheKey) -> (r: Option<usize>)
        ensures
            match r {
                Some(i) => i < self@.len() && answers(self@[i as int], *key),
                None => !holds(self@, *key),
            },
    {
        let mut i: usize = 0;
        while i < self.entries.len()
            invariant
                i <= self@.len(),
                self@.len() == self.entries@.len(),
                forall|j: int| 0 <= j < i ==> !answers(#[trigger] self@[j], *key),
            decreases self@.len() - i,
        {
            let e = &self.entries[i];
            let found = match key {
                CacheKey::Id(id) => e.taxon_id == *id,
                CacheKey::Name(n) => text_eq(e.matched_name.as_str(), n.as_str()),
            };
            assert(self@[i as int] == entry_model(self.entries@[i as int]));
            if found {
                return Some(i);
            }
            i = i + 1;
        }
        None
    }

    /// The first step of a cache-aside lookup: the cached taxon on a hit;
    /// `Ok(None)` when it must be fetched; `OfflineMode` on a miss offline.
    pub fn lookup(&self, key: &CacheKey, offline: bool) -> (r: Result<Option<Taxon>, TaxonomyError>)
        requires
            self.wf(),
        ensures
            match r {
                Ok(Some(t)) => lookup_step(self@, *key, offline) == LookupStep::Hit && exists|i: int|
                    0 <= i < self@.len() && answers(#[trigger] self@[i], *key) && same_taxon(
                        t,
                        self@[i].2,
                    ),
                Ok(None) => lookup_step(self@, *key, offline) == LookupStep::Fetch,
                Err(e) => lookup_step(self@, *key, offline) == LookupStep::Offline && e
                    == TaxonomyError::OfflineMode,
            },
    {
        match self.position(key) {
            Some(i) => {
                let t = self.entries[i].taxon.duplicate();
                assert(self@[i as int] == entry_model(self.entries@[i as int]));
                Ok(Some(t))
            },
            None => {
                if offline {
                    Err(TaxonomyError::OfflineMode)
                } else {
                    Ok(None)
                }
            },
        }
    }

    /// Upserts `taxon` by its id under `matched_name`, or under its own name
    /// when none is given. Fails, leaving the cache unchanged, when there is
    /// no name to store it under or another taxon holds that name.
    pub fn store(&mut self, taxon: Taxon, matched_name: Option<String>, at: i64) -> (r: Result<
        (),
        TaxonomyError,
    >)
        requires
            old(self).wf(),
        ensures
            final(self).wf(),
            r.is_ok() <==> (stored_name(taxon, matched_name).is_some() && !name_taken(
                old(self)@,
                taxon.id,
                stored_name(taxon, matched_name).unwrap(),
            )),
            r.is_ok() ==> final(self)@ == upsert(
                old(self)@,
                taxon,
                stored_name(taxon, matched_name).unwrap(),
                at,
            ),
            r.is_err() ==> final(self)@ == old(self)@ && r.unwrap_err() is CacheError,
    {
        let name = match matched_name {
            Some(n) => n,
            None => match &taxon.name {
                Some(n) => n.clone(),
                None => {
                    return Err(
                        TaxonomyError::CacheError(String::from_str("no name to store the taxon under")),
                    );
                },
            },
        };
        self.insert_named(taxon, name, at)
    }

    /// Upserts `taxon` by its id under the name `name`. Fails, leaving the
    /// cache unchanged, when another taxon holds that name.
    fn insert_named(&mut self, taxon: Taxon, name: String, at: i64) -> (r: Result<(), TaxonomyError>)
        requires
            old(self).wf(),
        ensures
            final(self).wf(),
            r.is_ok() <==> !name_taken(old(self)@, taxon.id, name@),
            r.is_ok() ==> final(self)@ == upsert(old(self)@, taxon, name@, at),
            r.is_err() ==> final(self)@ == old(self)@ && r.unwrap_err() is CacheError,
    {
        let id = taxon.id;
        let mut slot: Option<usize> = None;
        let mut i: usize = 0;
        while i < self.entries.len()
            invariant
                i <= self@.len(),
                self@.len() == self.entries@.len(),
                self@ == old(self)@,
                self.wf(),
                id == taxon.id,
                forall|j: int| 0 <= j < i ==> !((#[trigger] self@[j]).1 == name@ && self@[j].0 != id),
                match slot {
                    Some(s) => s < i && self@[s as int].0 == id,
                    None => forall|j: int| 0 <= j < i ==> (#[trigger] self@[j]).0 != id,
                },
            decreases self@.len() - i,
        {
            let e = &self.entries[i];
            assert(self@[i as int] == entry_model(self.entries@[i as int]));
            if e.taxon_id == id {
                slot = Some(i);
            } else if text_eq(e.matched_name.as_str(), name.as_str()) {
                assert(self@[i as int].1 == name@ && self@[i as int].0 != id);
                return Err(TaxonomyError::CacheError(String::from_str("another taxon holds the matched name")));
            }
            i = i + 1;
        }
        let entry = CachedTaxon { taxon_id: id, matched_name: name, taxon, downloaded_at: at };
        let ghost m0 = self@;
        let ghost e = entry_model(entry);
        match slot {
            Some(s) => {
                self.entries.set(s, entry);
                proof {
                    assert(self@ =~= m0.update(s as int, e));
                    let k = choose|k: int| 0 <= k < m0.len() && (#[trigger] m0[k]).0 == id;
                    assert(k == s as int);
                }
            },
            None => {
                self.entries.push(entry);
                proof {
                    assert(self@ =~= m0.push(e));
                }
            },
        }
        Ok(())
    }

    /// The ids among `ids` that the cache does not hold, each once.
    pub fn missing_ids(&self, ids: &Vec<i32>) -> (r: Vec<i32>)
        ensures
            r@.no_duplicates(),
            forall|x: i32| r@.contains(x) <==> (ids@.contains(x) && !holds(self@, CacheKey::Id(x))),
    {
        let mut r: Vec<i32> = Vec::new();
        let mut i: usize = 0;
        while i < ids.len()
            invariant
                i <= ids@.len(),
                r@.no_duplicates(),
                forall|x: i32| r@.contains(x) <==> (ids@.subrange(0, i as int).contains(x) && !holds(self@, CacheKey::Id(x))),
            decreases ids@.len() - i,
        {
            let x = ids[i];
            let cached = self.position(&CacheKey::Id(x)).is_some();
            let seen = contains_id(&r, x);
            proof {
                assert(ids@.subrange(0, i + 1) =~= ids@.subrange(0, i as int).push(x));
            }
            let ghost r0 = r@;
            if !cached && !seen {
                r.push(x);
            }
            proof {
                assert forall|y: i32| r@.contains(y) <==> (ids@.subrange(0, i + 1).contains(y) && !holds(self@, CacheKey::Id(y))) by {
                    lemma_push_has(ids@.subrange(0, i as int), x, y);
                    lemma_push_has(r0, x, y);
                }
            }
            i = i + 1;
        }
        proof {
            assert(ids@.subrange(0, i as int) =~= ids@);
        }
        r
    }

    /// The first step of a batched cache-aside lookup: the ids among `ids` to
    /// fetch, each once; `OfflineMode` when offline and any of them is
    /// missing, so that nothing is fetched.
    pub fn batch_step(&self, ids: &Vec<i32>, offline: bool) -> (r: Result<Vec<i32>, TaxonomyError>)
        ensures
            match r {
                Ok(m) => !(offline && misses_any(self@, ids@)) && m@.no_duplicates() && (forall|x: i32|
                    m@.contains(x) <==> (ids@.contains(x) && !holds(self@, CacheKey::Id(x)))),
                Err(e) => offline && misses_any(self@, ids@) && e == TaxonomyError::OfflineMode,
            },
    {
        let missing = self.missing_ids(ids);
        proof {
            if missing@.len() > 0 {
                assert(missing@.contains(missing@[0]));
            }
            if misses_any(self@, ids@) {
                let x = choose|x: i32| ids@.contains(x) && !holds(self@, CacheKey::Id(x));
                assert(missing@.contains(x));
            }
        }
        if offline && missing.len() > 0 {
            Err(TaxonomyError::OfflineMode)
        } else {
            Ok(missing)
        }
    }

    /// The cached taxa whose ids are among `ids`, in the cache's order.
    pub fn cached_taxa(&self, ids: &Vec<i32>) -> (r: Vec<Taxon>)
        ensures
            r@.len() == selected(self@, ids@).len(),
            forall|k: int| 0 <= k < r@.len() ==> same_taxon(#[trigger] r@[k], selected(self@, ids@)[k]),
    {
        let mut r: Vec<Taxon> = Vec::new();
        let mut i: usize = 0;
        while i < self.entries.len()
            invariant
                i <= self@.len(),
                self@.len() == self.entries@.len(),
                r@.len() == selected(self@.subrange(0, i as int), ids@).len(),
                forall|k: int| 0 <= k < r@.len() ==> same_taxon(#[trigger] r@[k], selected(self@.subrange(0, i as int), ids@)[k]),
            decreases self@.len() - i,
        {
            let e = &self.entries[i];
            assert(self@[i as int] == entry_model(self.entries@[i as int]));
            let wanted = contains_id(ids, e.taxon_id);
            proof {
                let next = self@.subrange(0, i + 1);
                assert(next.drop_last() =~= self@.subrange(0, i as int));
                assert(next.last() == self@[i as int]);
            }
            if wanted {
                r.push(e.taxon.duplicate());
            }
            i = i + 1;
        }
        proof {
            assert(self@.subrange(0, i as int) =~= self@);
        }
        r
    }

    /// Stores each fetched taxon under its own name, in order, stopping at the
    /// first that cannot be stored.
    pub fn store_batch(&mut self, taxa: Vec<Taxon>, at: i64) -> (r: Result<(), TaxonomyError>)
        requires
            old(self).wf(),
        ensures
            final(self).wf(),
            r.is_ok() <==> stored_all(old(self)@, taxa@, at).is_some(),
            r.is_ok() ==> final(self)@ == stored_all(old(self)@, taxa@, at).unwrap(),
            r.is_err() ==> r.unwrap_err() is CacheError,
    {
        let ghost all = taxa@;
        let mut rest = taxa;
        let ghost mut k: int = 0;
        proof {
            assert(all.subrange(0, 0) =~= Seq::<Taxon>::empty());
            assert(all.subrange(0, all.len() as int) =~= all);
        }
        while rest.len() > 0
            invariant
                self.wf(),
                0 <= k <= all.len(),
                all == taxa@,
                rest@ == all.subrange(k, all.len() as int),
                stored_all(old(self)@, all.subrange(0, k), at) == Some(self@),
            decreases rest@.len(),
        {
            let t = rest.remove(0);
            proof {
                let next = all.subrange(0, k + 1);
                assert(next.drop_last() =~= all.subrange(0, k));
                assert(next.last() == t);
            }
            match self.store(t, None, at) {
                Ok(()) => {},
                Err(e) => {
                    proof {
                        assert(stored_all(old(self)@, all.subrange(0, k + 1), at).is_none());
                        lemma_stored_all_fails(old(self)@, all, k + 1, at);
                    }
                    return Err(e);
                },
            }
            proof {
                k = k + 1;
                assert(rest@ =~= all.subrange(k, all.len() as int));
            }
        }
        proof {
            assert(all.subrange(0, k) =~= all);
        }
        Ok(())
    }

    /// The last step of a cache-aside lookup of `key`, given what the remote
    /// service returned: a fetched taxon is stored (under the queried name for a
    /// name key) and returned; a failure passes through and leaves the cache as
    /// it was.
    pub fn complete_fetch(
        &mut self,
        key: &CacheKey,
        fetched: Result<Taxon, TaxonomyError>,
        at: i64,
    ) -> (r: Result<Taxon, TaxonomyError>)
        requires
            old(self).wf(),
        ensures
            final(self).wf(),
            match fetched {
                Err(e) => r == Err::<Taxon, TaxonomyError>(e) && final(self)@ == old(self)@,
                Ok(t) => {
                    let n = stored_name(t, key_name(*key));
                    &&& r.is_ok() <==> (n.is_some() && !name_taken(old(self)@, t.id, n.unwrap()))
                    &&& r.is_ok() ==> same_taxon(r.unwrap(), t) && final(self)@ == upsert(
                        old(self)@,
                        t,
                        n.unwrap(),
                        at,
                    )
                    &&& r.is_err() ==> final(self)@ == old(self)@ && r.unwrap_err() is CacheError
                },
            },
    {
        match fetched {
            Err(e) => Err(e),
            Ok(t) => {
                let copy = t.duplicate();
                let name = match key {
                    CacheKey::Id(_) => None,
                    CacheKey::Name(n) => Some(n.clone()),
                };
                match self.store(t, name, at) {
                    Ok(()) => Ok(copy),
                    Err(e) => Err(e),
                }
            },
        }
    }
}

/// The queried name of a key, if it is a name key.
pub open spec fn key_name(key: CacheKey) -> Option<String> {
    match key {
        CacheKey::Id(_) => None,
        CacheKey::Name(n) => Some(n),
    }
}

/// The taxa of the entries whose ids are among `ids`, in the entries' order.
pub open spec fn selected(m: Seq<EntryModel>, ids: Seq<i32>) -> Seq<Taxon>
    decreases m.len(),
{
    if m.len() == 0 {
        Seq::empty()
    } else {
        let rest = selected(m.drop_last(), ids);
        if ids.contains(m.last().0) {
            rest.push(m.last().2)
        } else {
            rest
        }
    }
}

/// The entries after each taxon is stored under its own name, in order; none
/// when one of them cannot be.
pub open spec fn stored_all(m: Seq<EntryModel>, taxa: Seq<Taxon>, at: i64) -> Option<Seq<EntryModel>>
    decreases taxa.len(),
{
    if taxa.len() == 0 {
        Some(m)
    } else {
        match stored_all(m, taxa.drop_last(), at) {
            None => None,
            Some(m2) => {
                let t = taxa.last();
                match t.name {
                    None => None,
                    Some(n) => if name_taken(m2, t.id, n@) {
                        None
                    } else {
                        Some(upsert(m2, t, n@, at))
                    },
                }
            },
        }
    }
}

proof fn lemma_stored_all_fails(m: Seq<EntryModel>, taxa: Seq<Taxon>, k: int, at: i64)
    requires
        0 < k <= taxa.len(),
        stored_all(m, taxa.subrange(0, k), at).is_none(),
    ensures
        stored_all(m, taxa, at).is_none(),
    decreases taxa.len() - k,
{
    if k < taxa.len() {
        let next = taxa.subrange(0, k + 1);
        assert(next.drop_last() =~= taxa.subrange(0, k));
        lemma_stored_all_fails(m, taxa, k + 1, at);
    } else {
        assert(taxa.subrange(0, k) =~= taxa);
    }
}

/// Cache-aside: once a fetched taxon is stored for a key (the queried name,
/// or the id that the taxon carries), the next lookup of that key is served
/// from the cache, online or offline, with no remote call.
pub proof fn lemma_cache_aside(
    m: Seq<EntryModel>,
    key: CacheKey,
    taxon: Taxon,
    at: i64,
    offline: bool,
)
    requires
        entries_wf(m),
        stored_name(taxon, key_name(key)).is_some(),
        key is Id ==> key->Id_0 == taxon.id,
    ensures
        lookup_step(upsert(m, taxon, stored_name(taxon, key_name(key)).unwrap(), at), key, offline)
            == LookupStep::Hit,
{
    let n = stored_name(taxon, key_name(key)).unwrap();
    let m2 = upsert(m, taxon, n, at);
    if exists|i: int| 0 <= i < m.len() && (#[trigger] m[i]).0 == taxon.id {
        let i = choose|i: int| 0 <= i < m.len() && (#[trigger] m[i]).0 == taxon.id;
        assert(answers(m2[i], key));
    } else {
        assert(answers(m2[m.len() as int], key));
    }
}

/// Whether some id among `ids` is not held.
pub open spec fn misses_any(m: Seq<EntryModel>, ids: Seq<i32>) -> bool {
    exists|x: i32| ids.contains(x) && !holds(m, CacheKey::Id(x))
}

/// Offline with an empty cache, a batched lookup of any ids fails as
/// offline, so no remote call is made.
pub proof fn lemma_offline_empty_batch(ids: Seq<i32>)
    requires
        ids.len() > 0,
    ensures
        misses_any(Seq::<EntryModel>::empty(), ids),
{
    assert(ids.contains(ids[0]));
    assert(!holds(Seq::<EntryModel>::empty(), CacheKey::Id(ids[0])));
}

/// Offline with an empty cache, every lookup fails as offline, so no remote
/// call is made.
pub proof fn lemma_offline_empty(key: CacheKey)
    ensures
        lookup_step(Seq::<EntryModel>::empty(), key, true) == LookupStep::Offline,
{
}

} // verus!
