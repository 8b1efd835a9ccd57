//! The name verification cache: cache-aside storage of normalized names, each
//! valid for a fixed number of days after it was verified.
use vstd::prelude::*;

use crate::errors::TaxonomyError;
use crate::text::text_eq;

verus! {

/// Seconds in a day.
pub const SECONDS_PER_DAY: i64 = 86400;

/// How long a verified name stays valid, in seconds.
pub const FRESHNESS_SECONDS: i64 = 90 * SECONDS_PER_DAY;

/// A match of a name in one data source, as far as the cache reads it.
pub struct VerificationResultData {
    pub matched_name: String,
    pub current_name: String,
    pub current_canonical_simple: String,
}

/// The verifier's answer for one queried name: its matches, best first.
pub struct VerifiedNameData {
    pub name: String,
    pub results: Vec<VerificationResultData>,
}

/// The verifier's answer: one entry per queried name that it recognised.
pub struct VerificationResponse {
    pub names: Vec<VerifiedNameData>,
}

/// One cached verification.
#[derive(Clone, Debug)]
pub struct VerifiedName {
    pub matched_name: String,
    pub current_name: String,
    /// When the name was verified, in seconds.
    pub verified_at: i64,
}

/// The model of a cached verification: queried name, current name, time.
pub type VerifiedModel = (Seq<char>, Seq<char>, i64);

/// The name verification cache. Queried names are unique among its entries.
pub struct NameCache {
    entries: Vec<VerifiedName>,
}

/// Whether a verification made at `verified_at` is still valid at `now`.
pub open spec fn is_fresh(verified_at: int, now: int) -> bool {
    verified_at >= now - FRESHNESS_SECONDS
}

pub open spec fn verified_model(e: VerifiedName) -> VerifiedModel {
    (e.matched_name@, e.current_name@, e.verified_at)
}

pub open spec fn names_wf(m: Seq<VerifiedModel>) -> bool {
    forall|i: int, j: int| 0 <= i < m.len() && 0 <= j < m.len() && i != j ==> (#[trigger] m[i]).0 != (#[trigger] m[j]).0
}

/// The current name cached for `name` and still valid at `now`, if any.
pub open spec fn fresh_name(m: Seq<VerifiedModel>, name: Seq<char>, now: int) -> Option<Seq<char>> {
    if exists|i: int| 0 <= i < m.len() && (#[trigger] m[i]).0 == name && is_fresh(m[i].2 as int, now) {
        let i = choose|i: int| 0 <= i < m.len() && (#[trigger] m[i]).0 == name && is_fresh(m[i].2 as int, now);
        Some(m[i].1)
    } else {
        None
    }
}

/// The entries after an upsert keyed by the queried name.
pub open spec fn upsert_name(m: Seq<VerifiedModel>, name: Seq<char>, current: Seq<char>, at: i64) -> Seq<VerifiedModel> {
    if exists|i: int| 0 <= i < m.len() && (#[trigger] m[i]).0 == name {
        let i = choose|i: int| 0 <= i < m.len() && (#[trigger] m[i]).0 == name;
        m.update(i, (name, current, at))
    } else {
        m.push((name, current, at))
    }
}

/// What a verifier response yields for the queried name `name`: the name
/// itself when nothing was recognised; else the first match's canonical
/// name, or no result at all when the first recognised name has no match.
pub open spec fn verified_outcome(response: VerificationResponse, name: Seq<char>) -> Option<Seq<char>> {
    if response.names@.len() == 0 {
        Some(name)
    } else if response.names@[0].results@.len() == 0 {
        None
    } else {
        Some(response.names@[0].results@[0].current_canonical_simple@)
    }
}

impl View for NameCache {
    type V = Seq<VerifiedModel>;

    closed spec fn view(&self) -> Seq<VerifiedModel> {
        self.entries@.map_values(|e: VerifiedName| verified_model(e))
    }
}

impl NameCache {
    pub open spec fn wf(&self) -> bool {
        names_wf(self@)
    }

    /// An empty cache.
    pub fn new() -> (r: NameCache)
        ensures
            r.wf(),
            r@.len() == 0,
    {
        NameCache { entries: Vec::new() }
    }

    /// The cached verifications.
    pub fn entries(&self) -> (r: &Vec<VerifiedName>)
        ensures
            r@.map_values(|e: VerifiedName| verified_model(e)) == self@,
    {
        &self.entries
    }

    /// The current name cached for `name` if it is still valid at `now`;
    /// `None` on a miss or a stale entry, when the verifier must be asked.
    pub fn lookup(&self, name: &str, now: i64) -> (r: Option<String>)
        requires
            self.wf(),
        ensures
            match r {
                Some(c) => fresh_name(self@, name@, now as int) == Some(c@),
                None => fresh_name(self@, name@, now as int).is_none(),
            },
    {
        let mut i: usize = 0;
        while i < self.entries.len()
            invariant
                self.wf(),
                i <= self@.len(),
                self@.len() == self.entries@.len(),
                forall|j: int| 0 <= j < i ==> !((#[trigger] self@[j]).0 == name@ && is_fresh(self@[j].2 as int, now as int)),
            decreases self@.len() - i,
        {
            let e = &self.entries[i];
            assert(self@[i as int] == verified_model(self.entries@[i as int]));
            if text_eq(e.matched_name.as_str(), name)
                && (e.verified_at as i128) >= (now as i128) - (FRESHNESS_SECONDS as i128) {
                proof {
                    let k = choose|k: int| 0 <= k < self@.len() && (#[trigger] self@[k]).0 == name@ && is_fresh(self@[k].2 as int, now as int);
                    assert(k == i as int);
                }
                return Some(e.current_name.clone());
            }
            i = i + 1;
        }
        None
    }

    /// Upserts the verification of `name` as `current` at time `at`.
    pub fn store(&mut self, name: String, current: String, at: i64)
        requires
            old(self).wf(),
        ensures
            final(self).wf(),
            final(self)@ == upsert_name(old(self)@, name@, current@, at),
    {
        let mut slot: Option<usize> = None;
        let mut i: usize = 0;
        while i < self.entries.len()
            invariant
                i <= self@.len(),
                self@.len() == self.entries@.len(),
                self@ == old(self)@,
                self.wf(),
                match slot {
                    Some(s) => s < i && self@[s as int].0 == name@,
                    None => forall|j: int| 0 <= j < i ==> (#[trigger] self@[j]).0 != name@,
                },
            decreases self@.len() - i,
        {
            assert(self@[i as int] == verified_model(self.entries@[i as int]));
            if text_eq(self.entries[i].matched_name.as_str(), name.as_str()) {
                slot = Some(i);
            }
            i = i + 1;
        }
        let entry = VerifiedName { matched_name: name, current_name: current, verified_at: at };
        let ghost m0 = self@;
        let ghost e = verified_model(entry);
        match slot {
            Some(s) => {
                self.entries.set(s, entry);
                proof {
                    assert(self@ =~= m0.update(s as int, e));
                    let k = choose|k: int| 0 <= k < m0.len() && (#[trigger] m0[k]).0 == e.0;
                    assert(k == s as int);
                }
            },
            None => {
                self.entries.push(entry);
                proof {
                    assert(self@ =~= m0.push(e));
                }
            },
        }
    }

    /// The last step of a cache-aside normalization of `name`, given the
    /// verifier's response at time `now`: the queried name when nothing was
    /// recognised (cache unchanged); the first match's canonical name, cached;
    /// or `InconsistentUpstreamResponse` when the first recognised name has no
    /// match (cache unchanged).
    pub fn complete_verification(
        &mut self,
        name: &str,
        response: &VerificationResponse,
        now: i64,
    ) -> (r: Result<String, TaxonomyError>)
        requires
            old(self).wf(),
        ensures
            final(self).wf(),
            match verified_outcome(*response, name@) {
                None => r.is_err() && r.unwrap_err() is InconsistentUpstreamResponse
                    && r.unwrap_err()->InconsistentUpstreamResponse_0@ == name@ && final(self)@ == old(
                    self,
                )@,
                Some(c) => r.is_ok() && r.unwrap()@ == c && (if response.names@.len() == 0 {
                    final(self)@ == old(self)@
                } else {
                    final(self)@ == upsert_name(old(self)@, name@, c, now)
                }),
            },
    {
        if response.names.len() == 0 {
            return Ok(String::from_str(name));
        }
        let record = &response.names[0];
        if record.results.len() == 0 {
            return Err(TaxonomyError::InconsistentUpstreamResponse(String::from_str(name)));
        }
        let current = record.results[0].current_canonical_simple.clone();
        self.store(String::from_str(name), current.clone(), now);
        Ok(current)
    }
}

/// A verification made 91 days before `now` is stale, and one made 89 days
/// before is fresh.
pub proof fn lemma_freshness_window(now: int)
    ensures
        !is_fresh(now - 91 * SECONDS_PER_DAY, now),
        is_fresh(now - 89 * SECONDS_PER_DAY, now),
        is_fresh(now - 90 * SECONDS_PER_DAY, now),
{
}

/// A cached verification made 91 days before `now` is a miss, so the
/// verifier is asked; once its answer `current` is stored at `now`, the name
/// is served from the cache.
pub proof fn lemma_stale_entry_refreshed(
    m: Seq<VerifiedModel>,
    i: int,
    now: int,
    current: Seq<char>,
)
    requires
        names_wf(m),
        0 <= i < m.len(),
        m[i].2 == now - 91 * SECONDS_PER_DAY,
        i64::MIN <= now <= i64::MAX,
    ensures
        fresh_name(m, m[i].0, now).is_none(),
        fresh_name(upsert_name(m, m[i].0, current, now as i64), m[i].0, now) == Some(current),
{
    let name = m[i].0;
    assert forall|j: int| 0 <= j < m.len() && (#[trigger] m[j]).0 == name implies !is_fresh(m[j].2 as int, now) by {
        assert(j == i);
    }
    let m2 = upsert_name(m, name, current, now as i64);
    let k = choose|k: int| 0 <= k < m.len() && (#[trigger] m[k]).0 == name;
    assert(k == i);
    assert(m2[i] == (name, current, now as i64));
    assert(is_fresh(m2[i].2 as int, now));
    let w = choose|w: int| 0 <= w < m2.len() && (#[trigger] m2[w]).0 == name && is_fresh(m2[w].2 as int, now);
    assert(w == i);
}

/// A cached verification made 89 days before `now` is a hit: its current
/// name is served with no call to the verifier.
pub proof fn lemma_recent_entry_hit(m: Seq<VerifiedModel>, i: int, now: int)
    requires
        names_wf(m),
        0 <= i < m.len(),
        m[i].2 == now - 89 * SECONDS_PER_DAY,
    ensures
        fresh_name(m, m[i].0, now) == Some(m[i].1),
{
    let name = m[i].0;
    assert(is_fresh(m[i].2 as int, now));
    let w = choose|w: int| 0 <= w < m.len() && (#[trigger] m[w]).0 == name && is_fresh(m[w].2 as int, now);
    assert(w == i);
}

} // verus!
