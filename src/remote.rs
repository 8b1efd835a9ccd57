//! The decisions around the remote taxonomy service: request batches, the
//! answers it gives, and what a run over many species names collects.
use vstd::prelude::*;

use crate::classify::Taxon;
use crate::errors::TaxonomyError;
use itertools::Itertools;

verus! {

/// The most ids sent in one batched lookup.
pub const TAXON_BATCH_SIZE: usize = 25;

/// The piece of `ids` that forms chunk `k` of size `size`.
pub open spec fn chunk_of(ids: Seq<i32>, size: nat, k: int) -> Seq<i32> {
    let lo = k * size;
    let hi = if (k + 1) * size <= ids.len() { (k + 1) * size } else { ids.len() as int };
    ids.subrange(lo, hi)
}

/// Relies on `itertools::Itertools::chunks`: consecutive chunks of `size`
/// elements, the last one shorter if elements run out; panics on size 0.
#[verifier::external_body]
fn chunk_ids(ids: &Vec<i32>, size: usize) -> (r: Vec<Vec<i32>>)
    requires
        size > 0,
    ensures
        r@.len() * size >= ids@.len(),
        r@.len() * size < ids@.len() + size,
        forall|k: int| 0 <= k < r@.len() ==> (#[trigger] r@[k])@ == chunk_of(ids@, size as nat, k),
{
    ids.iter().copied().chunks(size).into_iter().map(|c| c.collect::<Vec<i32>>()).collect()
}

/// Splits `ids` into the batches sent to the remote service, in order.
pub fn id_batches(ids: &Vec<i32>) -> (r: Vec<Vec<i32>>)
    ensures
        r@.len() * TAXON_BATCH_SIZE >= ids@.len(),
        r@.len() * TAXON_BATCH_SIZE < ids@.len() + TAXON_BATCH_SIZE,
        forall|k: int| 0 <= k < r@.len() ==> (#[trigger] r@[k])@ == chunk_of(ids@, TAXON_BATCH_SIZE as nat, k),
{
    chunk_ids(ids, TAXON_BATCH_SIZE)
}

/// A batched lookup needs at least one id.
pub fn check_id_batch(ids: &Vec<i32>) -> (r: Result<(), TaxonomyError>)
    ensures
        r.is_ok() <==> ids@.len() > 0,
        r.is_err() ==> r.unwrap_err() == TaxonomyError::InvalidArgument,
{
    if ids.len() == 0 {
        Err(TaxonomyError::InvalidArgument)
    } else {
        Ok(())
    }
}

/// The answer to a single lookup: the first taxon of the results, or
/// `NotFound` carrying the query when there is none.
pub fn first_taxon(results: Vec<Taxon>, query: String) -> (r: Result<Taxon, TaxonomyError>)
    ensures
        results@.len() > 0 ==> r == Ok::<Taxon, TaxonomyError>(results@[0]),
        results@.len() == 0 ==> r == Err::<Taxon, TaxonomyError>(TaxonomyError::NotFound(query)),
{
    let mut results = results;
    if results.len() == 0 {
        Err(TaxonomyError::NotFound(query))
    } else {
        Ok(results.swap_remove(0))
    }
}

/// The name listed for a species looked up by `query`: the taxon's own
/// name, else the query.
pub open spec fn listed_name(query: Seq<char>, taxon: Taxon) -> Seq<char> {
    match taxon.name {
        Some(n) => n@,
        None => query,
    }
}

/// Whether `x` is an ancestor id of one of the found taxa.
pub open spec fn found_ancestor(found: Seq<(String, Option<Taxon>)>, x: i32) -> bool {
    exists|i: int| 0 <= i < found.len() && entry_has_ancestor(#[trigger] found[i], x)
}

/// The names listed for the species that were found, in order.
pub open spec fn listed_names(found: Seq<(String, Option<Taxon>)>) -> Seq<Seq<char>>
    decreases found.len(),
{
    if found.len() == 0 {
        Seq::empty()
    } else {
        let rest = listed_names(found.drop_last());
        let (q, t) = found.last();
        match t {
            Some(t) => rest.push(listed_name(q@, t)),
            None => rest,
        }
    }
}

/// Given each queried species name with the taxon found for it (if any), the
/// names to list and the ancestor ids to fetch, each id once.
pub fn summarize_species(found: &Vec<(String, Option<Taxon>)>) -> (r: (Vec<String>, Vec<i32>))
    ensures
        r.0@.len() == listed_names(found@).len(),
        forall|k: int| 0 <= k < r.0@.len() ==> (#[trigger] r.0@[k])@ == listed_names(found@)[k],
        r.1@.no_duplicates(),
        forall|x: i32| r.1@.contains(x) <==> found_ancestor(found@, x),
{
    let mut names: Vec<String> = Vec::new();
    let mut ancestors: Vec<i32> = Vec::new();
    let mut i: usize = 0;
    while i < found.len()
        invariant
            i <= found@.len(),
            names@.len() == listed_names(found@.subrange(0, i as int)).len(),
            forall|k: int| 0 <= k < names@.len() ==> (#[trigger] names@[k])@ == listed_names(found@.subrange(0, i as int))[k],
            ancestors@.no_duplicates(),
            forall|x: i32| #[trigger] ancestors@.contains(x) <==> found_ancestor(found@.subrange(0, i as int), x),
        decreases found@.len() - i,
    {
        let ghost prefix = found@.subrange(0, i as int);
        let ghost next = found@.subrange(0, i + 1);
        proof {
            assert(next.drop_last() =~= prefix);
            assert(next.last() == found@[i as int]);
        }
        let ghost a_before = ancestors@;
        let (query, taxon) = &found[i];
        if let Some(t) = taxon {
            let name = match &t.name {
                Some(n) => n.clone(),
                None => query.clone(),
            };
            names.push(name);
            if let Some(ids) = &t.ancestor_ids {
                add_ids(&mut ancestors, ids);
            }
        }
        proof {
            assert forall|y: i32| #[trigger] ancestors@.contains(y) <==> found_ancestor(next, y) by {
                assert(a_before.contains(y) <==> found_ancestor(prefix, y));
                lemma_found_ancestor_step(found@, i as int, y);
            }
        }
        i = i + 1;
    }
    proof {
        assert(found@.subrange(0, i as int) =~= found@);
    }
    (names, ancestors)
}

/// Whether `x` is an ancestor id of the found taxon of the entry `e`.
pub open spec fn entry_has_ancestor(e: (String, Option<Taxon>), x: i32) -> bool {
    e.1.is_some() && e.1.unwrap().ancestor_ids.is_some() && e.1.unwrap().ancestor_ids.unwrap()@.contains(x)
}

proof fn lemma_found_ancestor_step(found: Seq<(String, Option<Taxon>)>, i: int, y: i32)
    requires
        0 <= i < found.len(),
    ensures
        found_ancestor(found.subrange(0, i + 1), y) <==> (found_ancestor(found.subrange(0, i), y)
            || entry_has_ancestor(found[i], y)),
{
    let prefix = found.subrange(0, i);
    let next = found.subrange(0, i + 1);
    if found_ancestor(next, y) {
        let w = choose|w: int| 0 <= w < next.len() && entry_has_ancestor(#[trigger] next[w], y);
        if w < i {
            assert(entry_has_ancestor(prefix[w], y));
        }
    }
    if found_ancestor(prefix, y) {
        let w = choose|w: int| 0 <= w < prefix.len() && entry_has_ancestor(#[trigger] prefix[w], y);
        assert(entry_has_ancestor(next[w], y));
    }
    if entry_has_ancestor(found[i], y) {
        assert(entry_has_ancestor(next[i], y));
    }
}

/// Whether `x` occurs in `v`.
pub(crate) fn contains_id(v: &Vec<i32>, x: i32) -> (r: bool)
    ensures
        r == v@.contains(x),
{
    let mut k: usize = 0;
    while k < v.len()
        invariant
            k <= v@.len(),
            !v@.subrange(0, k as int).contains(x),
        decreases v@.len() - k,
    {
        if v[k] == x {
            assert(v@[k as int] == x);
            return true;
        }
        proof {
            assert(v@.subrange(0, k + 1) =~= v@.subrange(0, k as int).push(v@[k as int]));
            lemma_push_has(v@.subrange(0, k as int), v@[k as int], x);
        }
        k = k + 1;
    }
    proof {
        assert(v@.subrange(0, k as int) =~= v@);
    }
    false
}

/// Appends the ids of `ids` that `acc` lacks, each once.
fn add_ids(acc: &mut Vec<i32>, ids: &Vec<i32>)
    requires
        old(acc)@.no_duplicates(),
    ensures
        final(acc)@.no_duplicates(),
        forall|x: i32| final(acc)@.contains(x) <==> (old(acc)@.contains(x) || ids@.contains(x)),
{
    let ghost a_in = acc@;
    let mut j: usize = 0;
    while j < ids.len()
        invariant
            j <= ids@.len(),
            acc@.no_duplicates(),
            forall|x: i32| #[trigger] acc@.contains(x) <==> (a_in.contains(x) || ids@.subrange(0, j as int).contains(x)),
        decreases ids@.len() - j,
    {
        let x = ids[j];
        let seen = contains_id(acc, x);
        let ghost a0 = acc@;
        if !seen {
            acc.push(x);
        }
        proof {
            assert(ids@.subrange(0, j + 1) =~= ids@.subrange(0, j as int).push(x));
            assert(seen ==> acc@ == a0);
            assert(!seen ==> acc@ == a0.push(x));
            assert forall|y: i32| #[trigger] acc@.contains(y) <==> (a_in.contains(y) || ids@.subrange(0, j + 1).contains(y)) by {
                lemma_push_has(ids@.subrange(0, j as int), x, y);
                lemma_push_has(a0, x, y);
                assert(a0.contains(y) <==> (a_in.contains(y) || ids@.subrange(0, j as int).contains(y)));
            }
        }
        j = j + 1;
    }
    proof {
        assert(ids@.subrange(0, j as int) =~= ids@);
    }
}

pub(crate) proof fn lemma_push_has(s: Seq<i32>, y: i32, x: i32)
    ensures
        s.push(y).contains(x) <==> (s.contains(x) || x == y),
{
    if s.contains(x) {
        let i = choose|i: int| 0 <= i < s.len() && s[i] == x;
        assert(s.push(y)[i] == x);
    }
    if x == y {
        assert(s.push(y)[s.len() as int] == y);
    }
    if s.push(y).contains(x) {
        let i = choose|i: int| 0 <= i < s.push(y).len() && s.push(y)[i] == x;
        if i < s.len() {
            assert(s[i] == x);
        }
    }
}

} // verus!
