use toolbox::cache::{CacheKey, TaxonCache};
use toolbox::classify::Taxon;
use toolbox::errors::TaxonomyError;
use toolbox::names::{
    NameCache, VerificationResponse, VerificationResultData, VerifiedNameData, SECONDS_PER_DAY,
};
use toolbox::remote::{check_id_batch, first_taxon, id_batches, summarize_species};

fn taxon(id: i32, name: Option<&str>, ancestors: Option<Vec<i32>>) -> Taxon {
    Taxon {
        id,
        name: name.map(|n| n.to_string()),
        preferred_common_name: None,
        rank: Some("species".to_string()),
        ancestor_ids: ancestors,
    }
}

const NOW: i64 = 1_700_000_000;

#[test]
fn fetched_by_name_is_then_served_from_cache() {
    let mut cache = TaxonCache::new();
    let key = CacheKey::Name("chromodoris annae ".to_string());
    assert!(matches!(cache.lookup(&key, false), Ok(None)));
    let fetched = Ok(taxon(50813, Some("Chromodoris annae"), Some(vec![1, 2])));
    let got = cache.complete_fetch(&key, fetched, NOW).unwrap();
    assert_eq!(got.id, 50813);
    match cache.lookup(&key, false) {
        Ok(Some(t)) => assert_eq!(t.name.as_deref(), Some("Chromodoris annae")),
        _ => panic!("expected a hit"),
    }
    assert!(matches!(cache.lookup(&key, true), Ok(Some(_))));
    assert!(matches!(cache.lookup(&CacheKey::Id(50813), true), Ok(Some(_))));
    assert_eq!(cache.entries()[0].matched_name, "chromodoris annae ");
    assert_eq!(cache.entries()[0].downloaded_at, NOW);
}

#[test]
fn fetched_by_id_is_stored_under_its_own_name() {
    let mut cache = TaxonCache::new();
    let key = CacheKey::Id(47113);
    assert!(matches!(cache.lookup(&key, false), Ok(None)));
    cache.complete_fetch(&key, Ok(taxon(47113, Some("Chromodorididae"), None)), NOW).unwrap();
    assert!(matches!(cache.lookup(&key, false), Ok(Some(_))));
    assert!(matches!(cache.lookup(&CacheKey::Name("Chromodorididae".to_string()), true), Ok(Some(_))));
}

#[test]
fn offline_with_empty_cache_fails() {
    let cache = TaxonCache::new();
    assert!(matches!(cache.lookup(&CacheKey::Id(1), true), Err(TaxonomyError::OfflineMode)));
    assert!(matches!(
        cache.lookup(&CacheKey::Name("Diadema".to_string()), true),
        Err(TaxonomyError::OfflineMode)
    ));
}

#[test]
fn failed_fetch_passes_through_and_caches_nothing() {
    let mut cache = TaxonCache::new();
    let key = CacheKey::Id(9);
    let r = cache.complete_fetch(&key, Err(TaxonomyError::NetworkError("down".to_string())), NOW);
    assert!(matches!(r, Err(TaxonomyError::NetworkError(_))));
    assert!(cache.entries().is_empty());
    let r = cache.complete_fetch(&key, Err(TaxonomyError::DecodeError("bad".to_string())), NOW);
    assert!(matches!(r, Err(TaxonomyError::DecodeError(_))));
}

#[test]
fn upsert_replaces_the_entry_of_an_id() {
    let mut cache = TaxonCache::new();
    cache.store(taxon(1, Some("A"), None), None, NOW).unwrap();
    cache.store(taxon(1, Some("A"), Some(vec![7])), Some("a query".to_string()), NOW + 5).unwrap();
    assert_eq!(cache.entries().len(), 1);
    assert_eq!(cache.entries()[0].matched_name, "a query");
    assert_eq!(cache.entries()[0].downloaded_at, NOW + 5);
    assert_eq!(cache.entries()[0].taxon.ancestor_ids, Some(vec![7]));
}

#[test]
fn name_held_by_another_taxon_is_a_cache_error() {
    let mut cache = TaxonCache::new();
    cache.store(taxon(1, Some("A"), None), None, NOW).unwrap();
    let r = cache.store(taxon(2, Some("B"), None), Some("A".to_string()), NOW);
    assert!(matches!(r, Err(TaxonomyError::CacheError(_))));
    assert_eq!(cache.entries().len(), 1);
    let r = cache.store(taxon(3, None, None), None, NOW);
    assert!(matches!(r, Err(TaxonomyError::CacheError(_))));
}

#[test]
fn batch_lookup_plans_missing_ids_and_reads_back() {
    let mut cache = TaxonCache::new();
    cache.store(taxon(1, Some("A"), None), None, NOW).unwrap();
    let wanted = vec![1, 2, 3, 2];
    let mut missing = cache.missing_ids(&wanted);
    missing.sort();
    assert_eq!(missing, vec![2, 3]);
    cache
        .store_batch(vec![taxon(2, Some("B"), None), taxon(3, Some("C"), None)], NOW)
        .unwrap();
    assert!(cache.missing_ids(&wanted).is_empty());
    let mut ids: Vec<i32> = cache.cached_taxa(&wanted).iter().map(|t| t.id).collect();
    ids.sort();
    assert_eq!(ids, vec![1, 2, 3]);
    assert_eq!(cache.cached_taxa(&vec![3]).len(), 1);
}

#[test]
fn offline_batch_with_missing_ids_fails() {
    let mut cache = TaxonCache::new();
    assert!(matches!(cache.batch_step(&vec![1, 2], true), Err(TaxonomyError::OfflineMode)));
    assert!(cache.entries().is_empty());
    assert!(cache.batch_step(&vec![], true).unwrap().is_empty());
    cache.store(taxon(1, Some("A"), None), None, NOW).unwrap();
    assert!(cache.batch_step(&vec![1], true).unwrap().is_empty());
    assert!(matches!(cache.batch_step(&vec![1, 2], true), Err(TaxonomyError::OfflineMode)));
    assert_eq!(cache.batch_step(&vec![1, 2, 2], false).unwrap(), vec![2]);
}

#[test]
fn batch_store_stops_at_a_taxon_without_name() {
    let mut cache = TaxonCache::new();
    let r = cache.store_batch(vec![taxon(2, Some("B"), None), taxon(3, None, None)], NOW);
    assert!(matches!(r, Err(TaxonomyError::CacheError(_))));
    assert_eq!(cache.entries().len(), 1);
}

#[test]
fn ids_are_sent_in_batches_of_twenty_five() {
    let ids: Vec<i32> = (0..60).collect();
    let batches = id_batches(&ids);
    assert_eq!(batches.len(), 3);
    assert_eq!(batches[0], (0..25).collect::<Vec<i32>>());
    assert_eq!(batches[1], (25..50).collect::<Vec<i32>>());
    assert_eq!(batches[2], (50..60).collect::<Vec<i32>>());
    assert!(id_batches(&vec![]).is_empty());
}

#[test]
fn empty_id_batch_is_invalid() {
    assert!(matches!(check_id_batch(&vec![]), Err(TaxonomyError::InvalidArgument)));
    assert!(check_id_batch(&vec![4]).is_ok());
}

#[test]
fn first_result_or_not_found() {
    let r = first_taxon(vec![taxon(5, Some("E"), None), taxon(6, Some("F"), None)], "e".to_string());
    assert_eq!(r.unwrap().id, 5);
    match first_taxon(vec![], "Nothing here".to_string()) {
        Err(TaxonomyError::NotFound(q)) => assert_eq!(q, "Nothing here"),
        _ => panic!("expected NotFound"),
    }
}

#[test]
fn species_summary_lists_names_and_unique_ancestors() {
    let found = vec![
        ("chromodoris annae".to_string(), Some(taxon(1, Some("Chromodoris annae"), Some(vec![10, 11])))),
        ("unknown thing".to_string(), None),
        ("diadema".to_string(), Some(taxon(2, None, Some(vec![11, 12])))),
    ];
    let (names, mut ancestors) = summarize_species(&found);
    assert_eq!(names, vec!["Chromodoris annae".to_string(), "diadema".to_string()]);
    ancestors.sort();
    assert_eq!(ancestors, vec![10, 11, 12]);
}

fn response(names: Vec<Vec<&str>>) -> VerificationResponse {
    VerificationResponse {
        names: names
            .into_iter()
            .map(|results| VerifiedNameData {
                name: "q".to_string(),
                results: results
                    .into_iter()
                    .map(|c| VerificationResultData {
                        matched_name: c.to_string(),
                        current_name: c.to_string(),
                        current_canonical_simple: c.to_string(),
                    })
                    .collect(),
            })
            .collect(),
    }
}

#[test]
fn verification_freshness_window() {
    let mut cache = NameCache::new();
    cache.store("Eunice australis".to_string(), "Eunice australis".to_string(), NOW - 91 * SECONDS_PER_DAY);
    assert_eq!(cache.lookup("Eunice australis", NOW), None);
    cache.store("Eunice australis".to_string(), "Eunice aphroditois".to_string(), NOW - 89 * SECONDS_PER_DAY);
    assert_eq!(cache.lookup("Eunice australis", NOW).as_deref(), Some("Eunice aphroditois"));
    assert_eq!(cache.entries().len(), 1);
    cache.store("X".to_string(), "Y".to_string(), NOW - 90 * SECONDS_PER_DAY);
    assert_eq!(cache.lookup("X", NOW).as_deref(), Some("Y"));
    assert_eq!(cache.lookup("Z", NOW), None);
}

#[test]
fn verification_outcomes() {
    let mut cache = NameCache::new();
    let r = cache.complete_verification("Nothing", &response(vec![]), NOW);
    assert_eq!(r.unwrap(), "Nothing");
    assert!(cache.entries().is_empty());
    match cache.complete_verification("Broken", &response(vec![vec![]]), NOW) {
        Err(TaxonomyError::InconsistentUpstreamResponse(n)) => assert_eq!(n, "Broken"),
        _ => panic!("expected an inconsistent response"),
    }
    assert!(cache.entries().is_empty());
    let r = cache.complete_verification("Comaster schlegeli", &response(vec![vec!["Comaster schlegelii", "Other"]]), NOW);
    assert_eq!(r.unwrap(), "Comaster schlegelii");
    assert_eq!(cache.lookup("Comaster schlegeli", NOW).as_deref(), Some("Comaster schlegelii"));
}
