use toolbox::classify::{apply_ancestor, classify_ancestors, Taxon, TaxonCategoryName};
use toolbox::group::{GroupKind, TaxonGroupName};
use toolbox::policy::CritterCategoryConfig;
use toolbox::text::normalize;

fn taxon(id: i32, name: &str, rank: &str, common: Option<&str>) -> Taxon {
    Taxon {
        id,
        name: Some(name.to_string()),
        preferred_common_name: common.map(|c| c.to_string()),
        rank: Some(rank.to_string()),
        ancestor_ids: None,
    }
}

fn chromodoris_chain() -> Vec<Taxon> {
    vec![
        taxon(47115, "Mollusca", "phylum", Some("Molluscs")),
        taxon(47114, "Gastropoda", "class", Some("Sea Snails and Slugs")),
        taxon(551391, "Heterobranchia", "subclass", Some("Sea Slugs")),
        taxon(775798, "Euthyneura", "infraclass", None),
        taxon(47113, "Chromodorididae", "family", Some("Dorid Nudibranchs")),
    ]
}

fn chromodoris_annae(chain: &[Taxon]) -> Taxon {
    Taxon {
        id: 50813,
        name: Some("Chromodoris annae".to_string()),
        preferred_common_name: Some("Anna's Chromodoris".to_string()),
        rank: Some("species".to_string()),
        ancestor_ids: Some(chain.iter().map(|t| t.id).collect()),
    }
}

fn text(s: &str) -> String {
    s.to_string()
}

#[test]
fn display_strips_qualifiers_and_title_cases() {
    assert_eq!(TaxonGroupName::Family(text("True Crabs")).to_string(), "Crabs");
    assert_eq!(TaxonGroupName::Order(text("typical owls")).to_string(), "Owls");
    assert_eq!(TaxonGroupName::Class(text("false corals")).to_string(), "Corals");
    assert_eq!(TaxonGroupName::Superfamily(text("Wrasses and Allies")).to_string(), "Wrasses");
    assert_eq!(TaxonGroupName::Family(text("Sea Stars,")).to_string(), "Sea Stars");
    assert_eq!(TaxonGroupName::Family(text("  sea stars  ")).to_string(), "Sea Stars");
    assert_eq!(TaxonGroupName::Unspecified.to_string(), "Unknown");
}

#[test]
fn display_is_stable_on_normalized_text() {
    for name in ["Dorid Nudibranchs", "True Crabs", "sea slugs", "Wrasses and Allies"] {
        let once = normalize(name);
        assert_eq!(normalize(&once), once);
    }
}

#[test]
fn equality_ignores_case_within_a_variant() {
    assert_eq!(TaxonGroupName::Class(text("Sea Slugs")), TaxonGroupName::Class(text("sea slugs")));
    assert_ne!(TaxonGroupName::Class(text("Sea Slugs")), TaxonGroupName::Subclass(text("Sea Slugs")));
    assert_ne!(TaxonGroupName::Class(text("Sea Slugs")), TaxonGroupName::Class(text("Sea Snails")));
    assert_eq!(TaxonGroupName::Unspecified, TaxonGroupName::Unspecified);
}

#[test]
fn ordering_follows_variants_then_text() {
    assert!(TaxonGroupName::Unspecified < TaxonGroupName::Custom(text("a")));
    assert!(TaxonGroupName::Custom(text("z")) < TaxonGroupName::Phylum(text("a")));
    assert!(TaxonGroupName::Family(text("a")) < TaxonGroupName::Family(text("b")));
    assert!(TaxonGroupName::Family(text("z")) < TaxonGroupName::Genus(text("a")));
}

#[test]
fn kind_text_and_new_agree() {
    let g = TaxonGroupName::new(GroupKind::Subfamily, text("Dorids"));
    assert_eq!(g.kind(), GroupKind::Subfamily);
    assert_eq!(g.text(), "Dorids");
    assert_eq!(TaxonGroupName::new(GroupKind::Unspecified, text("x")), TaxonGroupName::Unspecified);
}

#[test]
fn no_ancestry_is_unspecified() {
    let chain = chromodoris_chain();
    let mut t = chromodoris_annae(&chain);
    t.ancestor_ids = None;
    let policy = CritterCategoryConfig::new();
    assert_eq!(t.group_name(&chain, &policy), TaxonGroupName::Unspecified);
    assert_eq!(classify_ancestors(&vec![], &policy), TaxonGroupName::Unspecified);
}

#[test]
fn chromodoris_annae_is_a_dorid_nudibranch() {
    let chain = chromodoris_chain();
    let t = chromodoris_annae(&chain);
    let policy = CritterCategoryConfig::new();
    let g = t.group_name(&chain, &policy);
    assert_eq!(g, TaxonGroupName::Family(text("Dorid Nudibranchs")));
    assert_eq!(g.to_string(), "Dorid Nudibranchs");
}

#[test]
fn preferred_subclass_skips_the_family() {
    let chain = chromodoris_chain();
    let t = chromodoris_annae(&chain);
    let mut policy = CritterCategoryConfig::new();
    policy
        .preferred_higher_ranks
        .push((text("family"), vec![TaxonGroupName::Subclass(text("Sea Slugs"))]));
    assert_eq!(t.group_name(&chain, &policy), TaxonGroupName::Subclass(text("Sea Slugs")));
}

#[test]
fn species_rank_applies_the_rename() {
    let mut chain = chromodoris_chain();
    chain.push(taxon(50813, "Chromodoris annae", "species", Some("Anna's Chromodoris")));
    let t = chromodoris_annae(&chain);
    let mut policy = CritterCategoryConfig::new();
    policy.group_names.push((text("Dorid Nudibranchs"), text("Nudibranchs")));
    let g = t.group_name(&chain, &policy);
    assert_eq!(g, TaxonGroupName::Custom(text("Nudibranchs")));
    assert_eq!(g.kind(), GroupKind::Custom);
}

#[test]
fn species_rank_without_rename_keeps_the_group() {
    let mut chain = chromodoris_chain();
    chain.push(taxon(50813, "Chromodoris annae", "species", None));
    let policy = CritterCategoryConfig::new();
    assert_eq!(classify_ancestors(&chain, &policy), TaxonGroupName::Family(text("Dorid Nudibranchs")));
}

#[test]
fn subclass_needs_a_phylum_or_class_before_it() {
    let policy = CritterCategoryConfig::new();
    let sub = taxon(1, "Heterobranchia", "subclass", Some("Sea Slugs"));
    let after_order = apply_ancestor(TaxonGroupName::Order(text("Nudibranchs")), &sub, &policy);
    assert_eq!(after_order, TaxonGroupName::Order(text("Nudibranchs")));
    let after_unspecified = apply_ancestor(TaxonGroupName::Unspecified, &sub, &policy);
    assert_eq!(after_unspecified, TaxonGroupName::Unspecified);
    let after_phylum = apply_ancestor(TaxonGroupName::Phylum(text("Molluscs")), &sub, &policy);
    assert_eq!(after_phylum, TaxonGroupName::Subclass(text("Sea Slugs")));
}

#[test]
fn asymmetric_guards_are_kept() {
    let policy = CritterCategoryConfig::new();
    let infraorder = taxon(2, "Achelata", "infraorder", Some("Spiny and Slipper Lobsters"));
    let kept = apply_ancestor(TaxonGroupName::Infraclass(text("X")), &infraorder, &policy);
    assert_eq!(kept, TaxonGroupName::Infraclass(text("X")));
    let order = taxon(3, "Decapoda", "order", Some("Decapods"));
    let taken = apply_ancestor(TaxonGroupName::Infraclass(text("X")), &order, &policy);
    assert_eq!(taken, TaxonGroupName::Order(text("Decapods")));
}

#[test]
fn preferred_class_group_survives_a_subclass() {
    let mut policy = CritterCategoryConfig::new();
    policy.preferred_higher_ranks.push((
        text("subclass"),
        vec![TaxonGroupName::Class(text("Sea Anemones and Corals"))],
    ));
    let g = TaxonGroupName::Class(text("Sea Anemones and Corals"));
    let sub = taxon(4, "Hexacorallia", "subclass", Some("Hexacorals"));
    assert_eq!(apply_ancestor(g, &sub, &policy), TaxonGroupName::Class(text("Sea Anemones and Corals")));
    assert!(TaxonGroupName::Class(text("sea anemones and corals"))
        .prefer_higher_common_name("subclass", &policy));
    assert!(!TaxonGroupName::Class(text("Sea Anemones and Corals"))
        .prefer_higher_common_name("family", &policy));
}

#[test]
fn ancestor_without_common_name_changes_nothing() {
    let policy = CritterCategoryConfig::new();
    let fam = taxon(5, "Chromodorididae", "family", None);
    let g = apply_ancestor(TaxonGroupName::Order(text("Nudibranchs")), &fam, &policy);
    assert_eq!(g, TaxonGroupName::Order(text("Nudibranchs")));
    let unknown_rank = taxon(6, "X", "tribe", Some("Tribe"));
    let g = apply_ancestor(TaxonGroupName::Order(text("Nudibranchs")), &unknown_rank, &policy);
    assert_eq!(g, TaxonGroupName::Order(text("Nudibranchs")));
}

#[test]
fn ignored_class_names_are_skipped() {
    let mut policy = CritterCategoryConfig::new();
    policy
        .ignored_common_names
        .push((text("class"), vec![text("Ray-finned Fishes")]));
    let cls = taxon(7, "Actinopterygii", "class", Some("Ray-finned Fishes"));
    let g = apply_ancestor(TaxonGroupName::Phylum(text("Chordates")), &cls, &policy);
    assert_eq!(g, TaxonGroupName::Phylum(text("Chordates")));
    assert!(g.ignore_common_name("class", "Ray-finned Fishes", &policy));
    assert!(!g.ignore_common_name("class", "Sharks", &policy));
}

#[test]
fn rename_lookup_takes_the_first_entry_of_a_key() {
    let mut policy = CritterCategoryConfig::new();
    policy.group_names.push((text("Crabs"), text("Crustaceans")));
    policy.group_names.push((text("Crabs"), text("Other")));
    assert_eq!(policy.group_name_for("Crabs").map(|s| s.as_str()), Some("Crustaceans"));
    assert_eq!(policy.group_name_for("Shrimps"), None);
    assert!(!policy.has_unique_keys());
    assert!(CritterCategoryConfig::new().has_unique_keys());
}
