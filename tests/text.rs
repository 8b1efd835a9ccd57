use toolbox::classify::Taxon;
use toolbox::group::TaxonGroupName;
use toolbox::text::{contains_char, normalize, strip_suffixes, text_eq, trim};

#[test]
fn text_helpers() {
    assert!(text_eq("Sea Slugs", "Sea Slugs"));
    assert!(!text_eq("Sea Slugs", "sea slugs"));
    assert!(contains_char("Chromodoris", 'm'));
    assert!(!contains_char("Chromodoris", 'z'));
    assert_eq!(trim("\t Dorids \n"), "Dorids");
    assert_eq!(trim("   "), "");
    assert_eq!(strip_suffixes("10.500000", "0"), "10.5");
    assert_eq!(strip_suffixes("000", "0"), "");
}

#[test]
fn normalize_keeps_inner_qualifier_words() {
    assert_eq!(normalize("Sea Anemones and Corals"), "Sea Anemones and Corals");
    assert_eq!(normalize("Cowries, Trivia, and Allies"), "Cowries, Trivia");
    assert_eq!(normalize("TRUE CRABS"), "Crabs");
    assert_eq!(normalize(""), "");
}

#[test]
fn copies_keep_every_field() {
    let g = TaxonGroupName::Genus("Chromodoris".to_string());
    assert_eq!(g.duplicate(), g);
    assert_eq!(TaxonGroupName::Unspecified.duplicate(), TaxonGroupName::Unspecified);
    let t = Taxon {
        id: 3,
        name: Some("Doris".to_string()),
        preferred_common_name: None,
        rank: Some("genus".to_string()),
        ancestor_ids: Some(vec![1, 2]),
    };
    let c = t.duplicate();
    assert_eq!(c.id, 3);
    assert_eq!(c.name.as_deref(), Some("Doris"));
    assert_eq!(c.rank.as_deref(), Some("genus"));
    assert_eq!(c.ancestor_ids, Some(vec![1, 2]));
}

#[test]
fn overlong_words_are_not_title_cased() {
    let long = "a".repeat(100_001);
    assert_eq!(normalize(&long), long);
    let limit = "a".repeat(100_000);
    let shown = normalize(&limit);
    assert!(shown.starts_with('A'));
    assert_eq!(shown.len(), 100_000);
}

#[test]
fn trim_removes_unicode_white_space() {
    assert_eq!(trim("\u{a0}\u{3000}Sea Stars\u{2028}\u{85}"), "Sea Stars");
    assert_eq!(trim("\u{200b}x"), "\u{200b}x");
}
