use toolbox::species::{sanitize_species_name, sp_range};

fn normalize_sp_range(input: &str) -> String {
    sp_range(input).unwrap()
}

fn sanitize_name(input: &str) -> String {
    sanitize_species_name(input).unwrap()
}

#[test]
fn test_sp_range() {
    assert_eq!("sp.1-sp.2", normalize_sp_range("sp.1-sp.2"));
    assert_eq!("sp.1-sp.5", normalize_sp_range("sp.1 - sp.5"));
    assert_eq!("sp.1-sp.5", normalize_sp_range("sp.1-sp.5"));
    assert_eq!("sp.1-sp.4", normalize_sp_range("sp.1 - sp. 4"));
    assert_eq!("sp.1-sp.4", normalize_sp_range("sp.1 -sp.4"));
    assert_eq!("sp.1-sp.4", normalize_sp_range("sp. 1- sp. 4"));
    assert_eq!("sp.1-sp.4", normalize_sp_range("sp. 1-sp. 4"));
    assert_eq!("sp.1-sp.4", normalize_sp_range("sp.1- sp.4"));
}

#[test]
fn test_sanitize_name() {
    assert_eq!("Comaster schlegelii", sanitize_name("Comaster schlegelii"));
    assert_eq!("Diadema", sanitize_name("Diadema sp.1 - sp.4"));
    assert_eq!("Eunice australis", sanitize_name("Eunice cf. australis"));
    assert_eq!("Phrikoceros", sanitize_name("Phrikoceros sp.1-sp.2"));
    assert_eq!(
        "Hamodactylus noumeae",
        sanitize_name("Hamodactylus cf. noumeae 1 - 4")
    );
}

#[test]
fn sp_range_single_terms() {
    assert_eq!(sp_range("spp.").as_deref(), Some("spp."));
    assert_eq!(sp_range("sp. 3 rest").as_deref(), Some("sp.3"));
    assert_eq!(sp_range("Diadema"), None);
}

#[test]
fn sanitize_rejects_what_is_not_a_name() {
    assert!(sanitize_species_name("Diadema sp.1 x").is_err());
    assert!(sanitize_species_name("Comaster (x)").is_err());
    assert_eq!(sanitize_name("  Chromodoris   annae  "), "Chromodoris annae");
    assert_eq!(sanitize_name(""), "");
    assert_eq!(sanitize_name("Diadema spp."), "Diadema");
    let err = sanitize_species_name("Bad-name").unwrap_err();
    assert_eq!(err.input, "Bad-name");
}
