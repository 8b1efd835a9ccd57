use toolbox::activity::{is_activity_extension, is_activity_file};
use toolbox::classify::Taxon;
use toolbox::critters::{critter_update, CritterUpdate};
use toolbox::errors::PathError;
use toolbox::options::{
    resolve_path, Cli, DeviceSelector, LightroomOptions, MtpOptions, MtpSyncOptions,
};

#[test]
fn activity_files_by_extension() {
    assert!(is_activity_file("2023-04-01-dive.fit"));
    assert!(is_activity_file("RUN.GPX"));
    assert!(is_activity_file("dir/ride.Tcx"));
    assert!(!is_activity_file("notes.txt"));
    assert!(!is_activity_file("fit"));
    assert!(!is_activity_file(".fit"));
    assert!(is_activity_extension("fit"));
    assert!(!is_activity_extension("FIT"));
}

#[test]
fn critter_update_changes() {
    let mut u = CritterUpdate { id: 1, category: None, common_name: None, scientific_name: None };
    assert!(!u.has_changes());
    u.scientific_name = Some("Diadema".to_string());
    assert!(u.has_changes());
    let u = CritterUpdate { id: 2, category: Some(3), common_name: None, scientific_name: None };
    assert!(u.has_changes());
}

#[test]
fn paths_resolve_to_given_or_data_dir() {
    let given = Some("/tmp/log.sqlite".to_string());
    assert_eq!(resolve_path(&given, &None, "x").unwrap(), "/tmp/log.sqlite");
    let data = Some("/home/diver/.local/share".to_string());
    assert_eq!(
        resolve_path(&None, &data, "MacDive/MacDive.sqlite").unwrap(),
        "/home/diver/.local/share/MacDive/MacDive.sqlite"
    );
    assert!(matches!(resolve_path(&None, &None, "x"), Err(PathError::DataDir)));
    let cli = Cli { verbose: 0, database: None, config: None, offline: false };
    assert_eq!(
        cli.macdive_database(&data).unwrap(),
        "/home/diver/.local/share/MacDive/MacDive.sqlite"
    );
    let lr = LightroomOptions { lightroom: None, api_key: None };
    assert_eq!(
        lr.lightroom_metadata(&Some("/data".to_string())).unwrap(),
        "/data/Adobe/Lightroom/Metadata Presets/"
    );
    assert!(matches!(lr.lightroom_metadata(&None), Err(PathError::DataDir)));
}

#[test]
fn activity_dir_is_the_input() {
    let o = MtpSyncOptions { input: "GARMIN/Activity".to_string(), output: ".".to_string(), force: false };
    assert_eq!(o.activity_dir(), "GARMIN/Activity");
}

#[test]
fn device_selector_prefers_serial_then_model_then_manufacturer() {
    let s = |model: Option<&str>, manufacturer: Option<&str>, serial: Option<&str>| {
        DeviceSelector::from(MtpOptions {
            model: model.map(|v| v.to_string()),
            manufacturer: manufacturer.map(|v| v.to_string()),
            serial: serial.map(|v| v.to_string()),
        })
    };
    assert!(matches!(s(Some("m"), Some("a"), Some("s")), DeviceSelector::SerialNumber(v) if v == "s"));
    assert!(matches!(s(Some("m"), Some("a"), None), DeviceSelector::ModelName(v) if v == "m"));
    assert!(matches!(s(None, Some("a"), None), DeviceSelector::ManufacturerName(v) if v == "a"));
    assert!(matches!(s(None, None, None), DeviceSelector::First));
}

#[test]
fn critter_update_proposes_taxon_names() {
    let taxon = Taxon {
        id: 1,
        name: Some("Chromodoris annae".to_string()),
        preferred_common_name: Some(" anna's chromodoris ".to_string()),
        rank: Some("species".to_string()),
        ancestor_ids: None,
    };
    let u = critter_update(7, Some("Anna's Chromodoris"), "chromodoris annae", &taxon);
    assert_eq!(u.id, 7);
    assert_eq!(u.scientific_name, None);
    assert_eq!(u.common_name, None);
    assert!(!u.has_changes());
    let u = critter_update(8, None, "Chromodoris anna", &taxon);
    assert_eq!(u.scientific_name.as_deref(), Some("Chromodoris annae"));
    assert_eq!(u.common_name.as_deref(), Some("Anna's Chromodoris"));
    let u = critter_update(9, Some("Blue Dorid"), "Chromodoris annae", &taxon);
    assert_eq!(u.common_name.as_deref(), Some("Anna's Chromodoris"));
    assert_eq!(u.category, None);
}
