//! Command options as the library reads them, and the paths they lead to.
use vstd::prelude::*;

use crate::errors::PathError;

verus! {

/// Where the dive log database lies within the user's data directory.
pub const MACDIVE_DATA: &'static str = "MacDive/MacDive.sqlite";

/// Where the metadata presets lie within the user's data directory.
pub const LIGHTROOM_DATA: &'static str = "Adobe/Lightroom/Metadata Presets/";

/// Where a device keeps its activity files.
pub const ACTIVITY_DIR: &'static str = "GARMIN/Activity";

/// What `Path::join` gives for a base path and a relative one.
pub uninterp spec fn joined_of(base: Seq<char>, rel: Seq<char>) -> Seq<char>;

/// Relies on `std::path::Path::join`: the path `rel` adjoined to `base`,
/// which depends on the two texts alone.
#[verifier::external_body]
fn join_path(base: &str, rel: &str) -> (r: String)
    ensures
        r@ == joined_of(base@, rel@),
{
    std::path::Path::new(base).join(rel).to_string_lossy().into_owned()
}

/// The path that an option resolves to: the given one, else `data_directory`
/// within the user's data directory.
pub open spec fn resolved_path(
    given: Option<String>,
    data_dir: Option<String>,
    data_directory: Seq<char>,
) -> Option<Seq<char>> {
    match given {
        Some(p) => Some(p@),
        None => match data_dir {
            Some(d) => Some(joined_of(d@, data_directory)),
            None => None,
        },
    }
}

/// Resolves an optional path: the given one (already canonical), else
/// `data_directory` within the user's data directory, else `DataDir`.
pub fn resolve_path(given: &Option<String>, data_dir: &Option<String>, data_directory: &str) -> (r:
    Result<String, PathError>)
    ensures
        match resolved_path(*given, *data_dir, data_directory@) {
            Some(p) => r.is_ok() && r.unwrap()@ == p,
            None => r.is_err() && r.unwrap_err() is DataDir,
        },
{
    match given {
        Some(p) => Ok(p.clone()),
        None => match data_dir {
            Some(d) => Ok(join_path(d.as_str(), data_directory)),
            None => Err(PathError::DataDir),
        },
    }
}

/// The global options: verbosity, the database and configuration paths
/// (canonical when given), and whether to stay offline.
pub struct Cli {
    pub verbose: u8,
    pub database: Option<String>,
    pub config: Option<String>,
    pub offline: bool,
}

impl Cli {
    /// The dive log database: the given path, else its place in the user's
    /// data directory `data_dir`.
    pub fn macdive_database(&self, data_dir: &Option<String>) -> (r: Result<String, PathError>)
        ensures
            match resolved_path(self.database, *data_dir, MACDIVE_DATA@) {
                Some(p) => r.is_ok() && r.unwrap()@ == p,
                None => r.is_err() && r.unwrap_err() is DataDir,
            },
    {
        resolve_path(&self.database, data_dir, MACDIVE_DATA)
    }
}

/// The options of the metadata preset export.
pub struct LightroomOptions {
    /// The presets directory (canonical when given).
    pub lightroom: Option<String>,
    pub api_key: Option<String>,
}

impl LightroomOptions {
    /// The presets directory: the given path, else its place in the user's
    /// data directory `data_dir`.
    pub fn lightroom_metadata(&self, data_dir: &Option<String>) -> (r: Result<String, PathError>)
        ensures
            match resolved_path(self.lightroom, *data_dir, LIGHTROOM_DATA@) {
                Some(p) => r.is_ok() && r.unwrap()@ == p,
                None => r.is_err() && r.unwrap_err() is DataDir,
            },
    {
        resolve_path(&self.lightroom, data_dir, LIGHTROOM_DATA)
    }
}

/// The options of an activity sync.
pub struct MtpSyncOptions {
    /// The activity directory on the device.
    pub input: String,
    /// Where downloaded activities are written.
    pub output: String,
    /// Overwrite existing files.
    pub force: bool,
}

impl MtpSyncOptions {
    /// The activity directory on the device.
    pub fn activity_dir(&self) -> (r: String)
        ensures
            r@ == self.input@,
    {
        self.input.clone()
    }
}

/// The device selection options; at most one is meant to be given.
pub struct MtpOptions {
    pub model: Option<String>,
    pub manufacturer: Option<String>,
    pub serial: Option<String>,
}

/// How a device is picked among those attached.
#[derive(Debug)]
pub enum DeviceSelector {
    First,
    ManufacturerName(String),
    ModelName(String),
    SerialNumber(String),
}

/// The selector for the options: by serial number, else model, else
/// manufacturer, else the first device.
pub open spec fn selector_of(params: MtpOptions) -> DeviceSelector {
    match params.serial {
        Some(s) => DeviceSelector::SerialNumber(s),
        None => match params.model {
            Some(m) => DeviceSelector::ModelName(m),
            None => match params.manufacturer {
                Some(m) => DeviceSelector::ManufacturerName(m),
                None => DeviceSelector::First,
            },
        },
    }
}

impl From<MtpOptions> for DeviceSelector {
    fn from(params: MtpOptions) -> (r: DeviceSelector) {
        if let Some(serial) = params.serial {
            DeviceSelector::SerialNumber(serial)
        } else if let Some(model) = params.model {
            DeviceSelector::ModelName(model)
        } else if let Some(manufacturer) = params.manufacturer {
            DeviceSelector::ManufacturerName(manufacturer)
        } else {
            DeviceSelector::First
        }
    }
}

impl vstd::std_specs::convert::FromSpecImpl<MtpOptions> for DeviceSelector {
    open spec fn obeys_from_spec() -> bool {
        true
    }

    open spec fn from_spec(params: MtpOptions) -> DeviceSelector {
        selector_of(params)
    }
}

} // verus!
