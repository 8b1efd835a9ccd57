//! Recognising activity files by their extension.
use vstd::prelude::*;

use crate::text::{lower_of, lowercase, text_eq};

verus! {

/// What `Path::extension` gives for a path: the part of its file name after
/// the last dot, if there is one.
pub uninterp spec fn extension_of(path: Seq<char>) -> Option<Seq<char>>;

/// Relies on `std::path::Path::extension`: the extension of the path's file
/// name, which depends on the text alone.
#[verifier::external_body]
fn path_extension(path: &str) -> (r: Option<String>)
    ensures
        match r {
            Some(e) => extension_of(path@) == Some(e@),
            None => extension_of(path@).is_none(),
        },
{
    std::path::Path::new(path).extension().and_then(|e| e.to_str()).map(|e| e.to_owned())
}

/// Whether a lowercase extension is one of an activity file.
pub open spec fn activity_extension(ext: Seq<char>) -> bool {
    ext == "fit"@ || ext == "gpx"@ || ext == "tcx"@
}

/// Whether a lowercase extension is one of an activity file: fit, gpx or tcx.
pub fn is_activity_extension(ext: &str) -> (r: bool)
    ensures
        r == activity_extension(ext@),
{
    text_eq(ext, "fit") || text_eq(ext, "gpx") || text_eq(ext, "tcx")
}

/// Whether a file is an activity file, by the extension of its lowercased name.
pub fn is_activity_file(file: &str) -> (r: bool)
    ensures
        r == match extension_of(lower_of(file@)) {
            Some(e) => activity_extension(e),
            None => false,
        },
{
    let lowered = lowercase(file);
    match path_extension(lowered.as_str()) {
        Some(ext) => is_activity_extension(ext.as_str()),
        None => false,
    }
}

} // verus!
