//! A located, parsed application configuration.

use vstd::prelude::*;

use crate::app_spec::AppSpec;

verus! {

/// An application specification together with the path of the file it was
/// read from. Locating and parsing the file is the embedding's work; the
/// decisions taken on the parsed data live here.
#[derive(Debug, Clone)]
pub struct AppConfigFile {
    pub path: String,
    pub config: AppSpec,
}

} // verus!
