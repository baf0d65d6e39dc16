//! Storage settings.
use vstd::prelude::*;

verus! {

/// Where OCSF schemas are read from and where the stored data goes.
pub struct StorageConfig {
    /// Directory of the OCSF schema definitions.
    pub schema: String,
    /// Directory that receives the stored data.
    pub path: String,
}

} // verus!
