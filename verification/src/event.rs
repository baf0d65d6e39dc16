//! Events flowing through StrIEM.
use vstd::prelude::*;

use crate::json::JsonValue;

verus! {

/// An event: its identifier, its data and its metadata (a map from names to
/// JSON values, held as an association list).
pub struct Event {
    pub id: String,
    pub data: JsonValue,
    pub metadata: Vec<(String, JsonValue)>,
}

} // verus!
