//! Replicated data of the example player object.

use vstd::prelude::*;

verus! {

/// Player detailed data - equipment and visual state.
#[derive(Clone, Debug)]
pub struct PlayerDetailedData {
    pub equipment: Vec<String>,
}

impl PlayerDetailedData {
    /// Name under which this zone data is replicated.
    pub fn zone_type_name() -> (s: &'static str)
        ensures
            s@ == "PlayerDetailedData"@,
    {
        "PlayerDetailedData"
    }
}

/// Player metadata - player information and progression.
#[derive(Clone, Debug)]
pub struct PlayerMetadataData {
    pub name: String,
    pub level: u32,
}

impl PlayerMetadataData {
    /// Name under which this zone data is replicated.
    pub fn zone_type_name() -> (s: &'static str)
        ensures
            s@ == "PlayerMetadataData"@,
    {
        "PlayerMetadataData"
    }
}

/// Documentation anchor for migrating from string-named zone data to
/// type-named zone data.
pub struct MigrationGuide;

} // verus!
