//! Places in the panel that lists buckets and filters.

use vstd::prelude::*;

verus! {

/// What a place in the panel stands for.
#[derive(PartialEq, Eq, PartialOrd, Ord, Debug, Copy, Clone, Structural)]
pub enum BucketPanelLocationType {
    All,
    Reset,
    Filter,
    Adapter,
    Entry,
}

/// A place in the panel: what it stands for, its adapter and its section.
#[derive(PartialEq, Eq, PartialOrd, Ord, Debug)]
pub struct BucketPanelLocation {
    pub entry_type: BucketPanelLocationType,
    pub adapter: String,
    pub section: String,
}

} // verus!
