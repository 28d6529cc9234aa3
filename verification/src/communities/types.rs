//! The records that the communities pallet keeps.

use vstd::prelude::*;

verus! {

/// An account; account ids are ordered as integers.
pub type AccountId = u64;

/// The id of a community.
pub type CommunityId = u16;

/// The id of an asset.
pub type AssetId = u32;

/// A location cell.
pub type Cell = u32;

/// A community: its admin, state and the asset it holds as sufficient.
pub struct Community {
    pub admin: AccountId,
    pub state: CommunityState,
    pub sufficient_asset_id: Option<AssetId>,
}

/// The state of a community; a new one is awaiting.
#[derive(Debug, PartialEq, Eq, Structural, Clone, Copy)]
pub enum CommunityState {
    Awaiting,
    Active,
    Frozen,
    Blocked,
}

impl Default for CommunityState {
    fn default() -> (r: Self)
        ensures
            r == CommunityState::Awaiting,
    {
        CommunityState::Awaiting
    }
}

/// The stored info of a community.
#[derive(Debug, PartialEq, Eq, Structural, Clone, Copy)]
pub struct CommunityInfo {
    pub state: CommunityState,
}

/// The descriptive metadata of a community: a name of at most 64 bytes, a
/// description of at most 256 bytes, its urls and its location cells.
pub struct CommunityMetadata {
    pub name: Vec<u8>,
    pub description: Vec<u8>,
    pub urls: Vec<Vec<u8>>,
    pub locations: Vec<Cell>,
}

/// The limits that the runtime sets on community metadata: the length of a
/// url, the number of urls and the number of locations.
#[derive(Debug, PartialEq, Eq, Structural, Clone, Copy)]
pub struct MetadataLimits {
    pub metadata_url_size: u32,
    pub max_urls: u32,
    pub max_locations: u32,
}

/// The longest community name, in bytes.
pub const MAX_NAME_LENGTH: usize = 64;

/// The longest community description, in bytes.
pub const MAX_DESCRIPTION_LENGTH: usize = 256;

impl CommunityMetadata {
    /// The metadata keeps to its bounds: the name and description to their
    /// fixed lengths, the urls and locations to the runtime's limits.
    pub open spec fn bounded(&self, limits: MetadataLimits) -> bool {
        &&& self.name@.len() <= MAX_NAME_LENGTH
        &&& self.description@.len() <= MAX_DESCRIPTION_LENGTH
        &&& self.urls@.len() <= limits.max_urls
        &&& forall|i: int| 0 <= i < self.urls@.len() ==> #[trigger] self.urls@[i]@.len()
            <= limits.metadata_url_size
        &&& self.locations@.len() <= limits.max_locations
    }

    /// Metadata keeps to its bounds exactly when its name and description
    /// keep to their lengths, it has no more urls and locations than the
    /// limits allow, and every url in it, whichever its place, is at most
    /// the url size long.
    pub proof fn lemma_bounded_metadata(&self, limits: MetadataLimits)
        ensures
            self.bounded(limits) == {
                &&& self.name@.len() <= MAX_NAME_LENGTH
                &&& self.description@.len() <= MAX_DESCRIPTION_LENGTH
                &&& self.urls@.len() <= limits.max_urls
                &&& self.locations@.len() <= limits.max_locations
                &&& forall|u: Vec<u8>| #[trigger]
                    self.urls@.contains(u) ==> u@.len() <= limits.metadata_url_size
            },
    {
        if self.bounded(limits) {
            assert forall|u: Vec<u8>| #[trigger]
                self.urls@.contains(u) implies u@.len() <= limits.metadata_url_size by {
                let i = choose|i: int| 0 <= i < self.urls@.len() && self.urls@[i] == u;
                assert(self.urls@[i]@.len() <= limits.metadata_url_size);
            }
        }
        if forall|u: Vec<u8>| #[trigger]
            self.urls@.contains(u) ==> u@.len() <= limits.metadata_url_size {
            assert forall|i: int| 0 <= i < self.urls@.len() implies #[trigger] self.urls@[i]@.len()
                <= limits.metadata_url_size by {
                assert(self.urls@.contains(self.urls@[i]));
            }
        }
    }

    /// Whether the metadata keeps to its bounds.
    pub fn is_bounded(&self, limits: MetadataLimits) -> (r: bool)
        ensures
            r == self.bounded(limits),
            r ==> forall|u: Vec<u8>| #[trigger]
                self.urls@.contains(u) ==> u@.len() <= limits.metadata_url_size,
            (exists|u: Vec<u8>| #[trigger]
                self.urls@.contains(u) && u@.len() > limits.metadata_url_size) ==> !r,
    {
        proof {
            self.lemma_bounded_metadata(limits);
        }
        if self.name.len() > MAX_NAME_LENGTH || self.description.len() > MAX_DESCRIPTION_LENGTH
            || self.urls.len() > limits.max_urls as usize || self.locations.len()
            > limits.max_locations as usize {
            return false;
        }
        let n = self.urls.len();
        let mut i: usize = 0;
        while i < n
            invariant
                n == self.urls@.len(),
                i <= n,
                forall|j: int| 0 <= j < i ==> #[trigger] self.urls@[j]@.len()
                    <= limits.metadata_url_size,
            decreases n - i,
        {
            if self.urls[i].len() > limits.metadata_url_size as usize {
                return false;
            }
            i = i + 1;
        }
        true
    }
}

impl Default for CommunityMetadata {
    fn default() -> (r: Self)
        ensures
            r.name@.len() == 0,
            r.description@.len() == 0,
            r.urls@.len() == 0,
            r.locations@.len() == 0,
            forall|limits: MetadataLimits| #[trigger] r.bounded(limits),
    {
        CommunityMetadata {
            name: Vec::new(),
            description: Vec::new(),
            urls: Vec::new(),
            locations: Vec::new(),
        }
    }
}

} // verus!
