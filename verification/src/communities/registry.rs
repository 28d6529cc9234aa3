//! The registry of communities: registering a community and setting its
//! metadata.

use vstd::prelude::*;
use crate::communities::governance::CommunityGovernanceStrategy;
use crate::communities::types::{
    AccountId, AssetId, CommunityId, CommunityInfo, CommunityMetadata, CommunityState,
    MetadataLimits,
};
use crate::store::Store;

verus! {

/// The errors of the communities registry.
#[derive(Debug, PartialEq, Eq, Structural, Clone, Copy)]
pub enum Error {
    /// A community with this id already exists.
    CommunityAlreadyExists,
    /// The account is already a member of the community.
    AlreadyAMember,
}

/// What the communities pallet stores.
pub struct CommunitiesView {
    /// The info of each community.
    pub info: Map<CommunityId, CommunityInfo>,
    /// The governance strategy of each community.
    pub governance_strategy: Map<CommunityId, CommunityGovernanceStrategy<AccountId, AssetId>>,
    /// The metadata of each community.
    pub metadata: Map<CommunityId, CommunityMetadata>,
    /// The memberships: a community and one of its members.
    pub members: Map<(CommunityId, AccountId), ()>,
}

/// The store and result after registering `community_id` by `who`: a new
/// community is awaiting, governed by its admin `who`, who becomes its first
/// member.
pub open spec fn register_transition(
    s: CommunitiesView,
    who: AccountId,
    community_id: CommunityId,
) -> (CommunitiesView, Result<(), Error>) {
    if s.info.contains_key(community_id) {
        (s, Err(Error::CommunityAlreadyExists))
    } else if s.members.contains_key((community_id, who)) {
        (s, Err(Error::AlreadyAMember))
    } else {
        (
            CommunitiesView {
                info: s.info.insert(community_id, CommunityInfo { state: CommunityState::Awaiting }),
                governance_strategy: s.governance_strategy.insert(
                    community_id,
                    CommunityGovernanceStrategy::AdminBased(who),
                ),
                members: s.members.insert((community_id, who), ()),
                ..s
            },
            Ok(()),
        )
    }
}

/// The communities pallet.
pub struct Pallet {
    info: Store<CommunityId, CommunityInfo>,
    governance_strategy: Store<CommunityId, CommunityGovernanceStrategy<AccountId, AssetId>>,
    metadata: Store<CommunityId, CommunityMetadata>,
    members: Store<(CommunityId, AccountId), ()>,
    metadata_limits: MetadataLimits,
}

impl View for Pallet {
    type V = CommunitiesView;

    closed spec fn view(&self) -> CommunitiesView {
        CommunitiesView {
            info: self.info@,
            governance_strategy: self.governance_strategy@,
            metadata: self.metadata@,
            members: self.members@,
        }
    }
}

impl Pallet {
    /// The limits the pallet holds community metadata to.
    pub closed spec fn spec_metadata_limits(&self) -> MetadataLimits {
        self.metadata_limits
    }

    /// The stores of the pallet are well formed and all stored metadata keeps
    /// to its bounds.
    pub closed spec fn wf(&self) -> bool {
        &&& self.info.wf()
        &&& self.governance_strategy.wf()
        &&& self.metadata.wf()
        &&& self.members.wf()
        &&& forall|c: CommunityId| #[trigger]
            self.metadata@.contains_key(c) ==> self.metadata@[c].bounded(self.metadata_limits)
    }

    pub fn metadata_limits(&self) -> (r: MetadataLimits)
        ensures
            r == self.spec_metadata_limits(),
    {
        self.metadata_limits
    }

    /// A pallet with no communities, holding metadata to `metadata_limits`.
    pub fn new(metadata_limits: MetadataLimits) -> (s: Self)
        ensures
            s.wf(),
            s.spec_metadata_limits() == metadata_limits,
            s@.info == Map::<CommunityId, CommunityInfo>::empty(),
            s@.governance_strategy == Map::<
                CommunityId,
                CommunityGovernanceStrategy<AccountId, AssetId>,
            >::empty(),
            s@.metadata == Map::<CommunityId, CommunityMetadata>::empty(),
            s@.members == Map::<(CommunityId, AccountId), ()>::empty(),
    {
        Pallet {
            info: Store::new(),
            governance_strategy: Store::new(),
            metadata: Store::new(),
            members: Store::new(),
            metadata_limits,
        }
    }

    /// The info of a community.
    pub fn community(&self, community_id: CommunityId) -> (r: Option<&CommunityInfo>)
        requires
            self.wf(),
        ensures
            r is Some == self@.info.contains_key(community_id),
            r matches Some(i) ==> *i == self@.info[community_id],
    {
        self.info.get(&community_id)
    }

    /// The governance strategy of a community.
    pub fn governance_strategy(&self, community_id: CommunityId) -> (r: Option<
        &CommunityGovernanceStrategy<AccountId, AssetId>,
    >)
        requires
            self.wf(),
        ensures
            r is Some == self@.governance_strategy.contains_key(community_id),
            r matches Some(g) ==> *g == self@.governance_strategy[community_id],
    {
        self.governance_strategy.get(&community_id)
    }

    /// The metadata of a community.
    pub fn metadata(&self, community_id: CommunityId) -> (r: Option<&CommunityMetadata>)
        requires
            self.wf(),
        ensures
            r is Some == self@.metadata.contains_key(community_id),
            r matches Some(m) ==> *m == self@.metadata[community_id],
    {
        self.metadata.get(&community_id)
    }

    /// Whether `who` is a member of the community.
    pub fn is_member(&self, community_id: CommunityId, who: AccountId) -> (r: bool)
        requires
            self.wf(),
        ensures
            r == self@.members.contains_key((community_id, who)),
    {
        self.members.contains_key(&(community_id, who))
    }

    /// Whether the community exists.
    pub fn community_exists(&self, community_id: CommunityId) -> (r: bool)
        requires
            self.wf(),
        ensures
            r == self@.info.contains_key(community_id),
    {
        self.info.contains_key(&community_id)
    }

    /// Adds `who` to the members of the community.
    pub fn do_insert_member(&mut self, community_id: CommunityId, who: AccountId) -> (r:
        Result<(), Error>)
        requires
            old(self).wf(),
        ensures
            final(self).wf(),
            final(self).spec_metadata_limits() == old(self).spec_metadata_limits(),
            old(self)@.members.contains_key((community_id, who)) ==> r == Err::<(), Error>(
                Error::AlreadyAMember,
            ) && final(self)@ == old(self)@,
            !old(self)@.members.contains_key((community_id, who)) ==> r is Ok && final(self)@
                == (CommunitiesView {
                members: old(self)@.members.insert((community_id, who), ()),
                ..old(self)@
            }),
    {
        if self.members.contains_key(&(community_id, who)) {
            return Err(Error::AlreadyAMember);
        }
        self.members.insert((community_id, who), ());
        Ok(())
    }

    /// Registers the community `community_id` with `who` as its admin: its
    /// state is the default (awaiting), its governance is admin based, and
    /// `who` becomes its first member. A community id is registered once.
    pub fn do_register_community(&mut self, who: AccountId, community_id: CommunityId) -> (r:
        Result<(), Error>)
        requires
            old(self).wf(),
        ensures
            final(self).wf(),
            final(self).spec_metadata_limits() == old(self).spec_metadata_limits(),
            (final(self)@, r) == register_transition(old(self)@, who, community_id),
    {
        // Check that the community doesn't exist
        if self.community_exists(community_id) {
            return Err(Error::CommunityAlreadyExists);
        }
        if self.is_member(community_id, who) {
            return Err(Error::AlreadyAMember);
        }
        self.info.insert(community_id, CommunityInfo { state: CommunityState::default() });
        self.governance_strategy.insert(community_id, CommunityGovernanceStrategy::AdminBased(who));
        let inserted = self.do_insert_member(community_id, who);
        assert(inserted is Ok);
        Ok(())
    }

    /// Sets the metadata of a community; reading it back gives `value`.
    pub fn do_set_metadata(&mut self, community_id: CommunityId, value: CommunityMetadata) -> (r:
        Result<(), Error>)
        requires
            old(self).wf(),
            value.bounded(old(self).spec_metadata_limits()),
        ensures
            final(self).wf(),
            final(self).spec_metadata_limits() == old(self).spec_metadata_limits(),
            r is Ok,
            final(self)@ == (CommunitiesView {
                metadata: old(self)@.metadata.insert(community_id, value),
                ..old(self)@
            }),
    {
        self.metadata.insert(community_id, value);
        Ok(())
    }
}

/// A community id can be registered only once: registering it again, by
/// anyone, is refused with `CommunityAlreadyExists` and changes nothing.
pub proof fn lemma_register_once(
    s: CommunitiesView,
    who: AccountId,
    other: AccountId,
    community_id: CommunityId,
)
    requires
        register_transition(s, who, community_id).1 is Ok,
    ensures
        ({
            let registered = register_transition(s, who, community_id).0;
            &&& registered.info.contains_key(community_id)
            &&& registered.info[community_id].state == CommunityState::Awaiting
            &&& registered.members.contains_key((community_id, who))
            &&& register_transition(registered, other, community_id) == (
                registered,
                Err::<(), Error>(Error::CommunityAlreadyExists),
            )
        }),
{
}

} // verus!
