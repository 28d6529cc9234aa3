//! Governance strategies and votes of communities.

use vstd::prelude::*;

verus! {

/// The weight of a vote, as a proportion.
pub type VoteWeight = sp_arithmetic::Perbill;

/// How a community governs itself: how privileged calls are ensured and how
/// it decides to execute calls.
pub enum CommunityGovernanceStrategy<AccountId, AssetId> {
    /// The community governance lies in the shoulders of the admin of it.
    AdminBased(AccountId),
    /// The community governance relies on a member count-based (one member,
    /// one vote) poll.
    MemberCountPoll { min: VoteWeight },
    /// The community governance relies on an asset-weighed (one token,
    /// one vote) poll.
    AssetWeighedPoll { asset_id: AssetId, min_approval: VoteWeight },
    /// The community governance relies on an ranked-weighed (one member vote,
    /// the number of votes corresponding to the rank of member) poll.
    RankedWeighedPoll { min_approval: VoteWeight },
}

/// A vote: aye or nay, weighed by an asset balance or standard.
pub enum Vote<AssetId, AssetBalance> {
    AssetBalance(bool, AssetId, AssetBalance),
    Standard(bool),
}

/// The tally of a community poll.
pub struct Tally<T>(pub core::marker::PhantomData<T>);

} // verus!
