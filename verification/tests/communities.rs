use kreivo::communities::governance::{CommunityGovernanceStrategy, Vote};
use kreivo::communities::registry::{Error, Pallet};
use kreivo::communities::types::{CommunityMetadata, CommunityState, MetadataLimits};

const LIMITS: MetadataLimits = MetadataLimits { metadata_url_size: 8, max_urls: 2, max_locations: 3 };

#[test]
fn register_community() {
    let mut p = Pallet::new(LIMITS);
    assert!(!p.community_exists(7));
    assert_eq!(p.do_register_community(1, 7), Ok(()));
    assert!(p.community_exists(7));
    assert_eq!(p.community(7).unwrap().state, CommunityState::Awaiting);
    assert!(matches!(p.governance_strategy(7), Some(CommunityGovernanceStrategy::AdminBased(1))));
    assert!(p.is_member(7, 1));
    assert!(!p.is_member(7, 2));
    assert!(p.metadata(7).is_none());
}

#[test]
fn register_community_twice() {
    let mut p = Pallet::new(LIMITS);
    assert_eq!(p.do_register_community(1, 7), Ok(()));
    assert_eq!(p.do_register_community(2, 7), Err(Error::CommunityAlreadyExists));
    assert!(matches!(p.governance_strategy(7), Some(CommunityGovernanceStrategy::AdminBased(1))));
    assert!(!p.is_member(7, 2));
}

#[test]
fn register_when_already_member() {
    let mut p = Pallet::new(LIMITS);
    assert_eq!(p.do_insert_member(9, 4), Ok(()));
    assert_eq!(p.do_insert_member(9, 4), Err(Error::AlreadyAMember));
    assert_eq!(p.do_register_community(4, 9), Err(Error::AlreadyAMember));
    assert!(!p.community_exists(9));
}

#[test]
fn set_metadata() {
    let mut p = Pallet::new(LIMITS);
    let mut m = CommunityMetadata::default();
    m.name = b"Virto".to_vec();
    m.locations = vec![1, 2];
    assert_eq!(p.do_set_metadata(3, m), Ok(()));
    let stored = p.metadata(3).unwrap();
    assert_eq!(stored.name, b"Virto".to_vec());
    assert_eq!(stored.locations, vec![1, 2]);
    assert!(stored.description.is_empty());
    assert!(!p.community_exists(3));
    let mut m2 = CommunityMetadata::default();
    m2.description = b"new".to_vec();
    assert_eq!(p.do_set_metadata(3, m2), Ok(()));
    assert!(p.metadata(3).unwrap().name.is_empty());
}

#[test]
fn default_state_is_awaiting() {
    assert_eq!(CommunityState::default(), CommunityState::Awaiting);
    let v: Vote<u32, u128> = Vote::Standard(true);
    assert!(matches!(v, Vote::Standard(true)));
}

#[test]
fn metadata_bounds() {
    let mut m = CommunityMetadata::default();
    assert!(m.is_bounded(LIMITS));
    m.name = vec![0u8; 64];
    m.description = vec![0u8; 256];
    m.urls = vec![b"a.io".to_vec(), b"12345678".to_vec()];
    m.locations = vec![1, 2, 3];
    assert!(m.is_bounded(LIMITS));
    m.name.push(0);
    assert!(!m.is_bounded(LIMITS));
    m.name.pop();
    m.urls[1].push(b'9');
    assert!(!m.is_bounded(LIMITS));
    m.urls[1].pop();
    m.urls.push(vec![]);
    assert!(!m.is_bounded(LIMITS));
    m.urls.pop();
    m.locations.push(4);
    assert!(!m.is_bounded(LIMITS));
    let p = Pallet::new(LIMITS);
    assert_eq!(p.metadata_limits(), LIMITS);
}
