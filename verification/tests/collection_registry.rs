//! Tests of the collectible registry.

use nfc_nft::account::AccountId;
use nfc_nft::collection::Collection;

fn id(name: &[u8]) -> AccountId {
    AccountId::new(name.to_vec())
}

#[test]
fn test_assign_and_list_collectibles() {
    let mut reg = Collection::new(id(b"admin"));
    let coll_a = id(b"collection-a");
    let coll_b = id(b"collection-b");
    let alice = id(b"alice");
    let bob = id(b"bob");

    reg.assign_collectible(&coll_a, &alice, 0);
    reg.assign_collectible(&coll_a, &bob, 1);
    reg.assign_collectible(&coll_b, &alice, 0);

    assert_eq!(reg.collectibles(&alice), vec![(coll_a.clone(), 0u32), (coll_b.clone(), 0u32)]);
    assert_eq!(reg.collectibles(&bob), vec![(coll_a.clone(), 1u32)]);
    assert_eq!(reg.collectibles(&id(b"nobody")), vec![]);
}

#[test]
fn test_reassign_collectible_moves_it() {
    let mut reg = Collection::new(id(b"admin"));
    let coll = id(b"collection");
    let alice = id(b"alice");
    let bob = id(b"bob");

    reg.assign_collectible(&coll, &alice, 7);
    assert_eq!(reg.collectibles(&alice), vec![(coll.clone(), 7u32)]);

    // Re-assigning the same collectible moves it: the previous holder
    // loses it, no duplicate entry appears.
    reg.assign_collectible(&coll, &bob, 7);
    assert_eq!(reg.collectibles(&alice), vec![]);
    assert_eq!(reg.collectibles(&bob), vec![(coll.clone(), 7u32)]);
}
