//! The thin registry that maps collectibles — a (collection, token id) pair
//! of a deployed token collection — to their owners.  Deployment of the
//! collections themselves is the host's concern; this is only the ledger of
//! who holds what.

use vstd::prelude::*;
use crate::account::AccountId;

verus! {

/// Why an operation on the registry was refused.
#[derive(Clone, Copy, Debug, PartialEq, Eq, Structural)]
pub enum CollectionError {
    /// The named collectible is not registered.
    NonExistentCollection,
}

/// One registered collectible: a token of a deployed collection, and the
/// account holding it.
pub struct CollectibleRecord {
    pub collection: AccountId,
    pub token_id: u32,
    pub owner: AccountId,
}

/// The mathematical form of one registered collectible.
pub struct CollectibleModel {
    pub collection: Seq<u8>,
    pub token_id: u32,
    pub owner: Seq<u8>,
}

impl View for CollectibleRecord {
    type V = CollectibleModel;

    open spec fn view(&self) -> CollectibleModel {
        CollectibleModel {
            collection: self.collection@,
            token_id: self.token_id,
            owner: self.owner@,
        }
    }
}

/// The mathematical form of the registry's entries.
pub open spec fn entries_view(s: Seq<CollectibleRecord>) -> Seq<CollectibleModel> {
    s.map_values(|e: CollectibleRecord| e@)
}

/// Each collectible — a (collection, token id) pair — is registered at most
/// once.
pub open spec fn distinct_collectibles(entries: Seq<CollectibleModel>) -> bool {
    forall|i: int, j: int|
        0 <= i < j < entries.len() ==> !((#[trigger] entries[i]).collection == (
        #[trigger] entries[j]).collection && entries[i].token_id == entries[j].token_id)
}

/// The registered owner of a collectible, if any.  Under
/// `distinct_collectibles` the choice is unique.
pub open spec fn collectible_owner(
    entries: Seq<CollectibleModel>,
    collection: Seq<u8>,
    token_id: u32,
) -> Option<Seq<u8>> {
    if exists|i: int|
        0 <= i < entries.len() && (#[trigger] entries[i]).collection == collection
            && entries[i].token_id == token_id {
        Some(
            entries[choose|i: int|
                0 <= i < entries.len() && (#[trigger] entries[i]).collection == collection
                    && entries[i].token_id == token_id].owner,
        )
    } else {
        None
    }
}

/// The collectibles held by `owner`, in registration order.
pub open spec fn owned_pairs(entries: Seq<CollectibleModel>, owner: Seq<u8>) -> Seq<(Seq<u8>, u32)>
    decreases entries.len(),
{
    if entries.len() == 0 {
        Seq::empty()
    } else {
        owned_pairs(entries.drop_last(), owner) + (if entries.last().owner == owner {
            seq![(entries.last().collection, entries.last().token_id)]
        } else {
            Seq::empty()
        })
    }
}

/// The mathematical form of a list of (collection, token id) pairs.
pub open spec fn pairs_view(s: Seq<(AccountId, u32)>) -> Seq<(Seq<u8>, u32)> {
    s.map_values(|p: (AccountId, u32)| (p.0@, p.1))
}

/// The registry is well formed: no collectible is registered twice.
pub open spec fn collection_wf(entries: Seq<CollectibleModel>) -> bool {
    distinct_collectibles(entries)
}

/// With distinct collectibles, a matching index determines the owner.
proof fn lemma_collectible_at(
    entries: Seq<CollectibleModel>,
    collection: Seq<u8>,
    token_id: u32,
    i: int,
)
    requires
        distinct_collectibles(entries),
        0 <= i < entries.len(),
        entries[i].collection == collection,
        entries[i].token_id == token_id,
    ensures
        collectible_owner(entries, collection, token_id) == Some(entries[i].owner),
{
    let j = choose|j: int|
        0 <= j < entries.len() && (#[trigger] entries[j]).collection == collection
            && entries[j].token_id == token_id;
    if j != i {
        assert(!(entries[i].collection == entries[j].collection && entries[i].token_id
            == entries[j].token_id));
        assert(false);
    }
}

/// The registry of collectibles across deployed collections.
pub struct Collection {
    admin: AccountId,
    entries: Vec<CollectibleRecord>,
}

impl Collection {
    /// The registry's mathematical entries.
    pub closed spec fn entries_model(&self) -> Seq<CollectibleModel> {
        entries_view(self.entries@)
    }

    /// The admin identity.
    pub closed spec fn admin_model(&self) -> Seq<u8> {
        self.admin@
    }

    /// Create an empty registry administered by `admin`.
    pub fn new(admin: AccountId) -> (r: Collection)
        ensures
            r.admin_model() == admin@,
            r.entries_model() == Seq::<CollectibleModel>::empty(),
            collection_wf(r.entries_model()),
    {
        let r = Collection { admin, entries: Vec::new() };
        proof {
            assert(r.entries_model() =~= Seq::<CollectibleModel>::empty());
        }
        r
    }

    /// Register, or re-assign, the collectible `(collection, token_id)` to
    /// `to`.  Every other collectible keeps its owner.
    pub fn assign_collectible(&mut self, collection: &AccountId, to: &AccountId, token_id: u32)
        requires
            collection_wf(old(self).entries_model()),
        ensures
            collection_wf(final(self).entries_model()),
            final(self).admin_model() == old(self).admin_model(),
            collectible_owner(final(self).entries_model(), collection@, token_id) == Some(to@),
            forall|c: Seq<u8>, t: u32|
                !(c == collection@ && t == token_id) ==> collectible_owner(
                    final(self).entries_model(),
                    c,
                    t,
                ) == collectible_owner(old(self).entries_model(), c, t),
    {
        let ghost vold = self.entries_model();
        let n = self.entries.len();
        let mut i: usize = 0;
        while i < n
            invariant
                collection_wf(self.entries_model()),
                n == self.entries@.len(),
                0 <= i <= n,
                vold == old(self).entries_model(),
                self.admin_model() == old(self).admin_model(),
                self.entries_model() == vold,
                forall|j: int|
                    0 <= j < i ==> !((#[trigger] self.entries_model()[j]).collection
                        == collection@ && self.entries_model()[j].token_id == token_id),
            decreases n - i,
        {
            if self.entries[i].collection.is_same(collection) && self.entries[i].token_id
                == token_id {
                self.entries[i] = CollectibleRecord {
                    collection: collection.clone(),
                    token_id,
                    owner: to.clone(),
                };
                proof {
                    let vnew = self.entries_model();
                    assert(vnew =~= vold.update(
                        i as int,
                        CollectibleModel {
                            collection: collection@,
                            token_id: token_id,
                            owner: to@,
                        },
                    ));
                    assert(forall|k: int|
                        0 <= k < vnew.len() ==> (#[trigger] vnew[k]).collection
                            == vold[k].collection && vnew[k].token_id == vold[k].token_id);
                    assert(distinct_collectibles(vnew));
                    lemma_collectible_at(vnew, collection@, token_id, i as int);
                    assert forall|c: Seq<u8>, t: u32|
                        !(c == collection@ && t == token_id) implies collectible_owner(
                        vnew,
                        c,
                        t,
                    ) == collectible_owner(vold, c, t) by {
                        if exists|k: int|
                            0 <= k < vold.len() && (#[trigger] vold[k]).collection == c
                                && vold[k].token_id == t {
                            let k = choose|k: int|
                                0 <= k < vold.len() && (#[trigger] vold[k]).collection == c
                                    && vold[k].token_id == t;
                            assert(k != i);
                            lemma_collectible_at(vold, c, t, k);
                            lemma_collectible_at(vnew, c, t, k);
                        }
                    }
                }
                return ;
            }
            i += 1;
        }
        self.entries.push(
            CollectibleRecord { collection: collection.clone(), token_id, owner: to.clone() },
        );
        proof {
            let vnew = self.entries_model();
            let m = vold.len() as int;
            assert(vnew =~= vold.push(
                CollectibleModel { collection: collection@, token_id: token_id, owner: to@ },
            ));
            assert(distinct_collectibles(vnew));
            lemma_collectible_at(vnew, collection@, token_id, m);
            assert forall|c: Seq<u8>, t: u32|
                !(c == collection@ && t == token_id) implies collectible_owner(vnew, c, t)
                == collectible_owner(vold, c, t) by {
                if exists|k: int|
                    0 <= k < vold.len() && (#[trigger] vold[k]).collection == c && vold[k].token_id
                        == t {
                    let k = choose|k: int|
                        0 <= k < vold.len() && (#[trigger] vold[k]).collection == c
                            && vold[k].token_id == t;
                    lemma_collectible_at(vold, c, t, k);
                    lemma_collectible_at(vnew, c, t, k);
                }
            }
        }
    }

    /// The collectibles currently held by `from`, in registration order.
    pub fn collectibles(&self, from: &AccountId) -> (r: Vec<(AccountId, u32)>)
        ensures
            pairs_view(r@) == owned_pairs(self.entries_model(), from@),
    {
        let n = self.entries.len();
        let mut r: Vec<(AccountId, u32)> = Vec::new();
        let mut i: usize = 0;
        proof {
            assert(pairs_view(r@) =~= owned_pairs(self.entries_model().take(0), from@));
        }
        while i < n
            invariant
                n == self.entries@.len(),
                0 <= i <= n,
                pairs_view(r@) == owned_pairs(self.entries_model().take(i as int), from@),
            decreases n - i,
        {
            let e = &self.entries[i];
            proof {
                let ent = self.entries_model();
                assert(ent.take(i + 1).drop_last() =~= ent.take(i as int));
                assert(ent.take(i + 1).last() == ent[i as int]);
            }
            if e.owner.is_same(from) {
                r.push((e.collection.clone(), e.token_id));
                proof {
                    let ent = self.entries_model();
                    assert(pairs_view(r@) =~= owned_pairs(ent.take(i as int), from@) + seq![
                        (ent[i as int].collection, ent[i as int].token_id),
                    ]);
                }
            }
            proof {
                let ent = self.entries_model();
                assert(pairs_view(r@) =~= owned_pairs(ent.take(i + 1), from@));
            }
            i += 1;
        }
        proof {
            assert(self.entries_model().take(n as int) =~= self.entries_model());
        }
        r
    }
}

} // verus!
