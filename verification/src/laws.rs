//! Laws of the engine: properties that hold of every state and every
//! transition, proved from the lifecycle relations alone.

use vstd::prelude::*;
use crate::errors::NonFungibleTokenError;
use crate::model::{
    OwnerModel, StateModel, TokenModel, bal_of, chip_index, claimed_count, claimed_pred, has_chip,
    lemma_count_update, wf,
};
use crate::token::{
    bal_bumped, claim_post, clawback_post, guard_ok, mint_post, transfer_post, verify_post,
};

verus! {

/// A nonce is accepted at most once per chip: once the guard has accepted
/// nonce `nonce` from chip `pk` and recorded it, no signature whatsoever —
/// over any message, any signer and any selector — is accepted for `pk`
/// with that nonce again.
pub proof fn lemma_nonce_replay_rejected(
    pre: StateModel,
    post: StateModel,
    signer: Seq<u8>,
    message: Seq<u8>,
    signature: Seq<u8>,
    recovery_id: u32,
    pk: Seq<u8>,
    nonce: u32,
)
    requires
        verify_post(
            pre,
            post,
            signer,
            message,
            signature,
            recovery_id,
            pk,
            nonce,
            Ok::<(), NonFungibleTokenError>(()),
        ),
    ensures
        forall|signer2: Seq<u8>, message2: Seq<u8>, signature2: Seq<u8>, recovery_id2: u32|
            !#[trigger] guard_ok(post, signer2, message2, signature2, recovery_id2, pk, nonce),
{
}

/// Minting is injective: in a well-formed state two distinct token ids are
/// never bound to the same chip key.
pub proof fn lemma_minting_injective(m: StateModel, i: int, j: int)
    requires
        wf(m),
        0 <= i < m.tokens.len(),
        0 <= j < m.tokens.len(),
        i != j,
    ensures
        m.tokens[i].key != m.tokens[j].key,
{
}

/// A chip key already bound to a token is never minted again: such a mint
/// fails and changes nothing.
pub proof fn lemma_remint_rejected(
    pre: StateModel,
    post: StateModel,
    message: Seq<u8>,
    signature: Seq<u8>,
    recovery_id: u32,
    pk: Seq<u8>,
    nonce: u32,
    r: Result<u32, NonFungibleTokenError>,
)
    requires
        mint_post(pre, post, message, signature, recovery_id, pk, nonce, r),
        has_chip(pre.tokens, pk),
    ensures
        r is Err,
        post == pre,
{
}

/// The next token id counts the successful mints: a successful mint assigns
/// exactly the previous count as the id and raises the count by one, a
/// failed mint leaves it, and a mint at or beyond the supply cap always
/// fails without any effect — with the depletion error whenever the guard
/// itself accepted.
pub proof fn lemma_next_id_counts_mints(
    pre: StateModel,
    post: StateModel,
    message: Seq<u8>,
    signature: Seq<u8>,
    recovery_id: u32,
    pk: Seq<u8>,
    nonce: u32,
    r: Result<u32, NonFungibleTokenError>,
)
    requires
        mint_post(pre, post, message, signature, recovery_id, pk, nonce, r),
    ensures
        r matches Ok(id) ==> id == pre.tokens.len() && post.tokens.len() == pre.tokens.len() + 1,
        r is Err ==> post.tokens.len() == pre.tokens.len(),
        pre.tokens.len() >= pre.max_tokens ==> r is Err && post == pre,
        pre.tokens.len() >= pre.max_tokens && guard_ok(
            pre,
            pre.admin,
            message,
            signature,
            recovery_id,
            pk,
            nonce,
        ) ==> r == Err::<u32, NonFungibleTokenError>(NonFungibleTokenError::TokenIDsAreDepleted),
{
}

/// Claim is guarded: claiming a chip key never minted always fails, as does
/// claiming a token that is already claimed or quarantined, each without
/// any effect; a successful claim raises the claimant's balance and the
/// collection's claimed count by exactly one.
pub proof fn lemma_claim_guarded(
    pre: StateModel,
    post: StateModel,
    claimant: Seq<u8>,
    message: Seq<u8>,
    signature: Seq<u8>,
    recovery_id: u32,
    pk: Seq<u8>,
    nonce: u32,
    r: Result<u32, NonFungibleTokenError>,
)
    requires
        wf(pre),
        claim_post(pre, post, claimant, message, signature, recovery_id, pk, nonce, r),
    ensures
        !has_chip(pre.tokens, pk) ==> r is Err && post == pre,
        has_chip(pre.tokens, pk) && !(pre.tokens[chip_index(pre.tokens, pk)].owner
            is Unclaimed) ==> r is Err && post == pre,
        r is Ok ==> bal_of(post, claimant) == bal_of(pre, claimant) + 1,
        r is Ok ==> claimed_count(post.tokens) == claimed_count(pre.tokens) + 1,
{
    if r is Ok {
        let i = chip_index(pre.tokens, pk);
        let t_new = TokenModel { key: pk, owner: OwnerModel::Claimed(claimant) };
        lemma_count_update(pre.tokens, claimed_pred(), i, t_new);
    }
}

/// Transfer moves ownership exactly when `from` is the current owner, the
/// chip bound to the token is the one that signed, and the guard accepts:
/// then the owner becomes `to` and the two balances move by exactly one.  A
/// sender who is not the current owner — including anyone at all on a
/// quarantined token — is refused with `IncorrectOwner` whatever the
/// signature, and every failure changes nothing.
pub proof fn lemma_transfer_exact(
    pre: StateModel,
    post: StateModel,
    from: Seq<u8>,
    to: Seq<u8>,
    token_id: u32,
    message: Seq<u8>,
    signature: Seq<u8>,
    recovery_id: u32,
    pk: Seq<u8>,
    nonce: u32,
    r: Result<(), NonFungibleTokenError>,
)
    requires
        wf(pre),
        transfer_post(
            pre,
            post,
            from,
            to,
            token_id,
            message,
            signature,
            recovery_id,
            pk,
            nonce,
            r,
        ),
    ensures
        r is Ok <==> token_id < pre.tokens.len() && pre.tokens[token_id as int].owner
            == OwnerModel::Claimed(from) && pre.tokens[token_id as int].key == pk && guard_ok(
            pre,
            from,
            message,
            signature,
            recovery_id,
            pk,
            nonce,
        ),
        r is Ok ==> post.tokens[token_id as int].owner == OwnerModel::Claimed(to),
        r is Ok && from != to ==> bal_of(post, from) == bal_of(pre, from) - 1 && bal_of(post, to)
            == bal_of(pre, to) + 1,
        r is Ok && from == to ==> forall|q: Seq<u8>| bal_of(post, q) == bal_of(pre, q),
        token_id < pre.tokens.len() && pre.tokens[token_id as int].owner is Claimed
            && pre.tokens[token_id as int].owner != OwnerModel::Claimed(from) ==> r == Err::<
            (),
            NonFungibleTokenError,
        >(NonFungibleTokenError::IncorrectOwner) && post == pre,
        token_id < pre.tokens.len() && pre.tokens[token_id as int].owner is Quarantined ==> r
            == Err::<(), NonFungibleTokenError>(NonFungibleTokenError::IncorrectOwner) && post
            == pre,
        r is Err ==> post == pre,
{
}

/// Every token of `pre` still exists in `post`, is bound to the same chip
/// key, and — once quarantined — is still quarantined: token records are
/// never deleted, the chip binding is immutable, and no transition leaves
/// quarantine.
pub open spec fn records_preserved(pre: StateModel, post: StateModel) -> bool {
    &&& post.tokens.len() >= pre.tokens.len()
    &&& forall|i: int|
        0 <= i < pre.tokens.len() ==> (#[trigger] post.tokens[i]).key == pre.tokens[i].key
    &&& forall|i: int|
        0 <= i < pre.tokens.len() && (#[trigger] pre.tokens[i]).owner is Quarantined
            ==> post.tokens[i].owner is Quarantined
}

/// A mint preserves every existing record, its chip binding and its
/// quarantine.
pub proof fn lemma_mint_preserves_records(
    pre: StateModel,
    post: StateModel,
    message: Seq<u8>,
    signature: Seq<u8>,
    recovery_id: u32,
    pk: Seq<u8>,
    nonce: u32,
    r: Result<u32, NonFungibleTokenError>,
)
    requires
        mint_post(pre, post, message, signature, recovery_id, pk, nonce, r),
    ensures
        records_preserved(pre, post),
{
}

/// A claim preserves every record's chip binding and quarantine.
pub proof fn lemma_claim_preserves_records(
    pre: StateModel,
    post: StateModel,
    claimant: Seq<u8>,
    message: Seq<u8>,
    signature: Seq<u8>,
    recovery_id: u32,
    pk: Seq<u8>,
    nonce: u32,
    r: Result<u32, NonFungibleTokenError>,
)
    requires
        claim_post(pre, post, claimant, message, signature, recovery_id, pk, nonce, r),
    ensures
        records_preserved(pre, post),
{
}

/// A transfer preserves every record's chip binding and quarantine.
pub proof fn lemma_transfer_preserves_records(
    pre: StateModel,
    post: StateModel,
    from: Seq<u8>,
    to: Seq<u8>,
    token_id: u32,
    message: Seq<u8>,
    signature: Seq<u8>,
    recovery_id: u32,
    pk: Seq<u8>,
    nonce: u32,
    r: Result<(), NonFungibleTokenError>,
)
    requires
        transfer_post(
            pre,
            post,
            from,
            to,
            token_id,
            message,
            signature,
            recovery_id,
            pk,
            nonce,
            r,
        ),
    ensures
        records_preserved(pre, post),
{
}

/// A clawback preserves every record's chip binding and quarantine.
pub proof fn lemma_clawback_preserves_records(
    pre: StateModel,
    post: StateModel,
    token_id: u32,
    r: Result<(), NonFungibleTokenError>,
)
    requires
        clawback_post(pre, post, token_id, r),
    ensures
        records_preserved(pre, post),
{
}

/// Clawback is final: a successful clawback quarantines the token and
/// removes exactly one from the prior owner's balance while raising
/// nobody's, and a second clawback of the same token always fails without
/// any effect.
pub proof fn lemma_clawback_final(
    pre: StateModel,
    mid: StateModel,
    post: StateModel,
    token_id: u32,
    r1: Result<(), NonFungibleTokenError>,
    r2: Result<(), NonFungibleTokenError>,
)
    requires
        clawback_post(pre, mid, token_id, r1),
        r1 is Ok,
        clawback_post(mid, post, token_id, r2),
    ensures
        mid.tokens[token_id as int].owner is Quarantined,
        bal_bumped(pre, mid, pre.tokens[token_id as int].owner->0, -1),
        r2 == Err::<(), NonFungibleTokenError>(NonFungibleTokenError::TokenNotClaimed),
        post == mid,
{
}

} // verus!
