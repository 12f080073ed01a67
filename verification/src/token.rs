//! The chip-authenticated token lifecycle engine.
//!
//! One [`NFCtoNFT`] value is the whole contract state: metadata, the dense
//! token registry (token id = index), per-owner balances, per-chip replay
//! nonces, and the notification log.  Every operation either performs its
//! full effect or returns an error and leaves the state exactly as it was.

use vstd::prelude::*;
use crate::account::{AccountId, PublicKey};
use crate::bytes::{bytes_eq, copy_bytes, push_all};
use crate::codec::{dec_bytes, u32_to_decimal_bytes};
use crate::crypto::{chip_digest, compute_chip_digest, recover_chip_key, recover_of};
use crate::errors::NonFungibleTokenError;
use crate::events::{Claim, Clawback, Event, EventModel, Mint, Transfer, events_view};
use crate::model::{
    OwnerModel, StateModel, TokenModel, bal_of, chip_index, distinct_keys, has_chip,
    lemma_count_ge_one, lemma_count_lt_len, lemma_count_push, lemma_count_update, lemma_lookup_at,
    lemma_lookup_none, lemma_set_entry, lookup_u32, nonce_of, owned_count, owns_pred, wf,
};

verus! {

/// One stored token record: the chip key it is bound to and its owner.
pub struct TokenRecord {
    pub key: PublicKey,
    pub owner: Ownership,
}

/// The ownership state of one token.
pub enum Ownership {
    /// Minted, never claimed.
    Unclaimed,
    /// Owned by this account.
    Claimed(AccountId),
    /// Clawed back into quarantine.
    Quarantined,
}

impl View for Ownership {
    type V = OwnerModel;

    closed spec fn view(&self) -> OwnerModel {
        match self {
            Ownership::Unclaimed => OwnerModel::Unclaimed,
            Ownership::Claimed(a) => OwnerModel::Claimed(a@),
            Ownership::Quarantined => OwnerModel::Quarantined,
        }
    }
}

impl View for TokenRecord {
    type V = TokenModel;

    closed spec fn view(&self) -> TokenModel {
        TokenModel { key: self.key@, owner: self.owner@ }
    }
}

/// The sequence of token models held by a sequence of records.
pub open spec fn tokens_view(s: Seq<TokenRecord>) -> Seq<TokenModel> {
    s.map_values(|t: TokenRecord| t@)
}

/// The association sequence held by stored nonce pairs.
pub open spec fn nonce_pairs_view(s: Seq<(PublicKey, u32)>) -> Seq<(Seq<u8>, u32)> {
    s.map_values(|p: (PublicKey, u32)| (p.0@, p.1))
}

/// The association sequence held by stored balance pairs.
pub open spec fn balance_pairs_view(s: Seq<(AccountId, u32)>) -> Seq<(Seq<u8>, u32)> {
    s.map_values(|p: (AccountId, u32)| (p.0@, p.1))
}

/// The signature and replay guard accepts: the recovery id is a valid
/// selector, recovering from the digest that binds (message, signer, nonce)
/// with the supplied signature and exactly that selector yields exactly the
/// claimed chip key, and the nonce is strictly above the last one accepted
/// from that chip.
pub open spec fn guard_ok(
    m: StateModel,
    signer: Seq<u8>,
    message: Seq<u8>,
    signature: Seq<u8>,
    recovery_id: u32,
    pk: Seq<u8>,
    nonce: u32,
) -> bool {
    &&& recovery_id <= 3
    &&& recover_of(chip_digest(message, signer, nonce), signature, recovery_id as u8) == Some(pk)
    &&& nonce > nonce_of(m, pk)
}

/// The collection metadata and identities are unchanged between two states.
pub open spec fn meta_unchanged(pre: StateModel, post: StateModel) -> bool {
    &&& post.admin == pre.admin
    &&& post.holding == pre.holding
    &&& post.name == pre.name
    &&& post.symbol == pre.symbol
    &&& post.base_uri == pre.base_uri
    &&& post.max_tokens == pre.max_tokens
}

/// The nonce of `pk` is now `nonce` and every other chip's nonce is as it
/// was.
pub open spec fn nonces_set(pre: StateModel, post: StateModel, pk: Seq<u8>, nonce: u32) -> bool {
    &&& nonce_of(post, pk) == nonce
    &&& forall|q: Seq<u8>| q != pk ==> nonce_of(post, q) == nonce_of(pre, q)
}

/// What `verify_chip_signature` guarantees: on acceptance the nonce is
/// recorded and nothing else moves; on refusal the state is exactly as it
/// was.
pub open spec fn verify_post(
    pre: StateModel,
    post: StateModel,
    signer: Seq<u8>,
    message: Seq<u8>,
    signature: Seq<u8>,
    recovery_id: u32,
    pk: Seq<u8>,
    nonce: u32,
    r: Result<(), NonFungibleTokenError>,
) -> bool {
    if guard_ok(pre, signer, message, signature, recovery_id, pk, nonce) {
        &&& r == Ok::<(), NonFungibleTokenError>(())
        &&& nonces_set(pre, post, pk, nonce)
        &&& post.tokens == pre.tokens
        &&& post.balances == pre.balances
        &&& post.events == pre.events
        &&& meta_unchanged(pre, post)
    } else {
        &&& r == Err::<(), NonFungibleTokenError>(NonFungibleTokenError::InvalidSignature)
        &&& post == pre
    }
}

/// What `mint` guarantees.  Failures, in order of checking: an invalid
/// signature or stale nonce, a depleted id space, a chip already bound; each
/// leaves the state exactly as it was.  Success appends an unclaimed token
/// bound to the chip at the next dense id, records the nonce, announces the
/// mint, and returns the id.
pub open spec fn mint_post(
    pre: StateModel,
    post: StateModel,
    message: Seq<u8>,
    signature: Seq<u8>,
    recovery_id: u32,
    pk: Seq<u8>,
    nonce: u32,
    r: Result<u32, NonFungibleTokenError>,
) -> bool {
    if !guard_ok(pre, pre.admin, message, signature, recovery_id, pk, nonce) {
        &&& r == Err::<u32, NonFungibleTokenError>(NonFungibleTokenError::InvalidSignature)
        &&& post == pre
    } else if pre.tokens.len() >= pre.max_tokens {
        &&& r == Err::<u32, NonFungibleTokenError>(NonFungibleTokenError::TokenIDsAreDepleted)
        &&& post == pre
    } else if has_chip(pre.tokens, pk) {
        &&& r == Err::<u32, NonFungibleTokenError>(NonFungibleTokenError::TokenAlreadyMinted)
        &&& post == pre
    } else {
        &&& r == Ok::<u32, NonFungibleTokenError>(pre.tokens.len() as u32)
        &&& post.tokens == pre.tokens.push(
            TokenModel { key: pk, owner: OwnerModel::Unclaimed },
        )
        &&& nonces_set(pre, post, pk, nonce)
        &&& post.balances == pre.balances
        &&& post.events == pre.events.push(
            EventModel::Mint { token_id: pre.tokens.len() as u32 },
        )
        &&& meta_unchanged(pre, post)
    }
}

/// The balance of `owner` moved by `delta` and every other balance is as it
/// was.
pub open spec fn bal_bumped(pre: StateModel, post: StateModel, owner: Seq<u8>, delta: int) -> bool {
    &&& bal_of(post, owner) == bal_of(pre, owner) + delta
    &&& forall|q: Seq<u8>| q != owner ==> bal_of(post, q) == bal_of(pre, q)
}

/// What `claim` guarantees.  Failures, in order of checking: an invalid
/// signature or stale nonce, a chip never minted, a token already claimed or
/// quarantined; each leaves the state exactly as it was.  Success makes the
/// claimant the first owner of the chip's token, raises their balance by
/// one, records the nonce, announces the claim, and returns the token id.
pub open spec fn claim_post(
    pre: StateModel,
    post: StateModel,
    claimant: Seq<u8>,
    message: Seq<u8>,
    signature: Seq<u8>,
    recovery_id: u32,
    pk: Seq<u8>,
    nonce: u32,
    r: Result<u32, NonFungibleTokenError>,
) -> bool {
    if !guard_ok(pre, claimant, message, signature, recovery_id, pk, nonce) {
        &&& r == Err::<u32, NonFungibleTokenError>(NonFungibleTokenError::InvalidSignature)
        &&& post == pre
    } else if !has_chip(pre.tokens, pk) {
        &&& r == Err::<u32, NonFungibleTokenError>(NonFungibleTokenError::NonExistentToken)
        &&& post == pre
    } else if !(pre.tokens[chip_index(pre.tokens, pk)].owner is Unclaimed) {
        &&& r == Err::<u32, NonFungibleTokenError>(NonFungibleTokenError::TokenAlreadyClaimed)
        &&& post == pre
    } else {
        let i = chip_index(pre.tokens, pk);
        &&& r == Ok::<u32, NonFungibleTokenError>(i as u32)
        &&& post.tokens == pre.tokens.update(
            i,
            TokenModel { key: pk, owner: OwnerModel::Claimed(claimant) },
        )
        &&& nonces_set(pre, post, pk, nonce)
        &&& bal_bumped(pre, post, claimant, 1)
        &&& post.events == pre.events.push(
            EventModel::Claim { claimant: claimant, token_id: i as u32 },
        )
        &&& meta_unchanged(pre, post)
    }
}

/// Balances after a transfer from `from` to `to`: a self-transfer moves
/// nothing; otherwise `from` loses one, `to` gains one, and every other
/// balance is as it was.
pub open spec fn bal_moved(pre: StateModel, post: StateModel, from: Seq<u8>, to: Seq<u8>) -> bool {
    if from == to {
        forall|q: Seq<u8>| bal_of(post, q) == bal_of(pre, q)
    } else {
        &&& bal_of(post, from) == bal_of(pre, from) - 1
        &&& bal_of(post, to) == bal_of(pre, to) + 1
        &&& forall|q: Seq<u8>| q != from && q != to ==> bal_of(post, q) == bal_of(pre, q)
    }
}

/// What `transfer` guarantees.  Failures, in order of checking: an unknown
/// token id, a token never claimed, a quarantined token or a sender who is
/// not the current owner (whatever the signature), a chip key not bound to
/// the token, an invalid signature or stale nonce; each leaves the state
/// exactly as it was.  Success moves the token from `from` to `to`, moves
/// the two balances by one, records the nonce and announces the transfer.
pub open spec fn transfer_post(
    pre: StateModel,
    post: StateModel,
    from: Seq<u8>,
    to: Seq<u8>,
    token_id: u32,
    message: Seq<u8>,
    signature: Seq<u8>,
    recovery_id: u32,
    pk: Seq<u8>,
    nonce: u32,
    r: Result<(), NonFungibleTokenError>,
) -> bool {
    if token_id >= pre.tokens.len() {
        &&& r == Err::<(), NonFungibleTokenError>(NonFungibleTokenError::NonExistentToken)
        &&& post == pre
    } else {
        match pre.tokens[token_id as int].owner {
            OwnerModel::Unclaimed => {
                &&& r == Err::<(), NonFungibleTokenError>(NonFungibleTokenError::TokenNotClaimed)
                &&& post == pre
            },
            OwnerModel::Quarantined => {
                &&& r == Err::<(), NonFungibleTokenError>(NonFungibleTokenError::IncorrectOwner)
                &&& post == pre
            },
            OwnerModel::Claimed(o) => {
                if o != from {
                    &&& r == Err::<(), NonFungibleTokenError>(
                        NonFungibleTokenError::IncorrectOwner,
                    )
                    &&& post == pre
                } else if pre.tokens[token_id as int].key != pk {
                    &&& r == Err::<(), NonFungibleTokenError>(
                        NonFungibleTokenError::InvalidSignature,
                    )
                    &&& post == pre
                } else if !guard_ok(pre, from, message, signature, recovery_id, pk, nonce) {
                    &&& r == Err::<(), NonFungibleTokenError>(
                        NonFungibleTokenError::InvalidSignature,
                    )
                    &&& post == pre
                } else {
                    &&& r == Ok::<(), NonFungibleTokenError>(())
                    &&& post.tokens == pre.tokens.update(
                        token_id as int,
                        TokenModel { key: pk, owner: OwnerModel::Claimed(to) },
                    )
                    &&& nonces_set(pre, post, pk, nonce)
                    &&& bal_moved(pre, post, from, to)
                    &&& post.events == pre.events.push(
                        EventModel::Transfer { from: from, to: to, token_id: token_id },
                    )
                    &&& meta_unchanged(pre, post)
                }
            },
        }
    }
}

/// What `clawback` guarantees.  Only a currently claimed token can be
/// clawed back: it is moved to the quarantined state — which `owner_of`
/// reports as held by the holding identity and which no transition leaves —
/// and the prior owner's balance drops by one, with no balance raised in
/// exchange.  Any failure leaves the state exactly as it was.
pub open spec fn clawback_post(
    pre: StateModel,
    post: StateModel,
    token_id: u32,
    r: Result<(), NonFungibleTokenError>,
) -> bool {
    if token_id >= pre.tokens.len() {
        &&& r == Err::<(), NonFungibleTokenError>(NonFungibleTokenError::NonExistentToken)
        &&& post == pre
    } else {
        match pre.tokens[token_id as int].owner {
            OwnerModel::Claimed(o) => {
                &&& r == Ok::<(), NonFungibleTokenError>(())
                &&& post.tokens == pre.tokens.update(
                    token_id as int,
                    TokenModel {
                        key: pre.tokens[token_id as int].key,
                        owner: OwnerModel::Quarantined,
                    },
                )
                &&& bal_bumped(pre, post, o, -1)
                &&& post.nonces == pre.nonces
                &&& post.events == pre.events.push(
                    EventModel::Clawback { from: o, token_id: token_id },
                )
                &&& meta_unchanged(pre, post)
            },
            _ => {
                &&& r == Err::<(), NonFungibleTokenError>(NonFungibleTokenError::TokenNotClaimed)
                &&& post == pre
            },
        }
    }
}

/// The chip-authenticated token contract state.
pub struct NFCtoNFT {
    admin: AccountId,
    holding: AccountId,
    name: Vec<u8>,
    symbol: Vec<u8>,
    base_uri: Vec<u8>,
    max_tokens: u32,
    tokens: Vec<TokenRecord>,
    balances: Vec<(AccountId, u32)>,
    nonces: Vec<(PublicKey, u32)>,
    events: Vec<Event>,
}

impl View for NFCtoNFT {
    type V = StateModel;

    closed spec fn view(&self) -> StateModel {
        StateModel {
            admin: self.admin@,
            holding: self.holding@,
            name: self.name@,
            symbol: self.symbol@,
            base_uri: self.base_uri@,
            max_tokens: self.max_tokens,
            tokens: tokens_view(self.tokens@),
            balances: balance_pairs_view(self.balances@),
            nonces: nonce_pairs_view(self.nonces@),
            events: events_view(self.events@),
        }
    }
}

impl NFCtoNFT {
    /// Create a fresh collection.  `admin` is the identity bound into mint
    /// digests, `holding` the identity that quarantined tokens are held
    /// under (in a deployment, the contract's own address).
    pub fn new(
        admin: AccountId,
        holding: AccountId,
        name: Vec<u8>,
        symbol: Vec<u8>,
        base_uri: Vec<u8>,
        max_tokens: u32,
    ) -> (r: NFCtoNFT)
        ensures
            wf(r@),
            r@ == (StateModel {
                admin: admin@,
                holding: holding@,
                name: name@,
                symbol: symbol@,
                base_uri: base_uri@,
                max_tokens: max_tokens,
                tokens: Seq::<TokenModel>::empty(),
                balances: Seq::<(Seq<u8>, u32)>::empty(),
                nonces: Seq::<(Seq<u8>, u32)>::empty(),
                events: Seq::<EventModel>::empty(),
            }),
    {
        let r = NFCtoNFT {
            admin,
            holding,
            name,
            symbol,
            base_uri,
            max_tokens,
            tokens: Vec::new(),
            balances: Vec::new(),
            nonces: Vec::new(),
            events: Vec::new(),
        };
        proof {
            assert(r@.tokens =~= Seq::<TokenModel>::empty());
            assert(r@.balances =~= Seq::<(Seq<u8>, u32)>::empty());
            assert(r@.nonces =~= Seq::<(Seq<u8>, u32)>::empty());
            assert(r@.events =~= Seq::<EventModel>::empty());
            assert forall|a: Seq<u8>| #[trigger] bal_of(r@, a) == owned_count(r@.tokens, a) by {
                lemma_lookup_none(r@.balances, a);
            }
        }
        r
    }

    /// Index of the stored nonce entry for `pk`, if one exists.
    fn find_nonce_index(&self, pk: &PublicKey) -> (r: Option<usize>)
        ensures
            ({
                let v = self@.nonces;
                match r {
                    Some(i) => 0 <= i < v.len() && v[i as int].0 == pk@,
                    None => forall|j: int| 0 <= j < v.len() ==> (#[trigger] v[j]).0 != pk@,
                }
            }),
    {
        let n = self.nonces.len();
        let mut i: usize = 0;
        while i < n
            invariant
                n == self.nonces@.len(),
                0 <= i <= n,
                forall|j: int| 0 <= j < i ==> (#[trigger] self@.nonces[j]).0 != pk@,
            decreases n - i,
        {
            if self.nonces[i].0.is_same(pk) {
                return Some(i);
            }
            i += 1;
        }
        None
    }

    /// Index of the stored balance entry for `owner`, if one exists.
    fn find_balance_index(&self, owner: &AccountId) -> (r: Option<usize>)
        ensures
            ({
                let v = self@.balances;
                match r {
                    Some(i) => 0 <= i < v.len() && v[i as int].0 == owner@,
                    None => forall|j: int| 0 <= j < v.len() ==> (#[trigger] v[j]).0 != owner@,
                }
            }),
    {
        let n = self.balances.len();
        let mut i: usize = 0;
        while i < n
            invariant
                n == self.balances@.len(),
                0 <= i <= n,
                forall|j: int| 0 <= j < i ==> (#[trigger] self@.balances[j]).0 != owner@,
            decreases n - i,
        {
            if self.balances[i].0.is_same(owner) {
                return Some(i);
            }
            i += 1;
        }
        None
    }

    /// Index of the token bound to chip key `pk`, if one exists.
    fn find_chip_index(&self, pk: &PublicKey) -> (r: Option<usize>)
        requires
            wf(self@),
        ensures
            ({
                let t = self@.tokens;
                match r {
                    Some(i) => 0 <= i < t.len() && t[i as int].key == pk@ && has_chip(t, pk@)
                        && chip_index(t, pk@) == i,
                    None => !has_chip(t, pk@),
                }
            }),
    {
        let n = self.tokens.len();
        let mut i: usize = 0;
        while i < n
            invariant
                wf(self@),
                n == self.tokens@.len(),
                0 <= i <= n,
                forall|j: int| 0 <= j < i ==> (#[trigger] self@.tokens[j]).key != pk@,
            decreases n - i,
        {
            if self.tokens[i].key.is_same(pk) {
                proof {
                    let t = self@.tokens;
                    assert(has_chip(t, pk@));
                    let j = chip_index(t, pk@);
                    assert(0 <= j < t.len() && t[j].key == pk@);
                    if j != i {
                        assert(t[j].key != t[i as int].key);
                        assert(false);
                    }
                }
                return Some(i);
            }
            i += 1;
        }
        None
    }

    /// Store `value` as the nonce of `pk`, leaving every other chip's nonce
    /// as it was.
    fn set_nonce(&mut self, pk: &PublicKey, value: u32)
        requires
            distinct_keys(old(self)@.nonces),
        ensures
            distinct_keys(final(self)@.nonces),
            nonce_of(final(self)@, pk@) == value,
            forall|q: Seq<u8>| q != pk@ ==> nonce_of(final(self)@, q) == nonce_of(old(self)@, q),
            final(self)@ == (StateModel { nonces: final(self)@.nonces, ..old(self)@ }),
    {
        let found = self.find_nonce_index(pk);
        let ghost vold = self@.nonces;
        match found {
            Some(i) => {
                self.nonces[i] = (pk.clone(), value);
                proof {
                    assert(self@.nonces =~= vold.update(i as int, (pk@, value)));
                    lemma_set_entry(vold, self@.nonces, pk@, value);
                    assert(final(self)@ == (StateModel { nonces: final(self)@.nonces, ..old(self)@ }));
                }
            },
            None => {
                self.nonces.push((pk.clone(), value));
                proof {
                    assert(self@.nonces =~= vold.push((pk@, value)));
                    lemma_set_entry(vold, self@.nonces, pk@, value);
                    assert(final(self)@ == (StateModel { nonces: final(self)@.nonces, ..old(self)@ }));
                }
            },
        }
    }

    /// Store `value` as the balance of `owner`, leaving every other balance
    /// as it was.
    fn set_balance(&mut self, owner: &AccountId, value: u32)
        requires
            distinct_keys(old(self)@.balances),
        ensures
            distinct_keys(final(self)@.balances),
            lookup_u32(final(self)@.balances, owner@) == Some(value),
            forall|q: Seq<u8>| q != owner@ ==> lookup_u32(final(self)@.balances, q) == lookup_u32(
                old(self)@.balances,
                q,
            ),
            final(self)@ == (StateModel { balances: final(self)@.balances, ..old(self)@ }),
    {
        let found = self.find_balance_index(owner);
        let ghost vold = self@.balances;
        match found {
            Some(i) => {
                self.balances[i] = (owner.clone(), value);
                proof {
                    assert(self@.balances =~= vold.update(i as int, (owner@, value)));
                    lemma_set_entry(vold, self@.balances, owner@, value);
                    assert(final(self)@ == (StateModel {
                        balances: final(self)@.balances,
                        ..old(self)@
                    }));
                }
            },
            None => {
                self.balances.push((owner.clone(), value));
                proof {
                    assert(self@.balances =~= vold.push((owner@, value)));
                    lemma_set_entry(vold, self@.balances, owner@, value);
                    assert(final(self)@ == (StateModel {
                        balances: final(self)@.balances,
                        ..old(self)@
                    }));
                }
            },
        }
    }

    /// The current replay nonce recorded for `public_key`, zero if none was
    /// yet accepted.
    pub fn get_nonce(&self, public_key: &PublicKey) -> (r: u32)
        requires
            wf(self@),
        ensures
            r == nonce_of(self@, public_key@),
    {
        match self.find_nonce_index(public_key) {
            Some(i) => {
                proof {
                    lemma_lookup_at(self@.nonces, public_key@, i as int);
                }
                self.nonces[i].1
            },
            None => {
                proof {
                    lemma_lookup_none(self@.nonces, public_key@);
                }
                0
            },
        }
    }

    /// The number of tokens currently owned by `owner`.
    pub fn balance(&self, owner: &AccountId) -> (r: u32)
        requires
            distinct_keys(self@.balances),
        ensures
            r == bal_of(self@, owner@),
            wf(self@) ==> r == owned_count(self@.tokens, owner@),
    {
        match self.find_balance_index(owner) {
            Some(i) => {
                proof {
                    lemma_lookup_at(self@.balances, owner@, i as int);
                }
                self.balances[i].1
            },
            None => {
                proof {
                    lemma_lookup_none(self@.balances, owner@);
                }
                0
            },
        }
    }

    /// The token id bound to `public_key`.
    pub fn token_id(&self, public_key: &PublicKey) -> (r: Result<u32, NonFungibleTokenError>)
        requires
            wf(self@),
        ensures
            has_chip(self@.tokens, public_key@) ==> r == Ok::<u32, NonFungibleTokenError>(
                chip_index(self@.tokens, public_key@) as u32,
            ),
            !has_chip(self@.tokens, public_key@) ==> r == Err::<u32, NonFungibleTokenError>(
                NonFungibleTokenError::NonExistentToken,
            ),
    {
        match self.find_chip_index(public_key) {
            Some(i) => Ok(i as u32),
            None => Err(NonFungibleTokenError::NonExistentToken),
        }
    }

    /// The chip public key bound to `token_id`.
    pub fn public_key(&self, token_id: u32) -> (r: Result<PublicKey, NonFungibleTokenError>)
        ensures
            token_id < self@.tokens.len() ==> (r matches Ok(k) && k@ == self@.tokens[token_id as int].key),
            token_id >= self@.tokens.len() ==> r == Err::<PublicKey, NonFungibleTokenError>(
                NonFungibleTokenError::NonExistentToken,
            ),
    {
        if (token_id as usize) < self.tokens.len() {
            Ok(self.tokens[token_id as usize].key.clone())
        } else {
            Err(NonFungibleTokenError::NonExistentToken)
        }
    }

    /// The current owner of `token_id`: the claimant or transferee while
    /// claimed, the holding identity after a clawback; unminted and
    /// unclaimed tokens have none.
    pub fn owner_of(&self, token_id: u32) -> (r: Result<AccountId, NonFungibleTokenError>)
        ensures
            ({
                let m = self@;
                if token_id < m.tokens.len() {
                    match m.tokens[token_id as int].owner {
                        OwnerModel::Claimed(o) => r matches Ok(a) && a@ == o,
                        OwnerModel::Quarantined => r matches Ok(a) && a@ == m.holding,
                        OwnerModel::Unclaimed => r == Err::<AccountId, NonFungibleTokenError>(
                            NonFungibleTokenError::NonExistentToken,
                        ),
                    }
                } else {
                    r == Err::<AccountId, NonFungibleTokenError>(
                        NonFungibleTokenError::NonExistentToken,
                    )
                }
            }),
    {
        if (token_id as usize) < self.tokens.len() {
            match &self.tokens[token_id as usize].owner {
                Ownership::Claimed(a) => Ok(a.clone()),
                Ownership::Quarantined => Ok(self.holding.clone()),
                Ownership::Unclaimed => Err(NonFungibleTokenError::NonExistentToken),
            }
        } else {
            Err(NonFungibleTokenError::NonExistentToken)
        }
    }

    /// The URI of `token_id`: the base URI, a slash, and the token id in
    /// decimal.
    pub fn token_uri(&self, token_id: u32) -> (r: Result<Vec<u8>, NonFungibleTokenError>)
        ensures
            token_id < self@.tokens.len() ==> (r matches Ok(u) && u@ == self@.base_uri + seq![47u8]
                + dec_bytes(token_id as nat)),
            token_id >= self@.tokens.len() ==> r == Err::<Vec<u8>, NonFungibleTokenError>(
                NonFungibleTokenError::NonExistentToken,
            ),
    {
        if (token_id as usize) < self.tokens.len() {
            let mut u = copy_bytes(&self.base_uri);
            u.push(47u8);
            let digits = u32_to_decimal_bytes(token_id);
            push_all(&mut u, &digits);
            proof {
                assert(u@ =~= self@.base_uri + seq![47u8] + dec_bytes(token_id as nat));
            }
            Ok(u)
        } else {
            Err(NonFungibleTokenError::NonExistentToken)
        }
    }

    /// Whether the signature and replay guard accepts, without recording
    /// anything.  Also: an accepted claimed key is a 65-byte point.
    fn check_chip_signature(
        &self,
        signer: &AccountId,
        message: &Vec<u8>,
        signature: &Vec<u8>,
        recovery_id: u32,
        public_key: &PublicKey,
        nonce: u32,
    ) -> (r: bool)
        requires
            wf(self@),
        ensures
            r == guard_ok(self@, signer@, message@, signature@, recovery_id, public_key@, nonce),
            r ==> public_key@.len() == 65,
    {
        if recovery_id > 3 {
            return false;
        }
        let digest = compute_chip_digest(message, signer.as_bytes(), nonce);
        match recover_chip_key(&digest, signature, recovery_id as u8) {
            None => false,
            Some(recovered) => {
                if !bytes_eq(&recovered, public_key.as_bytes()) {
                    false
                } else {
                    let stored = self.get_nonce(public_key);
                    nonce > stored
                }
            },
        }
    }

    /// Verify a chip signature against the claimed key and record its nonce.
    ///
    /// Acceptance requires the signature to recover, with exactly the
    /// supplied selector, to exactly `public_key` over the digest binding
    /// (message, signer, nonce), and the nonce to be strictly above the last
    /// accepted one for that chip; the nonce is then recorded.  Refusal
    /// changes nothing.
    pub fn verify_chip_signature(
        &mut self,
        signer: &AccountId,
        message: &Vec<u8>,
        signature: &Vec<u8>,
        recovery_id: u32,
        public_key: &PublicKey,
        nonce: u32,
    ) -> (r: Result<(), NonFungibleTokenError>)
        requires
            wf(old(self)@),
        ensures
            wf(final(self)@),
            verify_post(
                old(self)@,
                final(self)@,
                signer@,
                message@,
                signature@,
                recovery_id,
                public_key@,
                nonce,
                r,
            ),
    {
        if self.check_chip_signature(signer, message, signature, recovery_id, public_key, nonce) {
            self.set_nonce(public_key, nonce);
            proof {
                assert forall|a: Seq<u8>| #[trigger] bal_of(self@, a) == owned_count(
                    self@.tokens,
                    a,
                ) by {
                    assert(bal_of(self@, a) == bal_of(old(self)@, a));
                }
            }
            Ok(())
        } else {
            Err(NonFungibleTokenError::InvalidSignature)
        }
    }

    /// Mint a token bound to the chip with `public_key`.
    ///
    /// The signature must be the chip's, over the digest binding (message,
    /// admin, nonce): minting is an admin-side operation, so the admin is
    /// the signer identity bound into the digest (admin authorization itself
    /// is the host's concern).  On success the token id is the next dense
    /// id, the token is unclaimed, and the chip's nonce is recorded; any
    /// failure leaves the state exactly as it was.
    pub fn mint(
        &mut self,
        message: &Vec<u8>,
        signature: &Vec<u8>,
        recovery_id: u32,
        public_key: &PublicKey,
        nonce: u32,
    ) -> (r: Result<u32, NonFungibleTokenError>)
        requires
            wf(old(self)@),
        ensures
            wf(final(self)@),
            mint_post(
                old(self)@,
                final(self)@,
                message@,
                signature@,
                recovery_id,
                public_key@,
                nonce,
                r,
            ),
    {
        if !self.check_chip_signature(
            &self.admin,
            message,
            signature,
            recovery_id,
            public_key,
            nonce,
        ) {
            return Err(NonFungibleTokenError::InvalidSignature);
        }
        if self.tokens.len() >= self.max_tokens as usize {
            return Err(NonFungibleTokenError::TokenIDsAreDepleted);
        }
        if let Some(_) = self.find_chip_index(public_key) {
            return Err(NonFungibleTokenError::TokenAlreadyMinted);
        }
        let ghost pre = self@;
        let id = self.tokens.len() as u32;
        self.set_nonce(public_key, nonce);
        let ghost mid = self@;
        self.tokens.push(TokenRecord { key: public_key.clone(), owner: Ownership::Unclaimed });
        self.events.push(Event::Mint(Mint { token_id: id }));
        proof {
            assert(self@.tokens =~= pre.tokens.push(
                TokenModel { key: public_key@, owner: OwnerModel::Unclaimed },
            ));
            assert(self@.events =~= pre.events.push(EventModel::Mint { token_id: id }));
            assert(self@.nonces == mid.nonces);
            assert(self@.balances == pre.balances);
            assert forall|a: Seq<u8>| #[trigger] bal_of(self@, a) == owned_count(
                self@.tokens,
                a,
            ) by {
                assert(bal_of(self@, a) == bal_of(pre, a));
                lemma_count_push(
                    pre.tokens,
                    owns_pred(a),
                    TokenModel { key: public_key@, owner: OwnerModel::Unclaimed },
                );
            }
            assert(wf(self@));
        }
        Ok(id)
    }

    /// Claim the minted, still unclaimed token bound to `public_key` for
    /// `claimant`.
    ///
    /// The signature must be the chip's, over the digest binding (message,
    /// claimant, nonce), so only the physical chip can hand its token to a
    /// first owner.  Any failure leaves the state exactly as it was.
    pub fn claim(
        &mut self,
        claimant: &AccountId,
        message: &Vec<u8>,
        signature: &Vec<u8>,
        recovery_id: u32,
        public_key: &PublicKey,
        nonce: u32,
    ) -> (r: Result<u32, NonFungibleTokenError>)
        requires
            wf(old(self)@),
        ensures
            wf(final(self)@),
            claim_post(
                old(self)@,
                final(self)@,
                claimant@,
                message@,
                signature@,
                recovery_id,
                public_key@,
                nonce,
                r,
            ),
    {
        if !self.check_chip_signature(
            claimant,
            message,
            signature,
            recovery_id,
            public_key,
            nonce,
        ) {
            return Err(NonFungibleTokenError::InvalidSignature);
        }
        let i = match self.find_chip_index(public_key) {
            Some(i) => i,
            None => {
                return Err(NonFungibleTokenError::NonExistentToken);
            },
        };
        match &self.tokens[i].owner {
            Ownership::Unclaimed => {},
            _ => {
                return Err(NonFungibleTokenError::TokenAlreadyClaimed);
            },
        }
        let ghost pre = self@;
        let bal = self.balance(claimant);
        proof {
            lemma_count_lt_len(pre.tokens, owns_pred(claimant@), i as int);
        }
        self.set_nonce(public_key, nonce);
        self.tokens[i] = TokenRecord {
            key: public_key.clone(),
            owner: Ownership::Claimed(claimant.clone()),
        };
        let ghost mid = self@;
        self.set_balance(claimant, bal + 1);
        self.events.push(Event::Claim(Claim { claimant: claimant.clone(), token_id: i as u32 }));
        proof {
            let t_new = TokenModel { key: public_key@, owner: OwnerModel::Claimed(claimant@) };
            assert(self@.tokens =~= pre.tokens.update(i as int, t_new));
            assert(self@.events =~= pre.events.push(
                EventModel::Claim { claimant: claimant@, token_id: i as u32 },
            ));
            assert(bal_of(self@, claimant@) == bal + 1);
            assert forall|a: Seq<u8>| #[trigger] bal_of(self@, a) == owned_count(
                self@.tokens,
                a,
            ) by {
                lemma_count_update(pre.tokens, owns_pred(a), i as int, t_new);
                if a != claimant@ {
                    assert(bal_of(self@, a) == bal_of(pre, a));
                    assert(!owns_pred(a)(pre.tokens[i as int]));
                    assert(!owns_pred(a)(t_new));
                } else {
                    assert(!owns_pred(a)(pre.tokens[i as int]));
                    assert(owns_pred(a)(t_new));
                }
            }
            assert(wf(self@));
        }
        Ok(i as u32)
    }

    /// Transfer the claimed token `token_id` from its owner `from` to `to`.
    ///
    /// Only the chip physically bound to the token can authorize the move —
    /// the signature must be that chip's, over the digest binding (message,
    /// from, nonce) — and only when `from` is the current on-ledger owner.
    /// A sender who is not the owner is refused whatever the signature.
    /// Any failure leaves the state exactly as it was.
    pub fn transfer(
        &mut self,
        from: &AccountId,
        to: &AccountId,
        token_id: u32,
        message: &Vec<u8>,
        signature: &Vec<u8>,
        recovery_id: u32,
        public_key: &PublicKey,
        nonce: u32,
    ) -> (r: Result<(), NonFungibleTokenError>)
        requires
            wf(old(self)@),
        ensures
            wf(final(self)@),
            transfer_post(
                old(self)@,
                final(self)@,
                from@,
                to@,
                token_id,
                message@,
                signature@,
                recovery_id,
                public_key@,
                nonce,
                r,
            ),
    {
        let tid = token_id as usize;
        if tid >= self.tokens.len() {
            return Err(NonFungibleTokenError::NonExistentToken);
        }
        let owner_ok: bool = match &self.tokens[tid].owner {
            Ownership::Unclaimed => {
                return Err(NonFungibleTokenError::TokenNotClaimed);
            },
            Ownership::Quarantined => {
                return Err(NonFungibleTokenError::IncorrectOwner);
            },
            Ownership::Claimed(o) => o.is_same(from),
        };
        if !owner_ok {
            return Err(NonFungibleTokenError::IncorrectOwner);
        }
        if !self.tokens[tid].key.is_same(public_key) {
            return Err(NonFungibleTokenError::InvalidSignature);
        }
        if !self.check_chip_signature(from, message, signature, recovery_id, public_key, nonce) {
            return Err(NonFungibleTokenError::InvalidSignature);
        }
        let ghost pre = self@;
        let bal_from = self.balance(from);
        proof {
            lemma_count_ge_one(pre.tokens, owns_pred(from@), tid as int);
        }
        self.set_balance(from, bal_from - 1);
        let bal_to = self.balance(to);
        proof {
            if from@ != to@ {
                assert(bal_to == bal_of(pre, to@));
                lemma_count_lt_len(pre.tokens, owns_pred(to@), tid as int);
            }
        }
        self.set_balance(to, bal_to + 1);
        let ghost mid2 = self@;
        self.set_nonce(public_key, nonce);
        let ghost mid3 = self@;
        self.tokens[tid] = TokenRecord {
            key: public_key.clone(),
            owner: Ownership::Claimed(to.clone()),
        };
        self.events.push(
            Event::Transfer(Transfer { from: from.clone(), to: to.clone(), token_id }),
        );
        proof {
            assert(mid2.nonces == pre.nonces);
            assert(self@.nonces == mid3.nonces);
            assert forall|q: Seq<u8>| q != public_key@ implies nonce_of(self@, q) == nonce_of(
                pre,
                q,
            ) by {
                assert(nonce_of(mid3, q) == nonce_of(mid2, q));
            }
            let t_new = TokenModel { key: public_key@, owner: OwnerModel::Claimed(to@) };
            assert(self@.tokens =~= pre.tokens.update(tid as int, t_new));
            assert(self@.events =~= pre.events.push(
                EventModel::Transfer { from: from@, to: to@, token_id: token_id },
            ));
            assert(bal_moved(pre, self@, from@, to@));
            assert forall|a: Seq<u8>| #[trigger] bal_of(self@, a) == owned_count(
                self@.tokens,
                a,
            ) by {
                lemma_count_update(pre.tokens, owns_pred(a), tid as int, t_new);
                assert(bal_of(pre, a) == owned_count(pre.tokens, a));
            }
            assert(wf(self@));
        }
        Ok(())
    }

    /// Claw the claimed token `token_id` back from its owner into
    /// quarantine.
    ///
    /// An admin-side emergency measure (admin authorization itself is the
    /// host's concern): no chip signature is involved.  The prior owner's
    /// balance drops by one and the token is held under the holding
    /// identity for good.  Any failure leaves the state exactly as it was.
    pub fn clawback(&mut self, token_id: u32) -> (r: Result<(), NonFungibleTokenError>)
        requires
            wf(old(self)@),
        ensures
            wf(final(self)@),
            clawback_post(old(self)@, final(self)@, token_id, r),
    {
        let tid = token_id as usize;
        if tid >= self.tokens.len() {
            return Err(NonFungibleTokenError::NonExistentToken);
        }
        let o = match &self.tokens[tid].owner {
            Ownership::Claimed(a) => a.clone(),
            _ => {
                return Err(NonFungibleTokenError::TokenNotClaimed);
            },
        };
        let ghost pre = self@;
        let bal = self.balance(&o);
        proof {
            lemma_count_ge_one(pre.tokens, owns_pred(o@), tid as int);
        }
        self.set_balance(&o, bal - 1);
        let key = self.tokens[tid].key.clone();
        self.tokens[tid] = TokenRecord { key, owner: Ownership::Quarantined };
        self.events.push(Event::Clawback(Clawback { from: o, token_id }));
        proof {
            let t_new = TokenModel { key: pre.tokens[tid as int].key, owner: OwnerModel::Quarantined };
            assert(self@.tokens =~= pre.tokens.update(tid as int, t_new));
            assert(self@.events =~= pre.events.push(
                EventModel::Clawback { from: pre.tokens[tid as int].owner->0, token_id: token_id },
            ));
            assert forall|a: Seq<u8>| #[trigger] bal_of(self@, a) == owned_count(
                self@.tokens,
                a,
            ) by {
                lemma_count_update(pre.tokens, owns_pred(a), tid as int, t_new);
                assert(bal_of(pre, a) == owned_count(pre.tokens, a));
            }
            assert(wf(self@));
        }
        Ok(())
    }

    /// The token collection name.
    pub fn name(&self) -> (r: Vec<u8>)
        ensures
            r@ == self@.name,
    {
        copy_bytes(&self.name)
    }

    /// The token collection symbol.
    pub fn symbol(&self) -> (r: Vec<u8>)
        ensures
            r@ == self@.symbol,
    {
        copy_bytes(&self.symbol)
    }

    /// How many notifications have been recorded: one per successful mint,
    /// claim, transfer or clawback.
    pub fn event_count(&self) -> (r: usize)
        ensures
            r == self@.events.len(),
    {
        self.events.len()
    }

    /// The next token id to be assigned, equal to the number of successful
    /// mints so far.
    pub fn next_token_id(&self) -> (r: u32)
        requires
            wf(self@),
        ensures
            r == self@.tokens.len(),
    {
        self.tokens.len() as u32
    }
}

} // verus!
