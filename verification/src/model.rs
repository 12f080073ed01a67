//! The mathematical model of the engine's state, and the facts about it that
//! the lifecycle proofs rest on.

use vstd::prelude::*;
use crate::events::EventModel;

verus! {

/// The owner of one token in the model.
pub enum OwnerModel {
    /// Minted, never claimed: the token exists but has no owner.
    Unclaimed,
    /// Owned by the account with this serialized identity.
    Claimed(Seq<u8>),
    /// Clawed back into quarantine; no transition leaves this state.
    Quarantined,
}

/// One token record in the model: the chip key it is bound to, and its
/// owner.  The token's id is its index in the state's token sequence.
pub struct TokenModel {
    pub key: Seq<u8>,
    pub owner: OwnerModel,
}

/// The whole engine state, mathematically.
pub struct StateModel {
    /// The admin identity bound into mint digests.
    pub admin: Seq<u8>,
    /// The identity that quarantined tokens are held under.
    pub holding: Seq<u8>,
    /// Collection name.
    pub name: Seq<u8>,
    /// Collection symbol.
    pub symbol: Seq<u8>,
    /// Base of every token URI.
    pub base_uri: Seq<u8>,
    /// Maximum number of tokens that may ever be minted.
    pub max_tokens: u32,
    /// Token records, dense: token id `i` is `tokens[i]`.
    pub tokens: Seq<TokenModel>,
    /// Stored balance per owner identity; absent means zero.
    pub balances: Seq<(Seq<u8>, u32)>,
    /// Highest accepted nonce per chip key; absent means zero.
    pub nonces: Seq<(Seq<u8>, u32)>,
    /// Notifications recorded so far.
    pub events: Seq<EventModel>,
}

/// First value stored under `key`, if any.  Under a distinct-keys invariant
/// the choice is unique.
pub open spec fn lookup_u32(entries: Seq<(Seq<u8>, u32)>, key: Seq<u8>) -> Option<u32> {
    if exists|i: int| 0 <= i < entries.len() && entries[i].0 == key {
        Some(entries[choose|i: int| 0 <= i < entries.len() && entries[i].0 == key].1)
    } else {
        None
    }
}

/// Keys of an association sequence are pairwise distinct.
pub open spec fn distinct_keys(entries: Seq<(Seq<u8>, u32)>) -> bool {
    forall|i: int, j: int| 0 <= i < j < entries.len() ==> entries[i].0 != entries[j].0
}

/// The highest nonce accepted from chip `pk` so far, zero if none was.
pub open spec fn nonce_of(m: StateModel, pk: Seq<u8>) -> u32 {
    match lookup_u32(m.nonces, pk) {
        Some(v) => v,
        None => 0,
    }
}

/// The stored balance of `owner`, zero if absent.
pub open spec fn bal_of(m: StateModel, owner: Seq<u8>) -> u32 {
    match lookup_u32(m.balances, owner) {
        Some(v) => v,
        None => 0,
    }
}

/// Whether some token is bound to chip key `pk`.
pub open spec fn has_chip(tokens: Seq<TokenModel>, pk: Seq<u8>) -> bool {
    exists|i: int| 0 <= i < tokens.len() && tokens[i].key == pk
}

/// The token id bound to chip key `pk`; meaningful only when `has_chip`
/// holds, and unique under the bijection invariant.
pub open spec fn chip_index(tokens: Seq<TokenModel>, pk: Seq<u8>) -> int {
    choose|i: int| 0 <= i < tokens.len() && tokens[i].key == pk
}

/// How many tokens satisfy `f`.
pub open spec fn count_matching(s: Seq<TokenModel>, f: spec_fn(TokenModel) -> bool) -> nat
    decreases s.len(),
{
    if s.len() == 0 {
        0
    } else {
        count_matching(s.drop_last(), f) + (if f(s.last()) {
            1nat
        } else {
            0nat
        })
    }
}

/// The predicate "this token is owned by `a`".
pub open spec fn owns_pred(a: Seq<u8>) -> spec_fn(TokenModel) -> bool {
    |t: TokenModel| t.owner == OwnerModel::Claimed(a)
}

/// The predicate "this token is in a claimed state".
pub open spec fn claimed_pred() -> spec_fn(TokenModel) -> bool {
    |t: TokenModel| t.owner is Claimed
}

/// How many tokens are currently owned by `a`.
pub open spec fn owned_count(tokens: Seq<TokenModel>, a: Seq<u8>) -> nat {
    count_matching(tokens, owns_pred(a))
}

/// How many tokens are currently in a claimed state.
pub open spec fn claimed_count(tokens: Seq<TokenModel>) -> nat {
    count_matching(tokens, claimed_pred())
}

/// The engine state is well formed: supply within the cap, the chip-to-id
/// binding injective, association keys distinct, every chip key a 65-byte
/// point, and every stored balance exactly the number of tokens its owner
/// holds.
pub open spec fn wf(m: StateModel) -> bool {
    &&& m.tokens.len() <= m.max_tokens
    &&& forall|i: int, j: int|
        0 <= i < j < m.tokens.len() ==> m.tokens[i].key != m.tokens[j].key
    &&& forall|i: int| 0 <= i < m.tokens.len() ==> (#[trigger] m.tokens[i].key).len() == 65
    &&& distinct_keys(m.balances)
    &&& distinct_keys(m.nonces)
    &&& forall|a: Seq<u8>| #[trigger] bal_of(m, a) == owned_count(m.tokens, a)
}

/// The sum of the values of an association sequence.
pub open spec fn sum_values(entries: Seq<(Seq<u8>, u32)>) -> int
    decreases entries.len(),
{
    if entries.len() == 0 {
        0
    } else {
        sum_values(entries.drop_last()) + entries.last().1
    }
}

/// Whether some entry is stored under `key`.
pub open spec fn has_key(entries: Seq<(Seq<u8>, u32)>, key: Seq<u8>) -> bool {
    exists|i: int| 0 <= i < entries.len() && (#[trigger] entries[i]).0 == key
}

/// How many entries are stored under `key`.
pub open spec fn count_key(entries: Seq<(Seq<u8>, u32)>, key: Seq<u8>) -> int
    decreases entries.len(),
{
    if entries.len() == 0 {
        0
    } else {
        count_key(entries.drop_last(), key) + (if entries.last().0 == key {
            1int
        } else {
            0int
        })
    }
}

/// The sum, over the entries' keys, of how many tokens each key's account
/// owns.
pub open spec fn sum_owned(entries: Seq<(Seq<u8>, u32)>, tokens: Seq<TokenModel>) -> int
    decreases entries.len(),
{
    if entries.len() == 0 {
        0
    } else {
        sum_owned(entries.drop_last(), tokens) + owned_count(tokens, entries.last().0)
    }
}

/// With distinct keys, a key occurs exactly once if it occurs at all.
proof fn lemma_count_key_distinct(entries: Seq<(Seq<u8>, u32)>, key: Seq<u8>)
    requires
        distinct_keys(entries),
    ensures
        count_key(entries, key) == if has_key(entries, key) {
            1int
        } else {
            0int
        },
    decreases entries.len(),
{
    if entries.len() > 0 {
        let s = entries.drop_last();
        assert(distinct_keys(s));
        lemma_count_key_distinct(s, key);
        let n = entries.len() - 1;
        if entries.last().0 == key {
            assert(has_key(entries, key));
            if has_key(s, key) {
                let i = choose|i: int| 0 <= i < s.len() && (#[trigger] s[i]).0 == key;
                assert(entries[i].0 == key);
                assert(entries[i].0 != entries[n].0);
                assert(false);
            }
        } else {
            if has_key(entries, key) {
                let i = choose|i: int|
                    0 <= i < entries.len() && (#[trigger] entries[i]).0 == key;
                assert(i < n);
                assert(s[i].0 == key);
                assert(has_key(s, key));
            } else {
                assert(!has_key(s, key)) by {
                    if has_key(s, key) {
                        let i = choose|i: int| 0 <= i < s.len() && (#[trigger] s[i]).0 == key;
                        assert(entries[i].0 == key);
                    }
                }
            }
        }
    }
}

/// When no token exists, nobody owns anything.
proof fn lemma_sum_owned_empty(entries: Seq<(Seq<u8>, u32)>, tokens: Seq<TokenModel>)
    requires
        tokens.len() == 0,
    ensures
        sum_owned(entries, tokens) == 0,
    decreases entries.len(),
{
    if entries.len() > 0 {
        lemma_sum_owned_empty(entries.drop_last(), tokens);
    }
}

/// Appending a token raises the summed ownership by the number of entries
/// under the new token's owner.
proof fn lemma_sum_owned_push(
    entries: Seq<(Seq<u8>, u32)>,
    tokens: Seq<TokenModel>,
    t: TokenModel,
)
    ensures
        sum_owned(entries, tokens.push(t)) == sum_owned(entries, tokens) + (match t.owner {
            OwnerModel::Claimed(a) => count_key(entries, a),
            _ => 0,
        }),
    decreases entries.len(),
{
    if entries.len() > 0 {
        lemma_sum_owned_push(entries.drop_last(), tokens, t);
        lemma_count_push(tokens, owns_pred(entries.last().0), t);
    }
}

/// With each entry holding exactly its account's ownership count, the
/// values sum to the summed ownership.
proof fn lemma_sum_values_owned(entries: Seq<(Seq<u8>, u32)>, tokens: Seq<TokenModel>)
    requires
        forall|i: int|
            0 <= i < entries.len() ==> (#[trigger] entries[i]).1 == owned_count(
                tokens,
                entries[i].0,
            ),
    ensures
        sum_values(entries) == sum_owned(entries, tokens),
    decreases entries.len(),
{
    if entries.len() > 0 {
        lemma_sum_values_owned(entries.drop_last(), tokens);
    }
}

/// With distinct keys covering every owner, the summed ownership counts
/// each claimed token exactly once.
proof fn lemma_sum_owned_claimed(entries: Seq<(Seq<u8>, u32)>, tokens: Seq<TokenModel>)
    requires
        distinct_keys(entries),
        forall|i: int|
            0 <= i < tokens.len() ==> match (#[trigger] tokens[i]).owner {
                OwnerModel::Claimed(a) => has_key(entries, a),
                _ => true,
            },
    ensures
        sum_owned(entries, tokens) == claimed_count(tokens),
    decreases tokens.len(),
{
    if tokens.len() == 0 {
        lemma_sum_owned_empty(entries, tokens);
    } else {
        let s = tokens.drop_last();
        let t = tokens.last();
        assert(tokens =~= s.push(t));
        lemma_sum_owned_claimed(entries, s);
        lemma_sum_owned_push(entries, s, t);
        lemma_count_push(s, claimed_pred(), t);
        match t.owner {
            OwnerModel::Claimed(a) => {
                assert(has_key(entries, a));
                lemma_count_key_distinct(entries, a);
            },
            _ => {},
        }
    }
}

/// The ledger identity: in a well-formed state the stored balances sum to
/// exactly the number of currently claimed tokens.
pub proof fn lemma_balances_sum_claimed(m: StateModel)
    requires
        wf(m),
    ensures
        sum_values(m.balances) == claimed_count(m.tokens),
{
    assert forall|i: int| 0 <= i < m.balances.len() implies (#[trigger] m.balances[i]).1
        == owned_count(m.tokens, m.balances[i].0) by {
        lemma_lookup_at(m.balances, m.balances[i].0, i);
        assert(bal_of(m, m.balances[i].0) == owned_count(m.tokens, m.balances[i].0));
    }
    lemma_sum_values_owned(m.balances, m.tokens);
    assert forall|i: int| 0 <= i < m.tokens.len() implies match (#[trigger] m.tokens[i]).owner {
        OwnerModel::Claimed(a) => has_key(m.balances, a),
        _ => true,
    } by {
        match m.tokens[i].owner {
            OwnerModel::Claimed(a) => {
                lemma_count_ge_one(m.tokens, owns_pred(a), i);
                assert(bal_of(m, a) == owned_count(m.tokens, a));
                assert(bal_of(m, a) >= 1);
                if !has_key(m.balances, a) {
                    lemma_lookup_none(m.balances, a);
                    assert(bal_of(m, a) == 0);
                    assert(false);
                }
            },
            _ => {},
        }
    }
    lemma_sum_owned_claimed(m.balances, m.tokens);
}

/// With distinct keys, a matching index determines the lookup.
pub proof fn lemma_lookup_at(entries: Seq<(Seq<u8>, u32)>, key: Seq<u8>, i: int)
    requires
        distinct_keys(entries),
        0 <= i < entries.len(),
        entries[i].0 == key,
    ensures
        lookup_u32(entries, key) == Some(entries[i].1),
{
    let j = choose|j: int| 0 <= j < entries.len() && entries[j].0 == key;
    if j != i {
        assert(entries[i].0 != entries[j].0);
        assert(false);
    }
}

/// Without a matching index the lookup is empty.
pub proof fn lemma_lookup_none(entries: Seq<(Seq<u8>, u32)>, key: Seq<u8>)
    requires
        forall|j: int| 0 <= j < entries.len() ==> (#[trigger] entries[j]).0 != key,
    ensures
        lookup_u32(entries, key) is None,
{
}

/// Storing `value` under `key` — by replacing the matching entry or by
/// appending a fresh one — sets that key's lookup and leaves every other
/// key's lookup unchanged.
pub proof fn lemma_set_entry(
    vold: Seq<(Seq<u8>, u32)>,
    vnew: Seq<(Seq<u8>, u32)>,
    key: Seq<u8>,
    value: u32,
)
    requires
        distinct_keys(vold),
        (exists|i: int|
            0 <= i < vold.len() && (#[trigger] vold[i]).0 == key && vnew == vold.update(
                i,
                (key, value),
            )) || ((forall|j: int| 0 <= j < vold.len() ==> (#[trigger] vold[j]).0 != key) && vnew
            == vold.push((key, value))),
    ensures
        distinct_keys(vnew),
        lookup_u32(vnew, key) == Some(value),
        forall|q: Seq<u8>| q != key ==> lookup_u32(vnew, q) == lookup_u32(vold, q),
        vold.len() <= vnew.len() <= vold.len() + 1,
{
    if exists|i: int|
        0 <= i < vold.len() && (#[trigger] vold[i]).0 == key && vnew == vold.update(
            i,
            (key, value),
        ) {
        let i = choose|i: int|
            0 <= i < vold.len() && (#[trigger] vold[i]).0 == key && vnew == vold.update(
                i,
                (key, value),
            );
        assert(forall|k: int| 0 <= k < vnew.len() ==> (#[trigger] vnew[k]).0 == vold[k].0);
        assert(distinct_keys(vnew));
        lemma_lookup_at(vnew, key, i);
        assert forall|q: Seq<u8>| q != key implies lookup_u32(vnew, q) == lookup_u32(vold, q) by {
            if exists|k: int| 0 <= k < vold.len() && (#[trigger] vold[k]).0 == q {
                let k = choose|k: int| 0 <= k < vold.len() && (#[trigger] vold[k]).0 == q;
                assert(k != i);
                lemma_lookup_at(vold, q, k);
                lemma_lookup_at(vnew, q, k);
            } else {
                lemma_lookup_none(vold, q);
                lemma_lookup_none(vnew, q);
            }
        }
    } else {
        let n = vold.len() as int;
        assert(vnew == vold.push((key, value)));
        assert(vnew[n].0 == key);
        assert(forall|k: int| 0 <= k < n ==> (#[trigger] vnew[k]).0 == vold[k].0);
        assert(distinct_keys(vnew));
        lemma_lookup_at(vnew, key, n);
        assert forall|q: Seq<u8>| q != key implies lookup_u32(vnew, q) == lookup_u32(vold, q) by {
            if exists|k: int| 0 <= k < vold.len() && (#[trigger] vold[k]).0 == q {
                let k = choose|k: int| 0 <= k < vold.len() && (#[trigger] vold[k]).0 == q;
                lemma_lookup_at(vold, q, k);
                lemma_lookup_at(vnew, q, k);
            } else {
                lemma_lookup_none(vold, q);
                lemma_lookup_none(vnew, q);
            }
        }
    }
}

/// Appending a token moves each count by its match.
pub proof fn lemma_count_push(s: Seq<TokenModel>, f: spec_fn(TokenModel) -> bool, t: TokenModel)
    ensures
        count_matching(s.push(t), f) == count_matching(s, f) + (if f(t) {
            1nat
        } else {
            0nat
        }),
{
    assert(s.push(t).drop_last() =~= s);
}

/// Replacing the token at `i` adjusts each count by the difference of the
/// two matches.
pub proof fn lemma_count_update(
    s: Seq<TokenModel>,
    f: spec_fn(TokenModel) -> bool,
    i: int,
    t: TokenModel,
)
    requires
        0 <= i < s.len(),
    ensures
        count_matching(s.update(i, t), f) + (if f(s[i]) {
            1nat
        } else {
            0nat
        }) == count_matching(s, f) + (if f(t) {
            1nat
        } else {
            0nat
        }),
    decreases s.len(),
{
    if i == s.len() - 1 {
        assert(s.update(i, t).drop_last() =~= s.drop_last());
        assert(s.update(i, t).last() == t);
    } else {
        assert(s.update(i, t).drop_last() =~= s.drop_last().update(i, t));
        assert(s.update(i, t).last() == s.last());
        lemma_count_update(s.drop_last(), f, i, t);
    }
}

/// No count exceeds the number of tokens.
pub proof fn lemma_count_le_len(s: Seq<TokenModel>, f: spec_fn(TokenModel) -> bool)
    ensures
        count_matching(s, f) <= s.len(),
    decreases s.len(),
{
    if s.len() > 0 {
        lemma_count_le_len(s.drop_last(), f);
    }
}

/// A matching token makes the count positive.
pub proof fn lemma_count_ge_one(s: Seq<TokenModel>, f: spec_fn(TokenModel) -> bool, i: int)
    requires
        0 <= i < s.len(),
        f(s[i]),
    ensures
        count_matching(s, f) >= 1,
    decreases s.len(),
{
    if i == s.len() - 1 {
    } else {
        lemma_count_ge_one(s.drop_last(), f, i);
    }
}

/// A non-matching token keeps the count strictly below the length.
pub proof fn lemma_count_lt_len(s: Seq<TokenModel>, f: spec_fn(TokenModel) -> bool, i: int)
    requires
        0 <= i < s.len(),
        !f(s[i]),
    ensures
        count_matching(s, f) <= s.len() - 1,
    decreases s.len(),
{
    lemma_count_le_len(s, f);
    if i == s.len() - 1 {
        lemma_count_le_len(s.drop_last(), f);
    } else {
        lemma_count_lt_len(s.drop_last(), f, i);
    }
}

} // verus!
