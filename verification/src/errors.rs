//! The failure taxonomy of the engine.  Every failing operation surfaces one
//! of these and leaves the state untouched.

use vstd::prelude::*;

verus! {

/// Why an operation on the token engine was refused.
#[derive(Clone, Copy, Debug, PartialEq, Eq, Structural)]
pub enum NonFungibleTokenError {
    /// The `token_id` does not resolve to a token, or the token has no owner
    /// yet where one is required.
    NonExistentToken,
    /// The claimed sender is not the current owner of the token.
    IncorrectOwner,
    /// Every token id up to the maximum supply is already in use.
    TokenIDsAreDepleted,
    /// The chip public key is already bound to a token.
    TokenAlreadyMinted,
    /// The token has already passed through a successful claim.
    TokenAlreadyClaimed,
    /// The signature does not verify for the claimed key, or the nonce was
    /// already used.
    InvalidSignature,
    /// The token exists but has not been claimed yet.
    TokenNotClaimed,
}

} // verus!
