//! The burn interface of the wider token ledger. Destroying tokens is the
//! collaborator ledger's business, not the sale engine's: a sale is never
//! deleted and an exhausted pool is a terminal, not an erased, state. The
//! trait is declared here so hosts can name the capability alongside the
//! engine.

use vstd::prelude::*;
use crate::types::TokenId;

verus! {

/// Removes a token from the ledger. Implemented by the hosting ledger,
/// outside this engine.
pub trait NonFungibleTokenBurn {
    fn nft_burn(&mut self, token_id: &TokenId);
}

} // verus!
