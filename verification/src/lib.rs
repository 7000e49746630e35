//! Sale-campaign and randomized-allocation engine for a non-fungible-token
//! ledger: time-gated, quantity-limited sale campaigns over a pool of token
//! identifiers, uniform random draws without replacement, per-account and
//! per-transaction purchase quotas, direct and notification-based payment,
//! and a rarity-upgrade mechanic priced per tier transition.

pub mod burn;
pub mod buy;
pub mod enumeration;
pub mod errors;
pub mod events;
pub mod ft_callbacks;
pub mod idvec;
pub mod quota;
pub mod laws;
pub mod mint;
pub mod pool;
pub mod registry;
pub mod state;
pub mod types;
pub mod upgrade;

pub use burn::NonFungibleTokenBurn;
pub use errors::SaleError;
pub use events::{EventEnvelope, EventKind, FractionationAddToken, NftCreate, NftUpgrade,
    SaleCreate, SalePause, SaleStart, SaleUpdate};
pub use state::NonFungibleToken;
pub use types::{AccountId, FtTransferArgs, FtTransferOutcome, JsonSale, Sale, SaleId, Token,
    TokenId, TokenRarity, UpgradePrice};
