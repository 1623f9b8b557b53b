//! The data model shared by every component of the pallet: identifier and
//! balance types, the market pair, the per-pool accounting record, the
//! error taxonomy, and the events emitted on successful operations.

use vstd::prelude::*;

verus! {

/// Identifies one asset on the ledger.
pub type AssetId = u8;

/// Identifies an account (a user, or one of the pallet's custody accounts).
pub type AccountId = u64;

/// The balance type used for all amounts and reserves.
pub type Balance = u128;

/// A market is the ordered pair (base asset, quote asset).
///
/// Distinct orderings of the same two assets name distinct markets; the
/// pallet does not canonicalize the pair.
pub type Market = (AssetId, AssetId);

/// Names one side of a market pair.
#[derive(Clone, Copy, PartialEq, Eq, Structural, Debug)]
pub enum BaseOrQuote {
    /// The base asset of the market.
    Base,
    /// The quote asset of the market.
    Quote,
}

/// The direction of a trade against a pool.
#[derive(Clone, Copy, PartialEq, Eq, Structural, Debug)]
pub enum OrderType {
    /// Spend the quote asset, receive the base asset.
    Buy,
    /// Spend the base asset, receive the quote asset.
    Sell,
}

/// The accounting record of one market's liquidity pool.
#[derive(Clone, Copy, PartialEq, Eq, Structural, Debug)]
pub struct MarketInfo {
    /// The pool's reserve of the base asset.
    pub base_balance: Balance,

    /// The pool's reserve of the quote asset.
    pub quote_balance: Balance,

    /// Fees collected in the base asset, awaiting distribution.
    pub collected_base_fees: Balance,

    /// Fees collected in the quote asset, awaiting distribution.
    pub collected_quote_fees: Balance,
}

/// Everything that can go wrong in a pallet operation. Every error aborts
/// the whole operation with no state change.
#[derive(Clone, Copy, PartialEq, Eq, Structural, Debug)]
pub enum Error {
    /// The market already has a pool and a second one cannot be created.
    MarketExists,

    /// The market the caller named has no pool.
    MarketDoesNotExist,

    /// The caller's balance (or recorded liquidity) is too small.
    NotEnoughBalance,

    /// An overflow, underflow or division by zero in a checked numeric step.
    Arithmetic,

    /// A transfer out of a custody account could not be covered.
    Transfer,
}

/// A record of one successful state-mutating operation. Each variant
/// carries the acting account, the market's two assets, and the amounts
/// involved.
#[derive(Clone, Copy, PartialEq, Eq, Structural, Debug)]
pub enum Event {
    /// A pool was created: creator, base asset, quote asset, base amount,
    /// quote amount.
    PoolCreated(AccountId, AssetId, AssetId, Balance, Balance),

    /// Liquidity was added: provider, base asset, quote asset, base amount,
    /// quote amount.
    LiquidityAdded(AccountId, AssetId, AssetId, Balance, Balance),

    /// Liquidity was withdrawn: provider, base asset, quote asset, base
    /// amount, quote amount.
    LiquidityWithdrawn(AccountId, AssetId, AssetId, Balance, Balance),

    /// The base asset was bought: buyer, base asset, quote asset, quote
    /// amount spent, base amount received.
    Bought(AccountId, AssetId, AssetId, Balance, Balance),

    /// The base asset was sold: seller, base asset, quote asset, base
    /// amount sold, quote amount received.
    Sold(AccountId, AssetId, AssetId, Balance, Balance),
}

} // verus!
