//! The market lifecycle manager: pool creation, liquidity deposit and
//! withdrawal, buying and selling, and the read-only queries.
//!
//! A [`Pallet`] value holds the complete persisted state — the asset
//! ledger, the pool registry, the liquidity-provision ledger and the event
//! log — together with its configuration: the taker-fee rate and the two
//! custody accounts (one holding the pooled reserves, one holding the
//! collected fees). Every operation is atomic: it either applies all of its
//! state and transfer effects, or returns an error and changes nothing.

use crate::ledger::{spec_transfer, BalanceMap, Ledger};
use crate::math::{fee_of, fee_ok, receive_amount, receive_ok};
use crate::types::{AccountId, AssetId, Balance, Error, Event, Market, MarketInfo, OrderType};
use vstd::prelude::*;

verus! {

/// One pool-registry entry: the market's two assets and its pool record.
pub type PoolEntry = (AssetId, AssetId, MarketInfo);

/// One liquidity-provision entry: the market's two assets, the provider,
/// and the provider's recorded base and quote contributions.
pub type PositionEntry = (AssetId, AssetId, AccountId, Balance, Balance);

/// The pool record for market `(base, quote)` in a run of registry
/// entries: the first matching entry's record, if any.
pub open spec fn pool_lookup(s: Seq<PoolEntry>, base: AssetId, quote: AssetId) -> Option<
    MarketInfo,
>
    decreases s.len(),
{
    if s.len() == 0 {
        None
    } else if s[0].0 == base && s[0].1 == quote {
        Some(s[0].2)
    } else {
        pool_lookup(s.drop_first(), base, quote)
    }
}

/// No two registry entries name the same market.
pub open spec fn unique_pool_keys(s: Seq<PoolEntry>) -> bool {
    forall|i: int, j: int|
        0 <= i < j < s.len() ==> !(s[i].0 == s[j].0 && s[i].1 == s[j].1)
}

/// The recorded contribution of `who` in market `(base, quote)`: the first
/// matching entry's amounts, or `(0, 0)` when none matches.
pub open spec fn position_lookup(
    s: Seq<PositionEntry>,
    base: AssetId,
    quote: AssetId,
    who: AccountId,
) -> (Balance, Balance)
    decreases s.len(),
{
    if s.len() == 0 {
        (0, 0)
    } else if s[0].0 == base && s[0].1 == quote && s[0].2 == who {
        (s[0].3, s[0].4)
    } else {
        position_lookup(s.drop_first(), base, quote, who)
    }
}

/// No two provision entries name the same market and provider.
pub open spec fn unique_position_keys(s: Seq<PositionEntry>) -> bool {
    forall|i: int, j: int|
        0 <= i < j < s.len() ==> !(s[i].0 == s[j].0 && s[i].1 == s[j].1 && s[i].2 == s[j].2)
}

/// If the first `i` registry entries miss `(base, quote)` and entry `i`
/// matches it, the lookup returns entry `i`'s record.
proof fn lemma_pool_match(s: Seq<PoolEntry>, i: int, base: AssetId, quote: AssetId)
    requires
        0 <= i < s.len(),
        s[i].0 == base && s[i].1 == quote,
        forall|j: int| 0 <= j < i ==> !(s[j].0 == base && s[j].1 == quote),
    ensures
        pool_lookup(s, base, quote) == Some(s[i].2),
    decreases i,
{
    if i > 0 {
        lemma_pool_match(s.drop_first(), i - 1, base, quote);
    }
}

/// If no registry entry matches `(base, quote)`, the lookup returns `None`.
proof fn lemma_pool_none(s: Seq<PoolEntry>, base: AssetId, quote: AssetId)
    requires
        forall|j: int| 0 <= j < s.len() ==> !(s[j].0 == base && s[j].1 == quote),
    ensures
        pool_lookup(s, base, quote) is None,
    decreases s.len(),
{
    if s.len() > 0 {
        lemma_pool_none(s.drop_first(), base, quote);
    }
}

/// Overwriting the record in registry entry `i` changes the lookup of that
/// entry's market to the new record and leaves every other market's lookup
/// unchanged.
proof fn lemma_pool_update(s: Seq<PoolEntry>, i: int, info: MarketInfo)
    requires
        unique_pool_keys(s),
        0 <= i < s.len(),
    ensures
        pool_lookup(s.update(i, (s[i].0, s[i].1, info)), s[i].0, s[i].1) == Some(info),
        forall|base: AssetId, quote: AssetId|
            !(s[i].0 == base && s[i].1 == quote) ==> pool_lookup(
                s.update(i, (s[i].0, s[i].1, info)),
                base,
                quote,
            ) == pool_lookup(s, base, quote),
        unique_pool_keys(s.update(i, (s[i].0, s[i].1, info))),
    decreases i,
{
    let t = s.update(i, (s[i].0, s[i].1, info));
    assert(unique_pool_keys(t)) by {
        assert(forall|j: int| 0 <= j < s.len() ==> t[j].0 == s[j].0 && t[j].1 == s[j].1);
    }
    if i == 0 {
        assert(t.drop_first() =~= s.drop_first());
        assert forall|base: AssetId, quote: AssetId| !(s[i].0 == base && s[i].1 == quote) implies
            pool_lookup(t, base, quote) == pool_lookup(s, base, quote) by {
            assert(pool_lookup(t, base, quote) == pool_lookup(t.drop_first(), base, quote));
            assert(pool_lookup(s, base, quote) == pool_lookup(s.drop_first(), base, quote));
        }
    } else {
        let rest = s.drop_first();
        assert(unique_pool_keys(rest)) by {
            assert(forall|p: int, q: int|
                0 <= p < q < rest.len() ==> !(rest[p].0 == rest[q].0 && rest[p].1 == rest[q].1));
        }
        lemma_pool_update(rest, i - 1, info);
        let u = rest.update(i - 1, (s[i].0, s[i].1, info));
        assert(t.drop_first() =~= u);
        assert(!(s[0].0 == s[i].0 && s[0].1 == s[i].1));
        assert(pool_lookup(t, s[i].0, s[i].1) == pool_lookup(u, s[i].0, s[i].1));
        assert forall|base: AssetId, quote: AssetId| !(s[i].0 == base && s[i].1 == quote) implies
            pool_lookup(t, base, quote) == pool_lookup(s, base, quote) by {
            if s[0].0 == base && s[0].1 == quote {
                assert(pool_lookup(t, base, quote) == Some(t[0].2));
            } else {
                assert(pool_lookup(t, base, quote) == pool_lookup(u, base, quote));
                assert(pool_lookup(u, base, quote) == pool_lookup(rest, base, quote));
                assert(pool_lookup(s, base, quote) == pool_lookup(rest, base, quote));
            }
        }
    }
}

/// Appending a registry entry for a fresh market sets that market's lookup
/// to the new record and leaves every other market's lookup unchanged.
proof fn lemma_pool_push(s: Seq<PoolEntry>, base: AssetId, quote: AssetId, info: MarketInfo)
    requires
        forall|j: int| 0 <= j < s.len() ==> !(s[j].0 == base && s[j].1 == quote),
    ensures
        pool_lookup(s.push((base, quote, info)), base, quote) == Some(info),
        forall|b: AssetId, q: AssetId|
            !(b == base && q == quote) ==> pool_lookup(s.push((base, quote, info)), b, q)
                == pool_lookup(s, b, q),
    decreases s.len(),
{
    let t = s.push((base, quote, info));
    if s.len() == 0 {
        assert(t[0] == (base, quote, info));
        assert forall|b: AssetId, q: AssetId| !(b == base && q == quote) implies pool_lookup(
            t,
            b,
            q,
        ) == pool_lookup(s, b, q) by {
            assert(t.drop_first() =~= Seq::<PoolEntry>::empty());
            assert(pool_lookup(t, b, q) == pool_lookup(t.drop_first(), b, q));
            assert(pool_lookup(Seq::<PoolEntry>::empty(), b, q) is None);
            assert(pool_lookup(s, b, q) is None);
        }
    } else {
        let rest = s.drop_first();
        lemma_pool_push(rest, base, quote, info);
        let u = rest.push((base, quote, info));
        assert(t.drop_first() =~= u);
        assert(pool_lookup(t, base, quote) == pool_lookup(u, base, quote));
        assert forall|b: AssetId, q: AssetId| !(b == base && q == quote) implies pool_lookup(
            t,
            b,
            q,
        ) == pool_lookup(s, b, q) by {
            if s[0].0 == b && s[0].1 == q {
                assert(pool_lookup(t, b, q) == Some(t[0].2));
            } else {
                assert(pool_lookup(t, b, q) == pool_lookup(u, b, q));
                assert(pool_lookup(u, b, q) == pool_lookup(rest, b, q));
                assert(pool_lookup(s, b, q) == pool_lookup(rest, b, q));
            }
        }
    }
}

/// If the first `i` provision entries miss the key and entry `i` matches
/// it, the lookup returns entry `i`'s amounts.
proof fn lemma_position_match(
    s: Seq<PositionEntry>,
    i: int,
    base: AssetId,
    quote: AssetId,
    who: AccountId,
)
    requires
        0 <= i < s.len(),
        s[i].0 == base && s[i].1 == quote && s[i].2 == who,
        forall|j: int| 0 <= j < i ==> !(s[j].0 == base && s[j].1 == quote && s[j].2 == who),
    ensures
        position_lookup(s, base, quote, who) == (s[i].3, s[i].4),
    decreases i,
{
    if i > 0 {
        lemma_position_match(s.drop_first(), i - 1, base, quote, who);
    }
}

/// If no provision entry matches the key, the lookup returns `(0, 0)`.
proof fn lemma_position_none(s: Seq<PositionEntry>, base: AssetId, quote: AssetId, who: AccountId)
    requires
        forall|j: int| 0 <= j < s.len() ==> !(s[j].0 == base && s[j].1 == quote && s[j].2 == who),
    ensures
        position_lookup(s, base, quote, who) == (0u128, 0u128),
    decreases s.len(),
{
    if s.len() > 0 {
        lemma_position_none(s.drop_first(), base, quote, who);
    }
}

/// Overwriting the amounts in provision entry `i` changes the lookup of
/// that entry's key to the new amounts and leaves every other key's lookup
/// unchanged.
proof fn lemma_position_update(s: Seq<PositionEntry>, i: int, bp: Balance, qp: Balance)
    requires
        unique_position_keys(s),
        0 <= i < s.len(),
    ensures
        position_lookup(s.update(i, (s[i].0, s[i].1, s[i].2, bp, qp)), s[i].0, s[i].1, s[i].2) == (
            bp,
            qp,
        ),
        forall|base: AssetId, quote: AssetId, who: AccountId|
            !(s[i].0 == base && s[i].1 == quote && s[i].2 == who) ==> position_lookup(
                s.update(i, (s[i].0, s[i].1, s[i].2, bp, qp)),
                base,
                quote,
                who,
            ) == position_lookup(s, base, quote, who),
        unique_position_keys(s.update(i, (s[i].0, s[i].1, s[i].2, bp, qp))),
    decreases i,
{
    let t = s.update(i, (s[i].0, s[i].1, s[i].2, bp, qp));
    assert(unique_position_keys(t)) by {
        assert(forall|j: int|
            0 <= j < s.len() ==> t[j].0 == s[j].0 && t[j].1 == s[j].1 && t[j].2 == s[j].2);
    }
    if i == 0 {
        assert(t.drop_first() =~= s.drop_first());
        assert forall|base: AssetId, quote: AssetId, who: AccountId|
            !(s[i].0 == base && s[i].1 == quote && s[i].2 == who) implies position_lookup(
            t,
            base,
            quote,
            who,
        ) == position_lookup(s, base, quote, who) by {
            assert(position_lookup(t, base, quote, who) == position_lookup(
                t.drop_first(),
                base,
                quote,
                who,
            ));
            assert(position_lookup(s, base, quote, who) == position_lookup(
                s.drop_first(),
                base,
                quote,
                who,
            ));
        }
    } else {
        let rest = s.drop_first();
        assert(unique_position_keys(rest)) by {
            assert(forall|p: int, q: int|
                0 <= p < q < rest.len() ==> !(rest[p].0 == rest[q].0 && rest[p].1 == rest[q].1
                    && rest[p].2 == rest[q].2));
        }
        lemma_position_update(rest, i - 1, bp, qp);
        let u = rest.update(i - 1, (s[i].0, s[i].1, s[i].2, bp, qp));
        assert(t.drop_first() =~= u);
        assert(!(s[0].0 == s[i].0 && s[0].1 == s[i].1 && s[0].2 == s[i].2));
        assert(position_lookup(t, s[i].0, s[i].1, s[i].2) == position_lookup(
            u,
            s[i].0,
            s[i].1,
            s[i].2,
        ));
        assert forall|base: AssetId, quote: AssetId, who: AccountId|
            !(s[i].0 == base && s[i].1 == quote && s[i].2 == who) implies position_lookup(
            t,
            base,
            quote,
            who,
        ) == position_lookup(s, base, quote, who) by {
            if s[0].0 == base && s[0].1 == quote && s[0].2 == who {
                assert(position_lookup(t, base, quote, who) == (t[0].3, t[0].4));
            } else {
                assert(position_lookup(t, base, quote, who) == position_lookup(
                    u,
                    base,
                    quote,
                    who,
                ));
                assert(position_lookup(u, base, quote, who) == position_lookup(
                    rest,
                    base,
                    quote,
                    who,
                ));
                assert(position_lookup(s, base, quote, who) == position_lookup(
                    rest,
                    base,
                    quote,
                    who,
                ));
            }
        }
    }
}

/// Appending a provision entry with a fresh key sets that key's lookup to
/// the new amounts and leaves every other key's lookup unchanged.
proof fn lemma_position_push(
    s: Seq<PositionEntry>,
    base: AssetId,
    quote: AssetId,
    who: AccountId,
    bp: Balance,
    qp: Balance,
)
    requires
        forall|j: int| 0 <= j < s.len() ==> !(s[j].0 == base && s[j].1 == quote && s[j].2 == who),
    ensures
        position_lookup(s.push((base, quote, who, bp, qp)), base, quote, who) == (bp, qp),
        forall|b: AssetId, q: AssetId, w: AccountId|
            !(b == base && q == quote && w == who) ==> position_lookup(
                s.push((base, quote, who, bp, qp)),
                b,
                q,
                w,
            ) == position_lookup(s, b, q, w),
    decreases s.len(),
{
    let t = s.push((base, quote, who, bp, qp));
    if s.len() == 0 {
        assert(t[0] == (base, quote, who, bp, qp));
        assert forall|b: AssetId, q: AssetId, w: AccountId|
            !(b == base && q == quote && w == who) implies position_lookup(t, b, q, w)
            == position_lookup(s, b, q, w) by {
            assert(t.drop_first() =~= Seq::<PositionEntry>::empty());
            assert(position_lookup(t, b, q, w) == position_lookup(t.drop_first(), b, q, w));
            assert(position_lookup(Seq::<PositionEntry>::empty(), b, q, w) == (0u128, 0u128));
            assert(position_lookup(s, b, q, w) == (0u128, 0u128));
        }
    } else {
        let rest = s.drop_first();
        lemma_position_push(rest, base, quote, who, bp, qp);
        let u = rest.push((base, quote, who, bp, qp));
        assert(t.drop_first() =~= u);
        assert(position_lookup(t, base, quote, who) == position_lookup(u, base, quote, who));
        assert forall|b: AssetId, q: AssetId, w: AccountId|
            !(b == base && q == quote && w == who) implies position_lookup(t, b, q, w)
            == position_lookup(s, b, q, w) by {
            if s[0].0 == b && s[0].1 == q && s[0].2 == w {
                assert(position_lookup(t, b, q, w) == (t[0].3, t[0].4));
            } else {
                assert(position_lookup(t, b, q, w) == position_lookup(u, b, q, w));
                assert(position_lookup(u, b, q, w) == position_lookup(rest, b, q, w));
                assert(position_lookup(s, b, q, w) == position_lookup(rest, b, q, w));
            }
        }
    }
}

/// Some provision entry names market `(base, quote)` and provider `who`.
pub open spec fn has_position(
    s: Seq<PositionEntry>,
    base: AssetId,
    quote: AssetId,
    who: AccountId,
) -> bool {
    exists|k: int| 0 <= k < s.len() && s[k].0 == base && s[k].1 == quote && s[k].2 == who
}

/// The two transfers that move liquidity into custody — the base amount,
/// then the quote amount, both from the caller — applied to a balance map;
/// `None` as soon as one of them fails.
pub open spec fn deposit_ledger(
    m: BalanceMap,
    who: AccountId,
    custody: AccountId,
    base_asset: AssetId,
    quote_asset: AssetId,
    base_amount: Balance,
    quote_amount: Balance,
) -> Option<BalanceMap> {
    match spec_transfer(m, base_asset, who, custody, base_amount) {
        Some(m1) => spec_transfer(m1, quote_asset, who, custody, quote_amount),
        None => None,
    }
}

/// The two transfers that move liquidity out of custody — the base amount,
/// then the quote amount, both to the caller — applied to a balance map;
/// `None` as soon as one of them fails.
pub open spec fn withdraw_ledger(
    m: BalanceMap,
    who: AccountId,
    custody: AccountId,
    base_asset: AssetId,
    quote_asset: AssetId,
    base_amount: Balance,
    quote_amount: Balance,
) -> Option<BalanceMap> {
    match spec_transfer(m, base_asset, custody, who, base_amount) {
        Some(m1) => spec_transfer(m1, quote_asset, custody, who, quote_amount),
        None => None,
    }
}

/// The three transfers of a trade: the fee-deducted deposit moves from the
/// caller to custody, the payout moves from custody to the caller, and the
/// fee moves from the caller to the fee account; `None` as soon as one of
/// them fails.
pub open spec fn trade_ledger(
    m: BalanceMap,
    who: AccountId,
    custody: AccountId,
    fee_account: AccountId,
    spend_asset: AssetId,
    receive_asset: AssetId,
    deposit: Balance,
    receive: Balance,
    fee: Balance,
) -> Option<BalanceMap> {
    match spec_transfer(m, spend_asset, who, custody, deposit) {
        Some(m1) => match spec_transfer(m1, receive_asset, custody, who, receive) {
            Some(m2) => spec_transfer(m2, spend_asset, who, fee_account, fee),
            None => None,
        },
        None => None,
    }
}

/// The complete state and configuration of the market maker.
pub struct Pallet {
    /// The asset ledger holding every account's balances.
    pub ledger: Ledger,

    /// The pool registry: one entry per existing market, in creation order.
    pub pools: Vec<PoolEntry>,

    /// The liquidity-provision ledger: one entry per market and provider,
    /// in order of first contribution.
    pub positions: Vec<PositionEntry>,

    /// The events emitted by successful operations, oldest first.
    pub events: Vec<Event>,

    /// Numerator of the taker-fee rate.
    pub fee_numerator: u32,

    /// Denominator of the taker-fee rate.
    pub fee_denominator: u32,

    /// The custody account holding the pooled reserves of every market.
    pub custody_account: AccountId,

    /// The custody account holding the collected taker fees.
    pub fee_account: AccountId,
}

impl Pallet {
    /// The structural invariant: the ledger, the registry and the provision
    /// ledger have unique keys, every provision entry belongs to a market
    /// that has a pool, and the fee account is segregated from the custody
    /// account holding the pooled reserves.
    pub open spec fn wf(self) -> bool {
        &&& self.ledger.wf()
        &&& self.custody_account != self.fee_account
        &&& unique_pool_keys(self.pools@)
        &&& unique_position_keys(self.positions@)
        &&& forall|k: int|
            0 <= k < self.positions@.len() ==> pool_lookup(
                self.pools@,
                self.positions@[k].0,
                self.positions@[k].1,
            ) is Some
    }

    /// The pool record of `market`, if the market has one.
    pub open spec fn pool_of(self, market: Market) -> Option<MarketInfo> {
        pool_lookup(self.pools@, market.0, market.1)
    }

    /// The recorded contribution of `who` in `market`; `(0, 0)` when none
    /// was ever recorded.
    pub open spec fn position_of(self, market: Market, who: AccountId) -> (Balance, Balance) {
        position_lookup(self.positions@, market.0, market.1, who)
    }

    /// The balance of `who` in `asset`.
    pub open spec fn bal(self, asset: AssetId, who: AccountId) -> Balance {
        self.ledger.bal(asset, who)
    }

    /// The configuration fields of `a` and `b` agree.
    pub open spec fn same_config(a: Pallet, b: Pallet) -> bool {
        &&& a.fee_numerator == b.fee_numerator
        &&& a.fee_denominator == b.fee_denominator
        &&& a.custody_account == b.custody_account
        &&& a.fee_account == b.fee_account
    }

    /// A fresh market maker: no pools, no positions, no events, every
    /// balance zero, with the given taker-fee rate and custody accounts.
    /// The two custody accounts must differ, so that collected fees stay
    /// segregated from the pooled reserves.
    pub fn new(
        fee_numerator: u32,
        fee_denominator: u32,
        custody_account: AccountId,
        fee_account: AccountId,
    ) -> (p: Pallet)
        requires
            custody_account != fee_account,
        ensures
            p.wf(),
            p.fee_numerator == fee_numerator,
            p.fee_denominator == fee_denominator,
            p.custody_account == custody_account,
            p.fee_account == fee_account,
            p.pools@.len() == 0,
            p.positions@.len() == 0,
            p.events@.len() == 0,
            forall|k: (AssetId, AccountId)| p.ledger@[k] == 0,
    {
        Pallet {
            ledger: Ledger::new(),
            pools: Vec::new(),
            positions: Vec::new(),
            events: Vec::new(),
            fee_numerator,
            fee_denominator,
            custody_account,
            fee_account,
        }
    }

    /// Record `amount` as the balance of `who` in `asset`, as a genesis
    /// endowment does. Touches nothing else.
    pub fn set_balance(&mut self, asset: AssetId, who: AccountId, amount: Balance)
        requires
            old(self).wf(),
        ensures
            final(self).wf(),
            final(self).ledger@ == old(self).ledger@.insert((asset, who), amount),
            final(self).pools@ == old(self).pools@,
            final(self).positions@ == old(self).positions@,
            final(self).events@ == old(self).events@,
            Pallet::same_config(*old(self), *final(self)),
    {
        self.ledger.put(asset, who, amount);
    }

    /// The index of the registry entry for `(base, quote)`, if the market
    /// has a pool.
    fn find_pool(&self, base: AssetId, quote: AssetId) -> (r: Option<usize>)
        ensures
            match r {
                Some(i) => i < self.pools@.len() && self.pools@[i as int].0 == base
                    && self.pools@[i as int].1 == quote && pool_lookup(self.pools@, base, quote)
                    == Some(self.pools@[i as int].2) && (forall|j: int|
                    0 <= j < i ==> !(self.pools@[j].0 == base && self.pools@[j].1 == quote)),
                None => pool_lookup(self.pools@, base, quote) is None && (forall|j: int|
                    0 <= j < self.pools@.len() ==> !(self.pools@[j].0 == base && self.pools@[j].1
                        == quote)),
            },
    {
        let n = self.pools.len();
        let mut i: usize = 0;
        while i < n
            invariant
                i <= n,
                n == self.pools@.len(),
                forall|j: int| 0 <= j < i ==> !(self.pools@[j].0 == base && self.pools@[j].1 == quote),
            decreases n - i,
        {
            let e = self.pools[i];
            if e.0 == base && e.1 == quote {
                proof {
                    lemma_pool_match(self.pools@, i as int, base, quote);
                }
                return Some(i);
            }
            i = i + 1;
        }
        proof {
            lemma_pool_none(self.pools@, base, quote);
        }
        None
    }

    /// The index of the provision entry for `(base, quote, who)`, if one
    /// exists.
    fn find_position(&self, base: AssetId, quote: AssetId, who: AccountId) -> (r: Option<usize>)
        ensures
            match r {
                Some(i) => i < self.positions@.len() && self.positions@[i as int].0 == base
                    && self.positions@[i as int].1 == quote && self.positions@[i as int].2 == who
                    && position_lookup(self.positions@, base, quote, who) == (
                    self.positions@[i as int].3,
                    self.positions@[i as int].4,
                ) && (forall|j: int|
                    0 <= j < i ==> !(self.positions@[j].0 == base && self.positions@[j].1 == quote
                        && self.positions@[j].2 == who)),
                None => position_lookup(self.positions@, base, quote, who) == (0u128, 0u128) && (
                forall|j: int|
                    0 <= j < self.positions@.len() ==> !(self.positions@[j].0 == base
                        && self.positions@[j].1 == quote && self.positions@[j].2 == who)),
            },
    {
        let n = self.positions.len();
        let mut i: usize = 0;
        while i < n
            invariant
                i <= n,
                n == self.positions@.len(),
                forall|j: int|
                    0 <= j < i ==> !(self.positions@[j].0 == base && self.positions@[j].1 == quote
                        && self.positions@[j].2 == who),
            decreases n - i,
        {
            let e = self.positions[i];
            if e.0 == base && e.1 == quote && e.2 == who {
                proof {
                    lemma_position_match(self.positions@, i as int, base, quote, who);
                }
                return Some(i);
            }
            i = i + 1;
        }
        proof {
            lemma_position_none(self.positions@, base, quote, who);
        }
        None
    }

    /// The pool record of `market`, if the market has one.
    pub fn liquidity_pool(&self, market: Market) -> (r: Option<MarketInfo>)
        ensures
            r == self.pool_of(market),
    {
        match self.find_pool(market.0, market.1) {
            Some(i) => Some(self.pools[i].2),
            None => None,
        }
    }

    /// The recorded contribution of `who` in `market`.
    pub fn liq_provision_pool(&self, market: Market, who: AccountId) -> (r: (Balance, Balance))
        ensures
            r == self.position_of(market, who),
    {
        match self.find_position(market.0, market.1, who) {
            Some(i) => (self.positions[i].3, self.positions[i].4),
            None => (0, 0),
        }
    }

    /// The balance of `who` in `asset`, read from the ledger.
    pub fn balance(&self, asset_id: AssetId, who: AccountId) -> (r: Balance)
        ensures
            r == self.bal(asset_id, who),
    {
        self.ledger.balance_of(asset_id, who)
    }

    /// The custody account holding the pooled reserves.
    pub fn pool_account(&self) -> (r: AccountId)
        ensures
            r == self.custody_account,
    {
        self.custody_account
    }

    /// The custody account collecting the taker fees.
    pub fn pool_fee_account(&self) -> (r: AccountId)
        ensures
            r == self.fee_account,
    {
        self.fee_account
    }

    /// The events emitted so far, oldest first.
    pub fn events(&self) -> (r: &Vec<Event>)
        ensures
            r@ == self.events@,
    {
        &self.events
    }

    /// The current price of `market` as the rational number
    /// `quote_reserve / base_reserve`: how much quote asset the pool holds
    /// per unit of base asset. Read-only.
    pub fn current_price(&self, market: Market) -> (r: Result<(Balance, Balance), Error>)
        ensures
            match r {
                Ok(price) => self.pool_of(market) is Some && price == (
                    self.pool_of(market)->Some_0.quote_balance,
                    self.pool_of(market)->Some_0.base_balance,
                ),
                Err(e) => e == Error::MarketDoesNotExist && self.pool_of(market) is None,
            },
    {
        match self.liquidity_pool(market) {
            Some(info) => Ok((info.quote_balance, info.base_balance)),
            None => Err(Error::MarketDoesNotExist),
        }
    }

    /// The taker fee charged on `amount`: `floor(amount * fee_numerator /
    /// fee_denominator)`. Fails with `Arithmetic` exactly when the
    /// multiplication overflows the balance type or the denominator is
    /// zero.
    pub fn fee_from_amount(&self, amount: Balance) -> (r: Result<Balance, Error>)
        ensures
            match r {
                Ok(fee) => fee_ok(
                    amount as int,
                    self.fee_numerator as int,
                    self.fee_denominator as int,
                ) && fee as int == fee_of(
                    amount as int,
                    self.fee_numerator as int,
                    self.fee_denominator as int,
                ),
                Err(e) => e == Error::Arithmetic && !fee_ok(
                    amount as int,
                    self.fee_numerator as int,
                    self.fee_denominator as int,
                ),
            },
    {
        let a = match amount.checked_mul(self.fee_numerator as u128) {
            Some(a) => a,
            None => {
                return Err(Error::Arithmetic);
            },
        };
        match a.checked_div(self.fee_denominator as u128) {
            Some(fee) => Ok(fee),
            None => Err(Error::Arithmetic),
        }
    }

    /// The balance a trade receives: spending `amount` against a pool with
    /// the given reserves, in the direction `buy_or_sell`, returns the
    /// constant-product payout on the fee-deducted amount — see
    /// [`crate::math::receive_amount`]. A zero amount receives zero with no
    /// fee charged. Fails with `Arithmetic` exactly when a checked step of
    /// the formula leaves the balance type's range or divides by zero.
    pub fn get_received_amount(
        &self,
        pool_base_balance: Balance,
        pool_quote_balance: Balance,
        buy_or_sell: OrderType,
        amount: Balance,
    ) -> (r: Result<Balance, Error>)
        ensures
            ({
                let r_in = if buy_or_sell is Buy {
                    pool_quote_balance
                } else {
                    pool_base_balance
                };
                let r_out = if buy_or_sell is Buy {
                    pool_base_balance
                } else {
                    pool_quote_balance
                };
                match r {
                    Ok(v) => (amount == 0 || receive_ok(
                        r_in as int,
                        r_out as int,
                        amount as int,
                        self.fee_numerator as int,
                        self.fee_denominator as int,
                    )) && v as int == receive_amount(
                        r_in as int,
                        r_out as int,
                        amount as int,
                        self.fee_numerator as int,
                        self.fee_denominator as int,
                    ) && v <= r_out,
                    Err(e) => e == Error::Arithmetic && amount != 0 && !receive_ok(
                        r_in as int,
                        r_out as int,
                        amount as int,
                        self.fee_numerator as int,
                        self.fee_denominator as int,
                    ),
                }
            }),
    {
        if amount == 0 {
            return Ok(0);
        }
        proof {
            assert(pool_base_balance as int * pool_quote_balance as int == pool_quote_balance
                as int * pool_base_balance as int) by (nonlinear_arith);
        }
        let pool_k = match pool_base_balance.checked_mul(pool_quote_balance) {
            Some(k) => k,
            None => {
                return Err(Error::Arithmetic);
            },
        };
        let fee_amount = match self.fee_from_amount(amount) {
            Ok(f) => f,
            Err(e) => {
                return Err(e);
            },
        };
        let net = match amount.checked_sub(fee_amount) {
            Some(n) => n,
            None => {
                return Err(Error::Arithmetic);
            },
        };
        match buy_or_sell {
            OrderType::Buy => {
                let new_quote_balance = match pool_quote_balance.checked_add(net) {
                    Some(v) => v,
                    None => {
                        return Err(Error::Arithmetic);
                    },
                };
                let new_base_balance = match pool_k.checked_div(new_quote_balance) {
                    Some(v) => v,
                    None => {
                        return Err(Error::Arithmetic);
                    },
                };
                proof {
                    crate::math::lemma_quotient_le_reserve(
                        pool_quote_balance as int,
                        pool_base_balance as int,
                        net as int,
                    );
                }
                match pool_base_balance.checked_sub(new_base_balance) {
                    Some(v) => Ok(v),
                    None => Err(Error::Arithmetic),
                }
            },
            OrderType::Sell => {
                let new_base_balance = match pool_base_balance.checked_add(net) {
                    Some(v) => v,
                    None => {
                        return Err(Error::Arithmetic);
                    },
                };
                let new_quote_balance = match pool_k.checked_div(new_base_balance) {
                    Some(v) => v,
                    None => {
                        return Err(Error::Arithmetic);
                    },
                };
                proof {
                    crate::math::lemma_quotient_le_reserve(
                        pool_base_balance as int,
                        pool_quote_balance as int,
                        net as int,
                    );
                }
                match pool_quote_balance.checked_sub(new_quote_balance) {
                    Some(v) => Ok(v),
                    None => Err(Error::Arithmetic),
                }
            },
        }
    }

    /// Create the liquidity pool for the market `(base_asset, quote_asset)`,
    /// bootstrapped with the caller's two amounts. Fails with `MarketExists`
    /// when the market already has a pool, `NotEnoughBalance` when the
    /// caller holds less than an amount, and `Transfer` when a custody
    /// transfer cannot be performed; every failure leaves the state
    /// unchanged. On success both amounts move to custody, the pool record
    /// and the caller's liquidity position are created, and a
    /// `PoolCreated` event is emitted.
    pub fn create_market_pool(
        &mut self,
        who: AccountId,
        base_asset: AssetId,
        quote_asset: AssetId,
        base_amount: Balance,
        quote_amount: Balance,
    ) -> (r: Result<(), Error>)
        requires
            old(self).wf(),
        ensures
            final(self).wf(),
            Pallet::same_config(*old(self), *final(self)),
            match r {
                Ok(()) => {
                    &&& old(self).pool_of((base_asset, quote_asset)) is None
                    &&& old(self).bal(base_asset, who) >= base_amount
                    &&& old(self).bal(quote_asset, who) >= quote_amount
                    &&& Some(final(self).ledger@) == deposit_ledger(
                        old(self).ledger@,
                        who,
                        old(self).custody_account,
                        base_asset,
                        quote_asset,
                        base_amount,
                        quote_amount,
                    )
                    &&& final(self).pools@ == old(self).pools@.push(
                        (
                            base_asset,
                            quote_asset,
                            (MarketInfo {
                                base_balance: base_amount,
                                quote_balance: quote_amount,
                                collected_base_fees: 0,
                                collected_quote_fees: 0,
                            }),
                        ),
                    )
                    &&& final(self).positions@ == old(self).positions@.push(
                        (base_asset, quote_asset, who, base_amount, quote_amount),
                    )
                    &&& final(self).pool_of((base_asset, quote_asset)) == Some(
                        MarketInfo {
                            base_balance: base_amount,
                            quote_balance: quote_amount,
                            collected_base_fees: 0,
                            collected_quote_fees: 0,
                        },
                    )
                    &&& forall|m2: Market|
                        m2 != (base_asset, quote_asset) ==> final(self).pool_of(m2) == old(
                            self,
                        ).pool_of(m2)
                    &&& final(self).position_of((base_asset, quote_asset), who) == (
                        base_amount,
                        quote_amount,
                    )
                    &&& forall|m2: Market, w2: AccountId|
                        !(m2 == (base_asset, quote_asset) && w2 == who) ==> final(self).position_of(
                            m2,
                            w2,
                        ) == old(self).position_of(m2, w2)
                    &&& final(self).events@ == old(self).events@.push(
                        Event::PoolCreated(who, base_asset, quote_asset, base_amount, quote_amount),
                    )
                },
                Err(e) => {
                    &&& *final(self) == *old(self)
                    &&& (e == Error::MarketExists || e == Error::NotEnoughBalance || e
                        == Error::Transfer)
                    &&& (e == Error::MarketExists <==> old(self).pool_of(
                        (base_asset, quote_asset),
                    ) is Some)
                    &&& (e == Error::NotEnoughBalance <==> old(self).pool_of(
                        (base_asset, quote_asset),
                    ) is None && (old(self).bal(base_asset, who) < base_amount || old(self).bal(
                        quote_asset,
                        who,
                    ) < quote_amount))
                    &&& (e == Error::Transfer <==> old(self).pool_of((base_asset, quote_asset)) is None
                        && old(self).bal(base_asset, who) >= base_amount && old(self).bal(
                        quote_asset,
                        who,
                    ) >= quote_amount && deposit_ledger(
                        old(self).ledger@,
                        who,
                        old(self).custody_account,
                        base_asset,
                        quote_asset,
                        base_amount,
                        quote_amount,
                    ) is None)
                },
            },
    {
        if self.find_pool(base_asset, quote_asset).is_some() {
            return Err(Error::MarketExists);
        }
        let base_balance = self.ledger.balance_of(base_asset, who);
        if base_balance < base_amount {
            return Err(Error::NotEnoughBalance);
        }
        let quote_balance = self.ledger.balance_of(quote_asset, who);
        if quote_balance < quote_amount {
            return Err(Error::NotEnoughBalance);
        }
        let mut led = self.ledger.duplicate();
        if led.transfer(base_asset, who, self.custody_account, base_amount).is_err() {
            return Err(Error::Transfer);
        }
        if led.transfer(quote_asset, who, self.custody_account, quote_amount).is_err() {
            return Err(Error::Transfer);
        }
        let ghost old_pools = self.pools@;
        let ghost old_positions = self.positions@;
        self.ledger = led;
        self.pools.push(
            (
                base_asset,
                quote_asset,
                MarketInfo {
                    base_balance: base_amount,
                    quote_balance: quote_amount,
                    collected_base_fees: 0,
                    collected_quote_fees: 0,
                },
            ),
        );
        proof {
            // The market had no pool, so the well-formedness invariant rules
            // out any provision entry for it.
            assert(forall|k: int|
                0 <= k < old_positions.len() ==> !(old_positions[k].0 == base_asset
                    && old_positions[k].1 == quote_asset)) by {
                assert(forall|k: int|
                    0 <= k < old_positions.len() ==> pool_lookup(
                        old_pools,
                        old_positions[k].0,
                        old_positions[k].1,
                    ) is Some);
            }
            lemma_pool_push(
                old_pools,
                base_asset,
                quote_asset,
                MarketInfo {
                    base_balance: base_amount,
                    quote_balance: quote_amount,
                    collected_base_fees: 0,
                    collected_quote_fees: 0,
                },
            );
            assert(unique_pool_keys(self.pools@)) by {
                assert(forall|p: int, q: int|
                    0 <= p < q < self.pools@.len() && q < old_pools.len() ==> !(self.pools@[p].0
                        == self.pools@[q].0 && self.pools@[p].1 == self.pools@[q].1));
            }
        }
        self.positions.push((base_asset, quote_asset, who, base_amount, quote_amount));
        proof {
            lemma_position_push(
                old_positions,
                base_asset,
                quote_asset,
                who,
                base_amount,
                quote_amount,
            );
            assert(unique_position_keys(self.positions@)) by {
                assert(forall|p: int, q: int|
                    0 <= p < q < self.positions@.len() && q < old_positions.len() ==> !(
                    self.positions@[p].0 == self.positions@[q].0 && self.positions@[p].1
                        == self.positions@[q].1 && self.positions@[p].2 == self.positions@[q].2));
            }
        }
        self.events.push(
            Event::PoolCreated(who, base_asset, quote_asset, base_amount, quote_amount),
        );
        Ok(())
    }

    /// Add liquidity to an existing pool: both amounts move from the caller
    /// to custody, the pool's reserves and the caller's recorded position
    /// grow by the same amounts, and a `LiquidityAdded` event is emitted.
    /// Fails with `MarketDoesNotExist` when the market has no pool,
    /// `NotEnoughBalance` when the caller holds less than an amount,
    /// `Arithmetic` when a reserve or the position would leave the balance
    /// type's range, and `Transfer` when a custody transfer cannot be
    /// performed; every failure leaves the state unchanged.
    pub fn deposit_liquidity(
        &mut self,
        who: AccountId,
        market: Market,
        base_amount: Balance,
        quote_amount: Balance,
    ) -> (r: Result<(), Error>)
        requires
            old(self).wf(),
        ensures
            final(self).wf(),
            Pallet::same_config(*old(self), *final(self)),
            match r {
                Ok(()) => ({
                    let info = old(self).pool_of(market)->Some_0;
                    let pos = old(self).position_of(market, who);
                    &&& old(self).pool_of(market) is Some
                    &&& old(self).bal(market.0, who) >= base_amount
                    &&& old(self).bal(market.1, who) >= quote_amount
                    &&& info.base_balance + base_amount <= u128::MAX
                    &&& info.quote_balance + quote_amount <= u128::MAX
                    &&& pos.0 + base_amount <= u128::MAX
                    &&& pos.1 + quote_amount <= u128::MAX
                    &&& Some(final(self).ledger@) == deposit_ledger(
                        old(self).ledger@,
                        who,
                        old(self).custody_account,
                        market.0,
                        market.1,
                        base_amount,
                        quote_amount,
                    )
                    &&& exists|i: int|
                        0 <= i < old(self).pools@.len() && old(self).pools@[i].0 == market.0 && old(
                            self,
                        ).pools@[i].1 == market.1 && final(self).pools@ == old(self).pools@.update(
                            i,
                            (
                                market.0,
                                market.1,
                                (MarketInfo {
                                    base_balance: (info.base_balance + base_amount) as Balance,
                                    quote_balance: (info.quote_balance + quote_amount) as Balance,
                                    collected_base_fees: info.collected_base_fees,
                                    collected_quote_fees: info.collected_quote_fees,
                                }),
                            ),
                        )
                    &&& final(self).pool_of(market) == Some(
                        MarketInfo {
                            base_balance: (info.base_balance + base_amount) as Balance,
                            quote_balance: (info.quote_balance + quote_amount) as Balance,
                            collected_base_fees: info.collected_base_fees,
                            collected_quote_fees: info.collected_quote_fees,
                        },
                    )
                    &&& forall|m2: Market|
                        m2 != market ==> final(self).pool_of(m2) == old(self).pool_of(m2)
                    &&& (if has_position(old(self).positions@, market.0, market.1, who) {
                        exists|i: int|
                            0 <= i < old(self).positions@.len() && old(self).positions@[i].0
                                == market.0 && old(self).positions@[i].1 == market.1 && old(
                                self,
                            ).positions@[i].2 == who && final(self).positions@ == old(
                                self,
                            ).positions@.update(
                                i,
                                (
                                    market.0,
                                    market.1,
                                    who,
                                    (pos.0 + base_amount) as Balance,
                                    (pos.1 + quote_amount) as Balance,
                                ),
                            )
                    } else {
                        final(self).positions@ == old(self).positions@.push(
                            (
                                market.0,
                                market.1,
                                who,
                                (pos.0 + base_amount) as Balance,
                                (pos.1 + quote_amount) as Balance,
                            ),
                        )
                    })
                    &&& final(self).position_of(market, who) == (
                        (pos.0 + base_amount) as Balance,
                        (pos.1 + quote_amount) as Balance,
                    )
                    &&& forall|m2: Market, w2: AccountId|
                        !(m2 == market && w2 == who) ==> final(self).position_of(m2, w2) == old(
                            self,
                        ).position_of(m2, w2)
                    &&& final(self).events@ == old(self).events@.push(
                        Event::LiquidityAdded(who, market.0, market.1, base_amount, quote_amount),
                    )
                }),
                Err(e) => ({
                    let info = old(self).pool_of(market)->Some_0;
                    let pos = old(self).position_of(market, who);
                    let c_pool = old(self).pool_of(market) is Some;
                    let c_funds = old(self).bal(market.0, who) >= base_amount && old(self).bal(
                        market.1,
                        who,
                    ) >= quote_amount;
                    let c_reserves = info.base_balance + base_amount <= u128::MAX
                        && info.quote_balance + quote_amount <= u128::MAX;
                    let c_chain = deposit_ledger(
                        old(self).ledger@,
                        who,
                        old(self).custody_account,
                        market.0,
                        market.1,
                        base_amount,
                        quote_amount,
                    ) is Some;
                    let c_pos = pos.0 + base_amount <= u128::MAX && pos.1 + quote_amount
                        <= u128::MAX;
                    &&& *final(self) == *old(self)
                    &&& (e == Error::MarketDoesNotExist || e == Error::NotEnoughBalance || e
                        == Error::Arithmetic || e == Error::Transfer)
                    &&& (e == Error::MarketDoesNotExist <==> !c_pool)
                    &&& (e == Error::NotEnoughBalance <==> c_pool && !c_funds)
                    &&& (e == Error::Arithmetic <==> c_pool && c_funds && (!c_reserves || (
                    c_reserves && c_chain && !c_pos)))
                    &&& (e == Error::Transfer <==> c_pool && c_funds && c_reserves && !c_chain)
                }),
            },
    {
        let (base_asset, quote_asset) = market;
        let i = match self.find_pool(base_asset, quote_asset) {
            Some(i) => i,
            None => {
                return Err(Error::MarketDoesNotExist);
            },
        };
        let info = self.pools[i].2;
        let base_balance = self.ledger.balance_of(base_asset, who);
        if base_balance < base_amount {
            return Err(Error::NotEnoughBalance);
        }
        let quote_balance = self.ledger.balance_of(quote_asset, who);
        if quote_balance < quote_amount {
            return Err(Error::NotEnoughBalance);
        }
        let new_base_reserve = match info.base_balance.checked_add(base_amount) {
            Some(v) => v,
            None => {
                return Err(Error::Arithmetic);
            },
        };
        let new_quote_reserve = match info.quote_balance.checked_add(quote_amount) {
            Some(v) => v,
            None => {
                return Err(Error::Arithmetic);
            },
        };
        let mut led = self.ledger.duplicate();
        if led.transfer(base_asset, who, self.custody_account, base_amount).is_err() {
            return Err(Error::Transfer);
        }
        if led.transfer(quote_asset, who, self.custody_account, quote_amount).is_err() {
            return Err(Error::Transfer);
        }
        let posidx = self.find_position(base_asset, quote_asset, who);
        let (pb, pq) = match posidx {
            Some(k) => (self.positions[k].3, self.positions[k].4),
            None => (0, 0),
        };
        let new_pb = match pb.checked_add(base_amount) {
            Some(v) => v,
            None => {
                return Err(Error::Arithmetic);
            },
        };
        let new_pq = match pq.checked_add(quote_amount) {
            Some(v) => v,
            None => {
                return Err(Error::Arithmetic);
            },
        };
        let ghost old_pools = self.pools@;
        let ghost old_positions = self.positions@;
        self.ledger = led;
        let new_info = MarketInfo {
            base_balance: new_base_reserve,
            quote_balance: new_quote_reserve,
            collected_base_fees: info.collected_base_fees,
            collected_quote_fees: info.collected_quote_fees,
        };
        self.pools[i] = (base_asset, quote_asset, new_info);
        proof {
            lemma_pool_update(old_pools, i as int, new_info);
        }
        match posidx {
            Some(k) => {
                self.positions[k] = (base_asset, quote_asset, who, new_pb, new_pq);
                proof {
                    lemma_position_update(old_positions, k as int, new_pb, new_pq);
                    assert(has_position(old_positions, base_asset, quote_asset, who));
                }
            },
            None => {
                self.positions.push((base_asset, quote_asset, who, new_pb, new_pq));
                proof {
                    lemma_position_push(
                        old_positions,
                        base_asset,
                        quote_asset,
                        who,
                        new_pb,
                        new_pq,
                    );
                    assert(!has_position(old_positions, base_asset, quote_asset, who));
                    assert(unique_position_keys(self.positions@)) by {
                        assert(forall|p: int, q: int|
                            0 <= p < q < self.positions@.len() && q < old_positions.len() ==> !(
                            self.positions@[p].0 == self.positions@[q].0 && self.positions@[p].1
                                == self.positions@[q].1 && self.positions@[p].2
                                == self.positions@[q].2));
                    }
                }
            },
        }
        self.events.push(
            Event::LiquidityAdded(who, base_asset, quote_asset, base_amount, quote_amount),
        );
        Ok(())
    }

    /// Withdraw liquidity from a pool: both amounts move from custody back
    /// to the caller, the caller's recorded position and the pool's
    /// reserves shrink by the same amounts, and a `LiquidityWithdrawn`
    /// event is emitted. Fails with `MarketDoesNotExist` when the market
    /// has no pool, `NotEnoughBalance` when the caller's recorded position
    /// holds less than an amount, `Arithmetic` when a pool reserve holds
    /// less than an amount, and `Transfer` when a custody transfer cannot
    /// be performed; every failure leaves the state unchanged.
    pub fn withdraw_liquidity(
        &mut self,
        who: AccountId,
        market: Market,
        base_amount: Balance,
        quote_amount: Balance,
    ) -> (r: Result<(), Error>)
        requires
            old(self).wf(),
        ensures
            final(self).wf(),
            Pallet::same_config(*old(self), *final(self)),
            match r {
                Ok(()) => ({
                    let info = old(self).pool_of(market)->Some_0;
                    let pos = old(self).position_of(market, who);
                    &&& old(self).pool_of(market) is Some
                    &&& pos.0 >= base_amount && pos.1 >= quote_amount
                    &&& info.base_balance >= base_amount && info.quote_balance >= quote_amount
                    &&& Some(final(self).ledger@) == withdraw_ledger(
                        old(self).ledger@,
                        who,
                        old(self).custody_account,
                        market.0,
                        market.1,
                        base_amount,
                        quote_amount,
                    )
                    &&& exists|i: int|
                        0 <= i < old(self).pools@.len() && old(self).pools@[i].0 == market.0 && old(
                            self,
                        ).pools@[i].1 == market.1 && final(self).pools@ == old(self).pools@.update(
                            i,
                            (
                                market.0,
                                market.1,
                                (MarketInfo {
                                    base_balance: (info.base_balance - base_amount) as Balance,
                                    quote_balance: (info.quote_balance - quote_amount) as Balance,
                                    collected_base_fees: info.collected_base_fees,
                                    collected_quote_fees: info.collected_quote_fees,
                                }),
                            ),
                        )
                    &&& final(self).pool_of(market) == Some(
                        MarketInfo {
                            base_balance: (info.base_balance - base_amount) as Balance,
                            quote_balance: (info.quote_balance - quote_amount) as Balance,
                            collected_base_fees: info.collected_base_fees,
                            collected_quote_fees: info.collected_quote_fees,
                        },
                    )
                    &&& forall|m2: Market|
                        m2 != market ==> final(self).pool_of(m2) == old(self).pool_of(m2)
                    &&& (if has_position(old(self).positions@, market.0, market.1, who) {
                        exists|i: int|
                            0 <= i < old(self).positions@.len() && old(self).positions@[i].0
                                == market.0 && old(self).positions@[i].1 == market.1 && old(
                                self,
                            ).positions@[i].2 == who && final(self).positions@ == old(
                                self,
                            ).positions@.update(
                                i,
                                (
                                    market.0,
                                    market.1,
                                    who,
                                    (pos.0 - base_amount) as Balance,
                                    (pos.1 - quote_amount) as Balance,
                                ),
                            )
                    } else {
                        final(self).positions@ == old(self).positions@.push(
                            (
                                market.0,
                                market.1,
                                who,
                                (pos.0 - base_amount) as Balance,
                                (pos.1 - quote_amount) as Balance,
                            ),
                        )
                    })
                    &&& final(self).position_of(market, who) == (
                        (pos.0 - base_amount) as Balance,
                        (pos.1 - quote_amount) as Balance,
                    )
                    &&& forall|m2: Market, w2: AccountId|
                        !(m2 == market && w2 == who) ==> final(self).position_of(m2, w2) == old(
                            self,
                        ).position_of(m2, w2)
                    &&& final(self).events@ == old(self).events@.push(
                        Event::LiquidityWithdrawn(
                            who,
                            market.0,
                            market.1,
                            base_amount,
                            quote_amount,
                        ),
                    )
                }),
                Err(e) => ({
                    let info = old(self).pool_of(market)->Some_0;
                    let pos = old(self).position_of(market, who);
                    let c_pool = old(self).pool_of(market) is Some;
                    let c_position = pos.0 >= base_amount && pos.1 >= quote_amount;
                    let c_reserves = info.base_balance >= base_amount && info.quote_balance
                        >= quote_amount;
                    let c_chain = withdraw_ledger(
                        old(self).ledger@,
                        who,
                        old(self).custody_account,
                        market.0,
                        market.1,
                        base_amount,
                        quote_amount,
                    ) is Some;
                    &&& *final(self) == *old(self)
                    &&& (e == Error::MarketDoesNotExist || e == Error::NotEnoughBalance || e
                        == Error::Arithmetic || e == Error::Transfer)
                    &&& (e == Error::MarketDoesNotExist <==> !c_pool)
                    &&& (e == Error::NotEnoughBalance <==> c_pool && !c_position)
                    &&& (e == Error::Arithmetic <==> c_pool && c_position && !c_reserves)
                    &&& (e == Error::Transfer <==> c_pool && c_position && c_reserves && !c_chain)
                }),
            },
    {
        let (base_asset, quote_asset) = market;
        let i = match self.find_pool(base_asset, quote_asset) {
            Some(i) => i,
            None => {
                return Err(Error::MarketDoesNotExist);
            },
        };
        let info = self.pools[i].2;
        let posidx = self.find_position(base_asset, quote_asset, who);
        let (pb, pq) = match posidx {
            Some(k) => (self.positions[k].3, self.positions[k].4),
            None => (0, 0),
        };
        if pb < base_amount {
            return Err(Error::NotEnoughBalance);
        }
        if pq < quote_amount {
            return Err(Error::NotEnoughBalance);
        }
        let new_base_reserve = match info.base_balance.checked_sub(base_amount) {
            Some(v) => v,
            None => {
                return Err(Error::Arithmetic);
            },
        };
        let new_quote_reserve = match info.quote_balance.checked_sub(quote_amount) {
            Some(v) => v,
            None => {
                return Err(Error::Arithmetic);
            },
        };
        let mut led = self.ledger.duplicate();
        if led.transfer(base_asset, self.custody_account, who, base_amount).is_err() {
            return Err(Error::Transfer);
        }
        if led.transfer(quote_asset, self.custody_account, who, quote_amount).is_err() {
            return Err(Error::Transfer);
        }
        let ghost old_pools = self.pools@;
        let ghost old_positions = self.positions@;
        self.ledger = led;
        let new_info = MarketInfo {
            base_balance: new_base_reserve,
            quote_balance: new_quote_reserve,
            collected_base_fees: info.collected_base_fees,
            collected_quote_fees: info.collected_quote_fees,
        };
        self.pools[i] = (base_asset, quote_asset, new_info);
        proof {
            lemma_pool_update(old_pools, i as int, new_info);
        }
        match posidx {
            Some(k) => {
                self.positions[k] = (base_asset, quote_asset, who, pb - base_amount, pq - quote_amount);
                proof {
                    lemma_position_update(
                        old_positions,
                        k as int,
                        (pb - base_amount) as Balance,
                        (pq - quote_amount) as Balance,
                    );
                    assert(has_position(old_positions, base_asset, quote_asset, who));
                }
            },
            None => {
                self.positions.push(
                    (base_asset, quote_asset, who, pb - base_amount, pq - quote_amount),
                );
                proof {
                    lemma_position_push(
                        old_positions,
                        base_asset,
                        quote_asset,
                        who,
                        (pb - base_amount) as Balance,
                        (pq - quote_amount) as Balance,
                    );
                    assert(!has_position(old_positions, base_asset, quote_asset, who));
                    assert(unique_position_keys(self.positions@)) by {
                        assert(forall|p: int, q: int|
                            0 <= p < q < self.positions@.len() && q < old_positions.len() ==> !(
                            self.positions@[p].0 == self.positions@[q].0 && self.positions@[p].1
                                == self.positions@[q].1 && self.positions@[p].2
                                == self.positions@[q].2));
                    }
                }
            },
        }
        self.events.push(
            Event::LiquidityWithdrawn(who, base_asset, quote_asset, base_amount, quote_amount),
        );
        Ok(())
    }

    /// Buy the base asset of `market`, spending `quote_amount` of the quote
    /// asset. The taker fee is deducted from the spent amount and moves to
    /// the fee account; the rest enters the pool's quote reserve; the
    /// constant-product payout leaves the pool's base reserve for the
    /// caller; the fee is added to the pool's collected quote fees; a
    /// `Bought` event is emitted. Fails with `MarketDoesNotExist` when the
    /// market has no pool, `NotEnoughBalance` when the caller's quote
    /// balance is below `quote_amount`, `Arithmetic` when a checked numeric
    /// step leaves the balance type's range, and `Transfer` when one of the
    /// three transfers cannot be performed; every failure leaves the state
    /// unchanged.
    pub fn buy(&mut self, who: AccountId, market: Market, quote_amount: Balance) -> (r: Result<
        (),
        Error,
    >)
        requires
            old(self).wf(),
        ensures
            final(self).wf(),
            Pallet::same_config(*old(self), *final(self)),
            match r {
                Ok(()) => ({
                    let info = old(self).pool_of(market)->Some_0;
                    let num = old(self).fee_numerator as int;
                    let den = old(self).fee_denominator as int;
                    let fee = fee_of(quote_amount as int, num, den);
                    let deposit = (quote_amount - fee) as Balance;
                    let receive = receive_amount(
                        info.quote_balance as int,
                        info.base_balance as int,
                        quote_amount as int,
                        num,
                        den,
                    ) as Balance;
                    &&& old(self).pool_of(market) is Some
                    &&& old(self).bal(market.1, who) >= quote_amount
                    &&& (quote_amount == 0 || receive_ok(
                        info.quote_balance as int,
                        info.base_balance as int,
                        quote_amount as int,
                        num,
                        den,
                    ))
                    &&& fee_ok(quote_amount as int, num, den)
                    &&& info.collected_quote_fees + fee <= u128::MAX
                    &&& Some(final(self).ledger@) == trade_ledger(
                        old(self).ledger@,
                        who,
                        old(self).custody_account,
                        old(self).fee_account,
                        market.1,
                        market.0,
                        deposit,
                        receive,
                        fee as Balance,
                    )
                    &&& exists|i: int|
                        0 <= i < old(self).pools@.len() && old(self).pools@[i].0 == market.0 && old(
                            self,
                        ).pools@[i].1 == market.1 && final(self).pools@ == old(self).pools@.update(
                            i,
                            (
                                market.0,
                                market.1,
                                (MarketInfo {
                                    base_balance: (info.base_balance - receive) as Balance,
                                    quote_balance: (info.quote_balance + deposit) as Balance,
                                    collected_base_fees: info.collected_base_fees,
                                    collected_quote_fees: (info.collected_quote_fees
                                        + fee) as Balance,
                                }),
                            ),
                        )
                    &&& final(self).pool_of(market) == Some(
                        MarketInfo {
                            base_balance: (info.base_balance - receive) as Balance,
                            quote_balance: (info.quote_balance + deposit) as Balance,
                            collected_base_fees: info.collected_base_fees,
                            collected_quote_fees: (info.collected_quote_fees + fee) as Balance,
                        },
                    )
                    &&& forall|m2: Market|
                        m2 != market ==> final(self).pool_of(m2) == old(self).pool_of(m2)
                    &&& final(self).positions@ == old(self).positions@
                    &&& final(self).events@ == old(self).events@.push(
                        Event::Bought(who, market.0, market.1, quote_amount, receive),
                    )
                }),
                Err(e) => ({
                    let info = old(self).pool_of(market)->Some_0;
                    let num = old(self).fee_numerator as int;
                    let den = old(self).fee_denominator as int;
                    let fee = fee_of(quote_amount as int, num, den);
                    let c_pool = old(self).pool_of(market) is Some;
                    let c_funds = old(self).bal(market.1, who) >= quote_amount;
                    let c_engine = (quote_amount == 0 || receive_ok(
                        info.quote_balance as int,
                        info.base_balance as int,
                        quote_amount as int,
                        num,
                        den,
                    )) && fee_ok(quote_amount as int, num, den);
                    let c_chain = trade_ledger(
                        old(self).ledger@,
                        who,
                        old(self).custody_account,
                        old(self).fee_account,
                        market.1,
                        market.0,
                        (quote_amount - fee) as Balance,
                        receive_amount(
                            info.quote_balance as int,
                            info.base_balance as int,
                            quote_amount as int,
                            num,
                            den,
                        ) as Balance,
                        fee as Balance,
                    ) is Some;
                    let c_fees = info.collected_quote_fees + fee <= u128::MAX;
                    &&& *final(self) == *old(self)
                    &&& (e == Error::MarketDoesNotExist || e == Error::NotEnoughBalance || e
                        == Error::Arithmetic || e == Error::Transfer)
                    &&& (e == Error::MarketDoesNotExist <==> !c_pool)
                    &&& (e == Error::NotEnoughBalance <==> c_pool && !c_funds)
                    &&& (e == Error::Arithmetic <==> c_pool && c_funds && (!c_engine || (c_engine
                        && c_chain && !c_fees)))
                    &&& (e == Error::Transfer <==> c_pool && c_funds && c_engine && !c_chain)
                }),
            },
    {
        let (base_asset, quote_asset) = market;
        let i = match self.find_pool(base_asset, quote_asset) {
            Some(i) => i,
            None => {
                return Err(Error::MarketDoesNotExist);
            },
        };
        let info = self.pools[i].2;
        let quote_balance = self.ledger.balance_of(quote_asset, who);
        if quote_balance < quote_amount {
            return Err(Error::NotEnoughBalance);
        }
        let receive = match self.get_received_amount(
            info.base_balance,
            info.quote_balance,
            OrderType::Buy,
            quote_amount,
        ) {
            Ok(v) => v,
            Err(e) => {
                return Err(e);
            },
        };
        let fee_quote = match self.fee_from_amount(quote_amount) {
            Ok(f) => f,
            Err(e) => {
                return Err(e);
            },
        };
        proof {
            if quote_amount == 0 {
                vstd::arithmetic::div_mod::lemma_div_of0(self.fee_denominator as int);
            }
        }
        let deposit_amount = quote_amount - fee_quote;
        let mut led = self.ledger.duplicate();
        if led.transfer(quote_asset, who, self.custody_account, deposit_amount).is_err() {
            return Err(Error::Transfer);
        }
        if led.transfer(base_asset, self.custody_account, who, receive).is_err() {
            return Err(Error::Transfer);
        }
        if led.transfer(quote_asset, who, self.fee_account, fee_quote).is_err() {
            return Err(Error::Transfer);
        }
        let new_fees = match info.collected_quote_fees.checked_add(fee_quote) {
            Some(v) => v,
            None => {
                return Err(Error::Arithmetic);
            },
        };
        proof {
            if quote_amount != 0 {
                crate::math::lemma_quotient_le_reserve(
                    info.quote_balance as int,
                    info.base_balance as int,
                    (quote_amount - fee_quote) as int,
                );
            }
        }
        let new_base_reserve = info.base_balance - receive;
        let new_quote_reserve = info.quote_balance + deposit_amount;
        let ghost old_pools = self.pools@;
        self.ledger = led;
        let new_info = MarketInfo {
            base_balance: new_base_reserve,
            quote_balance: new_quote_reserve,
            collected_base_fees: info.collected_base_fees,
            collected_quote_fees: new_fees,
        };
        self.pools[i] = (base_asset, quote_asset, new_info);
        proof {
            lemma_pool_update(old_pools, i as int, new_info);
        }
        self.events.push(Event::Bought(who, base_asset, quote_asset, quote_amount, receive));
        Ok(())
    }

    /// Sell the base asset of `market`, spending `base_amount` of it. The
    /// taker fee is deducted from the spent amount and moves to the fee
    /// account; the rest enters the pool's base reserve; the
    /// constant-product payout leaves the pool's quote reserve for the
    /// caller; the fee is added to the pool's collected base fees; a `Sold`
    /// event is emitted. Fails with `MarketDoesNotExist` when the market
    /// has no pool, `NotEnoughBalance` when the caller's base balance is
    /// below `base_amount`, `Arithmetic` when a checked numeric step leaves
    /// the balance type's range, and `Transfer` when one of the three
    /// transfers cannot be performed; every failure leaves the state
    /// unchanged.
    pub fn sell(&mut self, who: AccountId, market: Market, base_amount: Balance) -> (r: Result<
        (),
        Error,
    >)
        requires
            old(self).wf(),
        ensures
            final(self).wf(),
            Pallet::same_config(*old(self), *final(self)),
            match r {
                Ok(()) => ({
                    let info = old(self).pool_of(market)->Some_0;
                    let num = old(self).fee_numerator as int;
                    let den = old(self).fee_denominator as int;
                    let fee = fee_of(base_amount as int, num, den);
                    let deposit = (base_amount - fee) as Balance;
                    let receive = receive_amount(
                        info.base_balance as int,
                        info.quote_balance as int,
                        base_amount as int,
                        num,
                        den,
                    ) as Balance;
                    &&& old(self).pool_of(market) is Some
                    &&& old(self).bal(market.0, who) >= base_amount
                    &&& (base_amount == 0 || receive_ok(
                        info.base_balance as int,
                        info.quote_balance as int,
                        base_amount as int,
                        num,
                        den,
                    ))
                    &&& fee_ok(base_amount as int, num, den)
                    &&& info.collected_base_fees + fee <= u128::MAX
                    &&& Some(final(self).ledger@) == trade_ledger(
                        old(self).ledger@,
                        who,
                        old(self).custody_account,
                        old(self).fee_account,
                        market.0,
                        market.1,
                        deposit,
                        receive,
                        fee as Balance,
                    )
                    &&& exists|i: int|
                        0 <= i < old(self).pools@.len() && old(self).pools@[i].0 == market.0 && old(
                            self,
                        ).pools@[i].1 == market.1 && final(self).pools@ == old(self).pools@.update(
                            i,
                            (
                                market.0,
                                market.1,
                                (MarketInfo {
                                    base_balance: (info.base_balance + deposit) as Balance,
                                    quote_balance: (info.quote_balance - receive) as Balance,
                                    collected_base_fees: (info.collected_base_fees
                                        + fee) as Balance,
                                    collected_quote_fees: info.collected_quote_fees,
                                }),
                            ),
                        )
                    &&& final(self).pool_of(market) == Some(
                        MarketInfo {
                            base_balance: (info.base_balance + deposit) as Balance,
                            quote_balance: (info.quote_balance - receive) as Balance,
                            collected_base_fees: (info.collected_base_fees + fee) as Balance,
                            collected_quote_fees: info.collected_quote_fees,
                        },
                    )
                    &&& forall|m2: Market|
                        m2 != market ==> final(self).pool_of(m2) == old(self).pool_of(m2)
                    &&& final(self).positions@ == old(self).positions@
                    &&& final(self).events@ == old(self).events@.push(
                        Event::Sold(who, market.0, market.1, base_amount, receive),
                    )
                }),
                Err(e) => ({
                    let info = old(self).pool_of(market)->Some_0;
                    let num = old(self).fee_numerator as int;
                    let den = old(self).fee_denominator as int;
                    let fee = fee_of(base_amount as int, num, den);
                    let c_pool = old(self).pool_of(market) is Some;
                    let c_funds = old(self).bal(market.0, who) >= base_amount;
                    let c_engine = (base_amount == 0 || receive_ok(
                        info.base_balance as int,
                        info.quote_balance as int,
                        base_amount as int,
                        num,
                        den,
                    )) && fee_ok(base_amount as int, num, den);
                    let c_chain = trade_ledger(
                        old(self).ledger@,
                        who,
                        old(self).custody_account,
                        old(self).fee_account,
                        market.0,
                        market.1,
                        (base_amount - fee) as Balance,
                        receive_amount(
                            info.base_balance as int,
                            info.quote_balance as int,
                            base_amount as int,
                            num,
                            den,
                        ) as Balance,
                        fee as Balance,
                    ) is Some;
                    let c_fees = info.collected_base_fees + fee <= u128::MAX;
                    &&& *final(self) == *old(self)
                    &&& (e == Error::MarketDoesNotExist || e == Error::NotEnoughBalance || e
                        == Error::Arithmetic || e == Error::Transfer)
                    &&& (e == Error::MarketDoesNotExist <==> !c_pool)
                    &&& (e == Error::NotEnoughBalance <==> c_pool && !c_funds)
                    &&& (e == Error::Arithmetic <==> c_pool && c_funds && (!c_engine || (c_engine
                        && c_chain && !c_fees)))
                    &&& (e == Error::Transfer <==> c_pool && c_funds && c_engine && !c_chain)
                }),
            },
    {
        let (base_asset, quote_asset) = market;
        let i = match self.find_pool(base_asset, quote_asset) {
            Some(i) => i,
            None => {
                return Err(Error::MarketDoesNotExist);
            },
        };
        let info = self.pools[i].2;
        let base_balance = self.ledger.balance_of(base_asset, who);
        if base_balance < base_amount {
            return Err(Error::NotEnoughBalance);
        }
        let receive = match self.get_received_amount(
            info.base_balance,
            info.quote_balance,
            OrderType::Sell,
            base_amount,
        ) {
            Ok(v) => v,
            Err(e) => {
                return Err(e);
            },
        };
        let fee_base = match self.fee_from_amount(base_amount) {
            Ok(f) => f,
            Err(e) => {
                return Err(e);
            },
        };
        proof {
            if base_amount == 0 {
                vstd::arithmetic::div_mod::lemma_div_of0(self.fee_denominator as int);
            }
        }
        let deposit_amount = base_amount - fee_base;
        let mut led = self.ledger.duplicate();
        if led.transfer(base_asset, who, self.custody_account, deposit_amount).is_err() {
            return Err(Error::Transfer);
        }
        if led.transfer(quote_asset, self.custody_account, who, receive).is_err() {
            return Err(Error::Transfer);
        }
        if led.transfer(base_asset, who, self.fee_account, fee_base).is_err() {
            return Err(Error::Transfer);
        }
        let new_fees = match info.collected_base_fees.checked_add(fee_base) {
            Some(v) => v,
            None => {
                return Err(Error::Arithmetic);
            },
        };
        proof {
            if base_amount != 0 {
                crate::math::lemma_quotient_le_reserve(
                    info.base_balance as int,
                    info.quote_balance as int,
                    (base_amount - fee_base) as int,
                );
            }
        }
        let new_base_reserve = info.base_balance + deposit_amount;
        let new_quote_reserve = info.quote_balance - receive;
        let ghost old_pools = self.pools@;
        self.ledger = led;
        let new_info = MarketInfo {
            base_balance: new_base_reserve,
            quote_balance: new_quote_reserve,
            collected_base_fees: new_fees,
            collected_quote_fees: info.collected_quote_fees,
        };
        self.pools[i] = (base_asset, quote_asset, new_info);
        proof {
            lemma_pool_update(old_pools, i as int, new_info);
        }
        self.events.push(Event::Sold(who, base_asset, quote_asset, base_amount, receive));
        Ok(())
    }
}

} // verus!
