//! The fee distributor: the periodic payout of collected taker fees to
//! liquidity providers.
//!
//! One run walks the pool registry in order. A market whose collected fees
//! are both zero is skipped. For every other market, every provision entry
//! of that market is visited in order; a provider who contributed to a side
//! is paid the proportional share `floor(collected_fees * contribution /
//! reserve)` of that side's asset out of the fee account. After a run in
//! which every payout succeeded, every market's collected-fee counters are
//! reset to zero.
//!
//! A run is all-or-nothing: if any payout step fails — a zero reserve or an
//! oversized product (`Arithmetic`), or a fee-account balance that cannot
//! cover a payout (`Transfer`) — the whole run fails and no state changes,
//! so no provider's owed fees are ever dropped by a partial run.
//!
//! The spec functions below are the mathematical model of a run: they
//! thread the balance map through every payout in the same order and stop
//! at the first failure, so the executable code is proved to pay exactly
//! these amounts to exactly these providers.

use crate::ledger::{spec_transfer, BalanceMap};
use crate::pallet::{pool_lookup, unique_pool_keys, Pallet, PoolEntry, PositionEntry};
use crate::types::{AccountId, AssetId, Balance, Error, MarketInfo};
use vstd::prelude::*;

verus! {

/// Pay one side of one provision entry: nothing when the provider
/// contributed nothing to that side; otherwise move the proportional share
/// `floor(fees * contribution / reserve)` of `asset` from the fee account
/// to the provider. Fails with `Arithmetic` when the product overflows the
/// balance type or the reserve is zero, and with `Transfer` when the fee
/// account cannot cover the payout.
pub open spec fn pay_side(
    m: BalanceMap,
    fee_account: AccountId,
    who: AccountId,
    asset: AssetId,
    fees: Balance,
    contribution: Balance,
    reserve: Balance,
) -> Result<BalanceMap, Error> {
    if contribution == 0 {
        Ok(m)
    } else if fees * contribution > u128::MAX {
        Err(Error::Arithmetic)
    } else if reserve == 0 {
        Err(Error::Arithmetic)
    } else {
        match spec_transfer(
            m,
            asset,
            fee_account,
            who,
            ((fees * contribution) / (reserve as int)) as Balance,
        ) {
            Some(m1) => Ok(m1),
            None => Err(Error::Transfer),
        }
    }
}

/// Pay both sides of one provision entry: the base side, then the quote
/// side.
pub open spec fn pay_provider(
    m: BalanceMap,
    fee_account: AccountId,
    info: MarketInfo,
    e: PositionEntry,
) -> Result<BalanceMap, Error> {
    match pay_side(m, fee_account, e.2, e.0, info.collected_base_fees, e.3, info.base_balance) {
        Ok(m1) => pay_side(
            m1,
            fee_account,
            e.2,
            e.1,
            info.collected_quote_fees,
            e.4,
            info.quote_balance,
        ),
        Err(err) => Err(err),
    }
}

/// Pay every provider of the market `(base, quote)` among the provision
/// entries from index `i` on, in order, stopping at the first failure.
pub open spec fn pay_market_from(
    m: BalanceMap,
    fee_account: AccountId,
    base: AssetId,
    quote: AssetId,
    info: MarketInfo,
    positions: Seq<PositionEntry>,
    i: int,
) -> Result<BalanceMap, Error>
    decreases positions.len() - i,
{
    if i < 0 || i >= positions.len() {
        Ok(m)
    } else if !(positions[i].0 == base && positions[i].1 == quote) {
        pay_market_from(m, fee_account, base, quote, info, positions, i + 1)
    } else {
        match pay_provider(m, fee_account, info, positions[i]) {
            Ok(m1) => pay_market_from(m1, fee_account, base, quote, info, positions, i + 1),
            Err(err) => Err(err),
        }
    }
}

/// Run the payout over the pool registry from entry `j` on: markets whose
/// collected fees are both zero are skipped, every other market's
/// providers are paid in order, and the run stops at the first failure.
pub open spec fn run_payout_from(
    m: BalanceMap,
    fee_account: AccountId,
    pools: Seq<PoolEntry>,
    positions: Seq<PositionEntry>,
    j: int,
) -> Result<BalanceMap, Error>
    decreases pools.len() - j,
{
    if j < 0 || j >= pools.len() {
        Ok(m)
    } else if pools[j].2.collected_base_fees == 0 && pools[j].2.collected_quote_fees == 0 {
        run_payout_from(m, fee_account, pools, positions, j + 1)
    } else {
        match pay_market_from(m, fee_account, pools[j].0, pools[j].1, pools[j].2, positions, 0) {
            Ok(m1) => run_payout_from(m1, fee_account, pools, positions, j + 1),
            Err(err) => Err(err),
        }
    }
}

/// A pool record with its collected-fee counters reset.
pub open spec fn reset_fees(info: MarketInfo) -> MarketInfo {
    MarketInfo {
        base_balance: info.base_balance,
        quote_balance: info.quote_balance,
        collected_base_fees: 0,
        collected_quote_fees: 0,
    }
}

/// Two registries with the same market keys, entry by entry, have pools
/// for the same markets.
proof fn lemma_same_keys_lookup_some(s: Seq<PoolEntry>, t: Seq<PoolEntry>)
    requires
        t.len() == s.len(),
        forall|idx: int| 0 <= idx < s.len() ==> t[idx].0 == s[idx].0 && t[idx].1 == s[idx].1,
    ensures
        forall|b: AssetId, q: AssetId|
            pool_lookup(t, b, q) is Some <==> pool_lookup(s, b, q) is Some,
    decreases s.len(),
{
    if s.len() > 0 {
        let srest = s.drop_first();
        let trest = t.drop_first();
        assert(forall|idx: int|
            0 <= idx < srest.len() ==> trest[idx].0 == srest[idx].0 && trest[idx].1
                == srest[idx].1) by {
            assert(forall|idx: int|
                0 <= idx < srest.len() ==> srest[idx] == s[idx + 1] && trest[idx] == t[idx + 1]);
        }
        lemma_same_keys_lookup_some(srest, trest);
        assert forall|b: AssetId, q: AssetId|
            pool_lookup(t, b, q) is Some <==> pool_lookup(s, b, q) is Some by {
            if s[0].0 == b && s[0].1 == q {
            } else {
                assert(pool_lookup(t, b, q) == pool_lookup(trest, b, q));
                assert(pool_lookup(s, b, q) == pool_lookup(srest, b, q));
            }
        }
    }
}

/// A failure while paying provision entry `i` of market `j` is the outcome
/// of the whole run.
proof fn lemma_payout_failure(
    orig: BalanceMap,
    led_j: BalanceMap,
    led_entry: BalanceMap,
    fee_account: AccountId,
    pools: Seq<PoolEntry>,
    positions: Seq<PositionEntry>,
    j: int,
    i: int,
    err: Error,
)
    requires
        0 <= j < pools.len(),
        0 <= i < positions.len(),
        positions[i].0 == pools[j].0 && positions[i].1 == pools[j].1,
        !(pools[j].2.collected_base_fees == 0 && pools[j].2.collected_quote_fees == 0),
        run_payout_from(orig, fee_account, pools, positions, 0) == run_payout_from(
            led_j,
            fee_account,
            pools,
            positions,
            j,
        ),
        pay_market_from(led_j, fee_account, pools[j].0, pools[j].1, pools[j].2, positions, 0)
            == pay_market_from(
            led_entry,
            fee_account,
            pools[j].0,
            pools[j].1,
            pools[j].2,
            positions,
            i,
        ),
        pay_provider(led_entry, fee_account, pools[j].2, positions[i]) == Err::<BalanceMap, Error>(
            err,
        ),
    ensures
        run_payout_from(orig, fee_account, pools, positions, 0) == Err::<BalanceMap, Error>(err),
{
    assert(pay_market_from(led_entry, fee_account, pools[j].0, pools[j].1, pools[j].2, positions, i)
        == Err::<BalanceMap, Error>(err));
    assert(run_payout_from(led_j, fee_account, pools, positions, j) == Err::<BalanceMap, Error>(
        err,
    ));
}

impl Pallet {
    /// Pay out every market's collected fees to its liquidity providers
    /// and reset the collected-fee counters — the model is
    /// [`run_payout_from`]. The run is all-or-nothing: on any failure the
    /// state is unchanged and the error of the first failing step is
    /// returned.
    pub fn do_liquidity_provider_payout(&mut self) -> (r: Result<(), Error>)
        requires
            old(self).wf(),
        ensures
            final(self).wf(),
            Pallet::same_config(*old(self), *final(self)),
            match r {
                Ok(()) => {
                    &&& run_payout_from(
                        old(self).ledger@,
                        old(self).fee_account,
                        old(self).pools@,
                        old(self).positions@,
                        0,
                    ) == Ok::<BalanceMap, Error>(final(self).ledger@)
                    &&& final(self).pools@.len() == old(self).pools@.len()
                    &&& forall|j: int|
                        0 <= j < old(self).pools@.len() ==> final(self).pools@[j] == (
                            old(self).pools@[j].0,
                            old(self).pools@[j].1,
                            reset_fees(old(self).pools@[j].2),
                        )
                    &&& final(self).positions@ == old(self).positions@
                    &&& final(self).events@ == old(self).events@
                },
                Err(e) => {
                    &&& *final(self) == *old(self)
                    &&& run_payout_from(
                        old(self).ledger@,
                        old(self).fee_account,
                        old(self).pools@,
                        old(self).positions@,
                        0,
                    ) == Err::<BalanceMap, Error>(e)
                },
            },
    {
        let ghost orig = self.ledger@;
        let ghost pools0 = self.pools@;
        let ghost positions0 = self.positions@;
        let fee_account = self.fee_account;
        let mut led = self.ledger.duplicate();
        let npools = self.pools.len();
        let npositions = self.positions.len();
        let mut j: usize = 0;
        while j < npools
            invariant
                j <= npools,
                old(self).wf(),
                *self == *old(self),
                orig == old(self).ledger@,
                pools0 == old(self).pools@,
                positions0 == old(self).positions@,
                fee_account == old(self).fee_account,
                npools == self.pools@.len(),
                npositions == self.positions@.len(),
                self.pools@ == pools0,
                self.positions@ == positions0,
                led.wf(),
                run_payout_from(orig, fee_account, pools0, positions0, 0) == run_payout_from(
                    led@,
                    fee_account,
                    pools0,
                    positions0,
                    j as int,
                ),
            decreases npools - j,
        {
            let entry = self.pools[j];
            let base_asset = entry.0;
            let quote_asset = entry.1;
            let info = entry.2;
            let ghost led_j = led@;
            if !(info.collected_base_fees == 0 && info.collected_quote_fees == 0) {
                let mut i: usize = 0;
                while i < npositions
                    invariant
                        i <= npositions,
                        old(self).wf(),
                        *self == *old(self),
                        orig == old(self).ledger@,
                        pools0 == old(self).pools@,
                        positions0 == old(self).positions@,
                        fee_account == old(self).fee_account,
                        npools == self.pools@.len(),
                        npositions == self.positions@.len(),
                        self.pools@ == pools0,
                        self.positions@ == positions0,
                        j < npools,
                        (base_asset, quote_asset, info) == pools0[j as int],
                        !(info.collected_base_fees == 0 && info.collected_quote_fees == 0),
                        led.wf(),
                        run_payout_from(orig, fee_account, pools0, positions0, 0)
                            == run_payout_from(led_j, fee_account, pools0, positions0, j as int),
                        pay_market_from(
                            led_j,
                            fee_account,
                            base_asset,
                            quote_asset,
                            info,
                            positions0,
                            0,
                        ) == pay_market_from(
                            led@,
                            fee_account,
                            base_asset,
                            quote_asset,
                            info,
                            positions0,
                            i as int,
                        ),
                    decreases npositions - i,
                {
                    let e = self.positions[i];
                    if e.0 == base_asset && e.1 == quote_asset {
                        let ghost led_entry = led@;
                        // Base side.
                        if e.3 > 0 {
                            let payout_product = match info.collected_base_fees.checked_mul(e.3) {
                                Some(f) => f,
                                None => {
                                    proof {
                                        lemma_payout_failure(
                                            orig,
                                            led_j,
                                            led_entry,
                                            fee_account,
                                            pools0,
                                            positions0,
                                            j as int,
                                            i as int,
                                            Error::Arithmetic,
                                        );
                                    }
                                    return Err(Error::Arithmetic);
                                },
                            };
                            let payout = match payout_product.checked_div(info.base_balance) {
                                Some(p) => p,
                                None => {
                                    proof {
                                        lemma_payout_failure(
                                            orig,
                                            led_j,
                                            led_entry,
                                            fee_account,
                                            pools0,
                                            positions0,
                                            j as int,
                                            i as int,
                                            Error::Arithmetic,
                                        );
                                    }
                                    return Err(Error::Arithmetic);
                                },
                            };
                            if led.transfer(base_asset, fee_account, e.2, payout).is_err() {
                                proof {
                                    lemma_payout_failure(
                                        orig,
                                        led_j,
                                        led_entry,
                                        fee_account,
                                        pools0,
                                        positions0,
                                        j as int,
                                        i as int,
                                        Error::Transfer,
                                    );
                                }
                                return Err(Error::Transfer);
                            }
                        }
                        proof {
                            assert(pay_side(
                                led_entry,
                                fee_account,
                                e.2,
                                e.0,
                                info.collected_base_fees,
                                e.3,
                                info.base_balance,
                            ) == Ok::<BalanceMap, Error>(led@));
                        }
                        let ghost led_mid = led@;
                        // Quote side.
                        if e.4 > 0 {
                            let payout_product = match info.collected_quote_fees.checked_mul(e.4) {
                                Some(f) => f,
                                None => {
                                    proof {
                                        lemma_payout_failure(
                                            orig,
                                            led_j,
                                            led_entry,
                                            fee_account,
                                            pools0,
                                            positions0,
                                            j as int,
                                            i as int,
                                            Error::Arithmetic,
                                        );
                                    }
                                    return Err(Error::Arithmetic);
                                },
                            };
                            let payout = match payout_product.checked_div(info.quote_balance) {
                                Some(p) => p,
                                None => {
                                    proof {
                                        lemma_payout_failure(
                                            orig,
                                            led_j,
                                            led_entry,
                                            fee_account,
                                            pools0,
                                            positions0,
                                            j as int,
                                            i as int,
                                            Error::Arithmetic,
                                        );
                                    }
                                    return Err(Error::Arithmetic);
                                },
                            };
                            if led.transfer(quote_asset, fee_account, e.2, payout).is_err() {
                                proof {
                                    lemma_payout_failure(
                                        orig,
                                        led_j,
                                        led_entry,
                                        fee_account,
                                        pools0,
                                        positions0,
                                        j as int,
                                        i as int,
                                        Error::Transfer,
                                    );
                                }
                                return Err(Error::Transfer);
                            }
                        }
                        proof {
                            assert(pay_side(
                                led_mid,
                                fee_account,
                                e.2,
                                e.1,
                                info.collected_quote_fees,
                                e.4,
                                info.quote_balance,
                            ) == Ok::<BalanceMap, Error>(led@));
                            assert(pay_provider(led_entry, fee_account, info, e) == Ok::<
                                BalanceMap,
                                Error,
                            >(led@));
                            assert(pay_market_from(
                                led_entry,
                                fee_account,
                                base_asset,
                                quote_asset,
                                info,
                                positions0,
                                i as int,
                            ) == pay_market_from(
                                led@,
                                fee_account,
                                base_asset,
                                quote_asset,
                                info,
                                positions0,
                                i as int + 1,
                            ));
                        }
                    } else {
                        proof {
                            assert(pay_market_from(
                                led@,
                                fee_account,
                                base_asset,
                                quote_asset,
                                info,
                                positions0,
                                i as int,
                            ) == pay_market_from(
                                led@,
                                fee_account,
                                base_asset,
                                quote_asset,
                                info,
                                positions0,
                                i as int + 1,
                            ));
                        }
                    }
                    i = i + 1;
                }
                proof {
                    assert(pay_market_from(
                        led@,
                        fee_account,
                        base_asset,
                        quote_asset,
                        info,
                        positions0,
                        npositions as int,
                    ) == Ok::<BalanceMap, Error>(led@));
                    assert(run_payout_from(led_j, fee_account, pools0, positions0, j as int)
                        == run_payout_from(led@, fee_account, pools0, positions0, j as int + 1));
                }
            } else {
                proof {
                    assert(run_payout_from(led@, fee_account, pools0, positions0, j as int)
                        == run_payout_from(led@, fee_account, pools0, positions0, j as int + 1));
                }
            }
            j = j + 1;
        }
        proof {
            assert(run_payout_from(led@, fee_account, pools0, positions0, npools as int) == Ok::<
                BalanceMap,
                Error,
            >(led@));
        }
        // Every payout succeeded: install the new balances and reset the
        // collected-fee counters.
        self.ledger = led;
        let mut k: usize = 0;
        while k < npools
            invariant
                k <= npools,
                old(self).wf(),
                npools == self.pools@.len(),
                npools == pools0.len(),
                forall|idx: int| k <= idx < npools ==> self.pools@[idx] == pools0[idx],
                forall|idx: int|
                    0 <= idx < k ==> self.pools@[idx] == (
                        pools0[idx].0,
                        pools0[idx].1,
                        reset_fees(pools0[idx].2),
                    ),
                self.positions@ == positions0,
                self.events@ == old(self).events@,
                self.ledger.wf(),
                Pallet::same_config(*old(self), *self),
                run_payout_from(orig, fee_account, pools0, positions0, 0) == Ok::<
                    BalanceMap,
                    Error,
                >(self.ledger@),
            decreases npools - k,
        {
            let entry = self.pools[k];
            self.pools[k] = (
                entry.0,
                entry.1,
                MarketInfo {
                    base_balance: entry.2.base_balance,
                    quote_balance: entry.2.quote_balance,
                    collected_base_fees: 0,
                    collected_quote_fees: 0,
                },
            );
            k = k + 1;
        }
        proof {
            assert(forall|idx: int|
                0 <= idx < npools ==> self.pools@[idx].0 == pools0[idx].0 && self.pools@[idx].1
                    == pools0[idx].1);
            assert(unique_pool_keys(self.pools@));
            lemma_same_keys_lookup_some(pools0, self.pools@);
        }
        Ok(())
    }

    /// The periodic hook: every tenth block the fee payout runs. A failed
    /// run changes nothing; its error is dropped, since the scheduler has
    /// nobody to return it to.
    pub fn offchain_worker(&mut self, now: u64)
        requires
            old(self).wf(),
        ensures
            final(self).wf(),
            Pallet::same_config(*old(self), *final(self)),
            now % 10 != 0 ==> *final(self) == *old(self),
            now % 10 == 0 ==> match run_payout_from(
                old(self).ledger@,
                old(self).fee_account,
                old(self).pools@,
                old(self).positions@,
                0,
            ) {
                Ok(m) => {
                    &&& final(self).ledger@ == m
                    &&& final(self).pools@.len() == old(self).pools@.len()
                    &&& forall|j: int|
                        0 <= j < old(self).pools@.len() ==> final(self).pools@[j] == (
                            old(self).pools@[j].0,
                            old(self).pools@[j].1,
                            reset_fees(old(self).pools@[j].2),
                        )
                    &&& final(self).positions@ == old(self).positions@
                    &&& final(self).events@ == old(self).events@
                },
                Err(_) => *final(self) == *old(self),
            },
    {
        if now % 10 == 0 {
            let _ = self.do_liquidity_provider_payout();
        }
    }
}

} // verus!
