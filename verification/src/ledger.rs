//! The asset ledger: every account's balance of every asset.
//!
//! The ledger is a flat store of `(asset, account, balance)` entries with at
//! most one entry per `(asset, account)` pair; a pair without an entry holds
//! a zero balance. Its mathematical view is a total map from `(asset,
//! account)` to the balance, and `spec_transfer` is the model of a single
//! transfer: it fails exactly when the sender's balance is too small or the
//! receiver's balance would overflow, and otherwise moves the amount.

use crate::types::{AccountId, AssetId, Balance, Error};
use vstd::prelude::*;

verus! {

/// One ledger entry: an account's balance of one asset.
pub type LedgerEntry = (AssetId, AccountId, Balance);

/// The mathematical view of a ledger: a total map from `(asset, account)`
/// to the balance held.
pub type BalanceMap = Map<(AssetId, AccountId), Balance>;

/// The balance recorded for `(asset, who)` in a run of entries: the first
/// matching entry's balance, or zero when none matches.
pub open spec fn lookup(s: Seq<LedgerEntry>, asset: AssetId, who: AccountId) -> Balance
    decreases s.len(),
{
    if s.len() == 0 {
        0
    } else if s[0].0 == asset && s[0].1 == who {
        s[0].2
    } else {
        lookup(s.drop_first(), asset, who)
    }
}

/// No two entries name the same `(asset, account)` pair.
pub open spec fn unique_keys(s: Seq<LedgerEntry>) -> bool {
    forall|i: int, j: int|
        0 <= i < j < s.len() ==> !(s[i].0 == s[j].0 && s[i].1 == s[j].1)
}

/// What one transfer does to a balance map: `None` when the sender holds
/// less than `amount` or the receiver's balance would exceed the balance
/// type's range; otherwise the map with the amount moved (and unchanged
/// when an account would send to itself).
pub open spec fn spec_transfer(
    m: BalanceMap,
    asset: AssetId,
    from: AccountId,
    to: AccountId,
    amount: Balance,
) -> Option<BalanceMap> {
    if m[(asset, from)] < amount {
        None
    } else if from == to {
        Some(m)
    } else if m[(asset, to)] + amount > u128::MAX {
        None
    } else {
        Some(
            m.insert((asset, from), (m[(asset, from)] - amount) as Balance).insert(
                (asset, to),
                (m[(asset, to)] + amount) as Balance,
            ),
        )
    }
}

/// The asset ledger. See the module documentation.
pub struct Ledger {
    /// The balance entries, at most one per `(asset, account)` pair.
    pub entries: Vec<LedgerEntry>,
}

impl View for Ledger {
    type V = BalanceMap;

    open spec fn view(&self) -> BalanceMap {
        Map::total(|k: (AssetId, AccountId)| lookup(self.entries@, k.0, k.1))
    }
}

/// If the first `i` entries miss `(asset, who)` and entry `i` matches it,
/// the lookup returns entry `i`'s balance.
proof fn lemma_lookup_match(s: Seq<LedgerEntry>, i: int, asset: AssetId, who: AccountId)
    requires
        0 <= i < s.len(),
        s[i].0 == asset && s[i].1 == who,
        forall|j: int| 0 <= j < i ==> !(s[j].0 == asset && s[j].1 == who),
    ensures
        lookup(s, asset, who) == s[i].2,
    decreases i,
{
    if i > 0 {
        lemma_lookup_match(s.drop_first(), i - 1, asset, who);
    }
}

/// If no entry matches `(asset, who)`, the lookup returns zero.
proof fn lemma_lookup_none(s: Seq<LedgerEntry>, asset: AssetId, who: AccountId)
    requires
        forall|j: int| 0 <= j < s.len() ==> !(s[j].0 == asset && s[j].1 == who),
    ensures
        lookup(s, asset, who) == 0,
    decreases s.len(),
{
    if s.len() > 0 {
        lemma_lookup_none(s.drop_first(), asset, who);
    }
}

/// Overwriting the balance in entry `i` changes the lookup of that entry's
/// key to the new balance and leaves every other key's lookup unchanged.
proof fn lemma_lookup_update(s: Seq<LedgerEntry>, i: int, value: Balance)
    requires
        unique_keys(s),
        0 <= i < s.len(),
    ensures
        lookup(s.update(i, (s[i].0, s[i].1, value)), s[i].0, s[i].1) == value,
        forall|asset: AssetId, who: AccountId|
            !(s[i].0 == asset && s[i].1 == who) ==> lookup(
                s.update(i, (s[i].0, s[i].1, value)),
                asset,
                who,
            ) == lookup(s, asset, who),
    decreases i,
{
    let t = s.update(i, (s[i].0, s[i].1, value));
    if i == 0 {
        assert(t.drop_first() =~= s.drop_first());
        assert forall|asset: AssetId, who: AccountId| !(s[i].0 == asset && s[i].1 == who) implies
            lookup(t, asset, who) == lookup(s, asset, who) by {
            assert(lookup(t, asset, who) == lookup(t.drop_first(), asset, who));
            assert(lookup(s, asset, who) == lookup(s.drop_first(), asset, who));
        }
    } else {
        let rest = s.drop_first();
        assert(unique_keys(rest)) by {
            assert(forall|p: int, q: int|
                0 <= p < q < rest.len() ==> !(rest[p].0 == rest[q].0 && rest[p].1 == rest[q].1));
        }
        lemma_lookup_update(rest, i - 1, value);
        let u = rest.update(i - 1, (s[i].0, s[i].1, value));
        assert(t.drop_first() =~= u);
        // Entry 0 and entry i have distinct keys, so the head of the
        // updated run does not already answer the lookup of entry i's key.
        assert(!(s[0].0 == s[i].0 && s[0].1 == s[i].1));
        assert(lookup(t, s[i].0, s[i].1) == lookup(u, s[i].0, s[i].1));
        assert forall|asset: AssetId, who: AccountId| !(s[i].0 == asset && s[i].1 == who) implies
            lookup(t, asset, who) == lookup(s, asset, who) by {
            if s[0].0 == asset && s[0].1 == who {
                assert(lookup(t, asset, who) == t[0].2);
            } else {
                assert(lookup(t, asset, who) == lookup(u, asset, who));
                assert(lookup(u, asset, who) == lookup(rest, asset, who));
                assert(lookup(s, asset, who) == lookup(rest, asset, who));
            }
        }
    }
}

/// Appending an entry with a fresh key sets that key's lookup to the new
/// balance and leaves every other key's lookup unchanged.
proof fn lemma_lookup_push(s: Seq<LedgerEntry>, asset: AssetId, who: AccountId, value: Balance)
    requires
        forall|j: int| 0 <= j < s.len() ==> !(s[j].0 == asset && s[j].1 == who),
    ensures
        lookup(s.push((asset, who, value)), asset, who) == value,
        forall|a: AssetId, w: AccountId|
            !(a == asset && w == who) ==> lookup(s.push((asset, who, value)), a, w) == lookup(
                s,
                a,
                w,
            ),
    decreases s.len(),
{
    let t = s.push((asset, who, value));
    if s.len() == 0 {
        assert(t[0] == (asset, who, value));
        assert forall|a: AssetId, w: AccountId| !(a == asset && w == who) implies lookup(t, a, w)
            == lookup(s, a, w) by {
            assert(t.drop_first() =~= Seq::<LedgerEntry>::empty());
            assert(lookup(t, a, w) == lookup(t.drop_first(), a, w));
            assert(lookup(Seq::<LedgerEntry>::empty(), a, w) == 0);
            assert(lookup(s, a, w) == 0);
        }
    } else {
        let rest = s.drop_first();
        lemma_lookup_push(rest, asset, who, value);
        let u = rest.push((asset, who, value));
        assert(t.drop_first() =~= u);
        assert(lookup(t, asset, who) == lookup(u, asset, who));
        assert forall|a: AssetId, w: AccountId| !(a == asset && w == who) implies lookup(t, a, w)
            == lookup(s, a, w) by {
            if s[0].0 == a && s[0].1 == w {
                assert(lookup(t, a, w) == t[0].2);
            } else {
                assert(lookup(t, a, w) == lookup(u, a, w));
                assert(lookup(u, a, w) == lookup(rest, a, w));
                assert(lookup(s, a, w) == lookup(rest, a, w));
            }
        }
    }
}

impl Ledger {
    /// Every `(asset, account)` pair has at most one entry.
    pub open spec fn wf(self) -> bool {
        unique_keys(self.entries@)
    }

    /// The balance of `who` in `asset`.
    pub open spec fn bal(self, asset: AssetId, who: AccountId) -> Balance {
        self@[(asset, who)]
    }

    /// An empty ledger: every balance is zero.
    pub fn new() -> (l: Ledger)
        ensures
            l.wf(),
            forall|k: (AssetId, AccountId)| l@[k] == 0,
    {
        Ledger { entries: Vec::new() }
    }

    /// A ledger with the same entries (and hence the same balances).
    pub fn duplicate(&self) -> (l: Ledger)
        ensures
            l.entries@ == self.entries@,
    {
        let mut entries: Vec<LedgerEntry> = Vec::new();
        let n = self.entries.len();
        let mut i: usize = 0;
        while i < n
            invariant
                i <= n,
                n == self.entries@.len(),
                entries@ == self.entries@.take(i as int),
            decreases n - i,
        {
            entries.push(self.entries[i]);
            assert(entries@ =~= self.entries@.take(i as int + 1));
            i = i + 1;
        }
        assert(entries@ =~= self.entries@);
        Ledger { entries }
    }

    /// The index of the entry for `(asset, who)`, if one exists.
    fn find(&self, asset: AssetId, who: AccountId) -> (r: Option<usize>)
        ensures
            match r {
                Some(i) => i < self.entries@.len() && self.entries@[i as int].0 == asset
                    && self.entries@[i as int].1 == who && self@[(asset, who)]
                    == self.entries@[i as int].2 && (forall|j: int|
                    0 <= j < i ==> !(self.entries@[j].0 == asset && self.entries@[j].1 == who)),
                None => self@[(asset, who)] == 0 && (forall|j: int|
                    0 <= j < self.entries@.len() ==> !(self.entries@[j].0 == asset
                        && self.entries@[j].1 == who)),
            },
    {
        let n = self.entries.len();
        let mut i: usize = 0;
        while i < n
            invariant
                i <= n,
                n == self.entries@.len(),
                forall|j: int| 0 <= j < i ==> !(self.entries@[j].0 == asset && self.entries@[j].1 == who),
            decreases n - i,
        {
            let e = self.entries[i];
            if e.0 == asset && e.1 == who {
                proof {
                    lemma_lookup_match(self.entries@, i as int, asset, who);
                }
                return Some(i);
            }
            i = i + 1;
        }
        proof {
            lemma_lookup_none(self.entries@, asset, who);
        }
        None
    }

    /// The balance of `who` in `asset`.
    pub fn balance_of(&self, asset: AssetId, who: AccountId) -> (r: Balance)
        ensures
            r == self.bal(asset, who),
    {
        match self.find(asset, who) {
            Some(i) => self.entries[i].2,
            None => 0,
        }
    }

    /// Record `value` as the balance of `who` in `asset`.
    pub(crate) fn put(&mut self, asset: AssetId, who: AccountId, value: Balance)
        requires
            old(self).wf(),
        ensures
            final(self).wf(),
            final(self)@ == old(self)@.insert((asset, who), value),
    {
        let ghost s = self.entries@;
        match self.find(asset, who) {
            Some(i) => {
                self.entries[i] = (asset, who, value);
                proof {
                    lemma_lookup_update(s, i as int, value);
                    assert(self@ =~= old(self)@.insert((asset, who), value));
                }
            },
            None => {
                self.entries.push((asset, who, value));
                proof {
                    lemma_lookup_push(s, asset, who, value);
                    assert(self@ =~= old(self)@.insert((asset, who), value));
                    assert forall|p: int, q: int|
                        0 <= p < q < self.entries@.len() implies !(self.entries@[p].0
                        == self.entries@[q].0 && self.entries@[p].1 == self.entries@[q].1) by {
                        if q < s.len() {
                        } else {
                            assert(self.entries@[q] == (asset, who, value));
                        }
                    }
                }
            },
        }
    }

    /// Move `amount` of `asset` from `from` to `to`. Succeeds exactly when
    /// `spec_transfer` is defined on the current balances, and then applies
    /// it; otherwise the ledger is unchanged.
    pub fn transfer(&mut self, asset: AssetId, from: AccountId, to: AccountId, amount: Balance) -> (r:
        Result<(), Error>)
        requires
            old(self).wf(),
        ensures
            final(self).wf(),
            match r {
                Ok(()) => spec_transfer(old(self)@, asset, from, to, amount) == Some(final(self)@),
                Err(e) => e == Error::Transfer && *final(self) == *old(self) && spec_transfer(
                    old(self)@,
                    asset,
                    from,
                    to,
                    amount,
                ) is None,
            },
    {
        let from_bal = self.balance_of(asset, from);
        if from_bal < amount {
            return Err(Error::Transfer);
        }
        if from == to {
            return Ok(());
        }
        let to_bal = self.balance_of(asset, to);
        if amount > u128::MAX - to_bal {
            return Err(Error::Transfer);
        }
        self.put(asset, from, from_bal - amount);
        self.put(asset, to, to_bal + amount);
        Ok(())
    }
}

} // verus!
