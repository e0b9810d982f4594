use std::collections::BTreeMap;
use vstd::prelude::*;

use crate::amount::{add_result, amount_at, Amount};
use crate::error::OrbitResult;
use crate::ids::{AccountId, AssetId};

verus! {

/// A ledger account with a balance per asset.
#[derive(Clone, Debug)]
pub struct Account {
    pub id: AccountId,
    pub label: String,
    balances: BTreeMap<u64, Amount>,
}

/// What an account is: its id, its label, and its balance of each asset it
/// was ever credited with, by asset id.
#[verifier::ext_equal]
pub struct AccountView {
    pub id: AccountId,
    pub label: String,
    pub balances: Map<u64, Amount>,
}

impl View for Account {
    type V = AccountView;

    closed spec fn view(&self) -> AccountView {
        AccountView { id: self.id, label: self.label, balances: self.balances@ }
    }
}

/// Credits `amount` of `asset`: the balance grows by it, or the credit is
/// refused with `AmountOverflow` and nothing changes.
pub open spec fn credit_spec(a: AccountView, asset: u64, amount: Amount) -> (
    AccountView,
    OrbitResult<()>,
) {
    match add_result(amount_at(a.balances, asset), amount) {
        Err(e) => (a, Err(e)),
        Ok(sum) => (AccountView { balances: a.balances.insert(asset, sum), ..a }, Ok(())),
    }
}

/// A credit that is accepted raises the balance of its asset by exactly the
/// credited amount and leaves every other balance, the id and the label as
/// they were.
pub proof fn credit_raises_only_its_balance(a: AccountView, asset: u64, amount: Amount, other: u64)
    requires
        credit_spec(a, asset, amount).1 is Ok,
        other != asset,
    ensures
        amount_at(credit_spec(a, asset, amount).0.balances, asset).0 == amount_at(
            a.balances,
            asset,
        ).0 + amount.0,
        amount_at(credit_spec(a, asset, amount).0.balances, other) == amount_at(a.balances, other),
        credit_spec(a, asset, amount).0.id == a.id,
        credit_spec(a, asset, amount).0.label == a.label,
{
}

impl Account {
    pub fn new(id: AccountId, label: String) -> (account: Self)
        ensures
            account@ == (AccountView { id, label, balances: Map::empty() }),
    {
        Account { id, label, balances: BTreeMap::new() }
    }

    pub fn balance(&self, asset: AssetId) -> (amount: Amount)
        ensures
            amount == amount_at(self@.balances, asset.0),
    {
        match self.balances.get(&asset.0) {
            Some(amount) => *amount,
            None => Amount::zero(),
        }
    }

    pub fn credit(&mut self, asset: AssetId, amount: Amount) -> (result: OrbitResult<()>)
        ensures
            (final(self)@, result) == credit_spec(old(self)@, asset.0, amount),
    {
        let current = self.balance(asset);
        let sum = current.checked_add(amount)?;
        self.balances.insert(asset.0, sum);
        proof {
            assert(self@ =~= credit_spec(old(self)@, asset.0, amount).0);
        }
        Ok(())
    }

    pub fn balances(&self) -> (balances: &BTreeMap<u64, Amount>)
        ensures
            balances@ == self@.balances,
    {
        &self.balances
    }
}

} // verus!
