use vstd::prelude::*;

use crate::amount::{add_result, saturating_diff, sub_result, Amount};
use crate::error::{OrbitError, OrbitResult};
use crate::ids::{AccountId, AssetId, VaultId};

verus! {

#[derive(Copy, Clone, Debug, PartialEq, Eq, Structural)]
pub enum VaultKind {
    Reserve,
    Settlement,
    Buffer,
}

/// A pool of one asset under one controller.
///
/// `reserve` is what the vault holds, `locked` the part of it promised to
/// pending intents, `paid` everything that ever left it and `received`
/// everything that ever came in.
#[derive(Copy, Clone, Debug, PartialEq, Eq, Structural)]
pub struct Vault {
    pub id: VaultId,
    pub asset: AssetId,
    pub controller: AccountId,
    pub kind: VaultKind,
    pub reserve: Amount,
    pub locked: Amount,
    pub paid: Amount,
    pub received: Amount,
}

impl Vault {
    /// The bookkeeping of a vault balances: what is locked is held, and what is
    /// held is what came in minus what went out.
    pub open spec fn wf(self) -> bool {
        &&& self.locked.0 <= self.reserve.0
        &&& self.reserve.0 + self.paid.0 == self.received.0
    }

    /// What is held and not locked.
    pub open spec fn available_amount(self) -> Amount {
        saturating_diff(self.reserve, self.locked)
    }
}

/// A deposit (or an accrual): first the reserve grows, then what was received;
/// a failure of the second step keeps the first.
pub open spec fn inflow_spec(v: Vault, amount: Amount) -> (Vault, OrbitResult<()>) {
    match add_result(v.reserve, amount) {
        Err(e) => (v, Err(e)),
        Ok(reserve) => match add_result(v.received, amount) {
            Err(e) => (Vault { reserve, ..v }, Err(e)),
            Ok(received) => (Vault { reserve, received, ..v }, Ok(())),
        },
    }
}

/// Locks `amount` of the available reserve.
pub open spec fn reserve_spec(v: Vault, amount: Amount) -> (Vault, OrbitResult<()>) {
    if v.available_amount().0 < amount.0 {
        (v, Err(OrbitError::InsufficientBalance))
    } else {
        match add_result(v.locked, amount) {
            Err(e) => (v, Err(e)),
            Ok(locked) => (Vault { locked, ..v }, Ok(())),
        }
    }
}

/// Pays out `amount` that was locked before: unlock, take from the reserve,
/// count as paid, in that order; a failing step keeps the ones before it.
pub open spec fn consume_spec(v: Vault, amount: Amount) -> (Vault, OrbitResult<()>) {
    match sub_result(v.locked, amount) {
        Err(e) => (v, Err(e)),
        Ok(locked) => match sub_result(v.reserve, amount) {
            Err(e) => (Vault { locked, ..v }, Err(e)),
            Ok(reserve) => match add_result(v.paid, amount) {
                Err(e) => (Vault { locked, reserve, ..v }, Err(e)),
                Ok(paid) => (Vault { locked, reserve, paid, ..v }, Ok(())),
            },
        },
    }
}

/// Unlocks `amount` without paying it.
pub open spec fn release_spec(v: Vault, amount: Amount) -> (Vault, OrbitResult<()>) {
    match sub_result(v.locked, amount) {
        Err(e) => (v, Err(e)),
        Ok(locked) => (Vault { locked, ..v }, Ok(())),
    }
}

/// Pays out `amount` of the available reserve.
pub open spec fn pay_out_spec(v: Vault, amount: Amount) -> (Vault, OrbitResult<()>) {
    if v.available_amount().0 < amount.0 {
        (v, Err(OrbitError::InsufficientBalance))
    } else {
        match sub_result(v.reserve, amount) {
            Err(e) => (v, Err(e)),
            Ok(reserve) => match add_result(v.paid, amount) {
                Err(e) => (Vault { reserve, ..v }, Err(e)),
                Ok(paid) => (Vault { reserve, paid, ..v }, Ok(())),
            },
        }
    }
}

impl Vault {
    pub fn new(id: VaultId, asset: AssetId, controller: AccountId, kind: VaultKind) -> (vault: Self)
        ensures
            vault == (Vault {
                id,
                asset,
                controller,
                kind,
                reserve: Amount(0),
                locked: Amount(0),
                paid: Amount(0),
                received: Amount(0),
            }),
            vault.wf(),
    {
        Vault {
            id,
            asset,
            controller,
            kind,
            reserve: Amount::zero(),
            locked: Amount::zero(),
            paid: Amount::zero(),
            received: Amount::zero(),
        }
    }

    pub fn available(&self) -> (amount: Amount)
        ensures
            amount == self.available_amount(),
    {
        self.reserve.saturating_sub(self.locked)
    }

    /// Only a deposit that overflows `received` after `reserve` grew leaves
    /// the bookkeeping unbalanced.
    pub fn deposit(&mut self, amount: Amount) -> (result: OrbitResult<()>)
        ensures
            (*final(self), result) == inflow_spec(*old(self), amount),
            old(self).wf() && result is Ok ==> final(self).wf(),
            old(self).wf() && old(self).received.0 + amount.0 <= u128::MAX ==> result is Ok,
    {
        self.reserve = self.reserve.checked_add(amount)?;
        self.received = self.received.checked_add(amount)?;
        Ok(())
    }

    pub fn reserve(&mut self, amount: Amount) -> (result: OrbitResult<()>)
        ensures
            (*final(self), result) == reserve_spec(*old(self), amount),
            old(self).wf() ==> final(self).wf(),
            old(self).wf() ==> (result is Ok <==> amount.0 <= old(self).available_amount().0),
    {
        if self.available().0 < amount.0 {
            return Err(OrbitError::InsufficientBalance);
        }
        self.locked = self.locked.checked_add(amount)?;
        Ok(())
    }

    pub fn consume_reserved(&mut self, amount: Amount) -> (result: OrbitResult<()>)
        ensures
            (*final(self), result) == consume_spec(*old(self), amount),
            old(self).wf() ==> final(self).wf(),
            old(self).wf() ==> (result is Ok <==> amount.0 <= old(self).locked.0),
    {
        self.locked = self.locked.checked_sub(amount)?;
        self.reserve = self.reserve.checked_sub(amount)?;
        self.paid = self.paid.checked_add(amount)?;
        Ok(())
    }

    pub fn release_reserved(&mut self, amount: Amount) -> (result: OrbitResult<()>)
        ensures
            (*final(self), result) == release_spec(*old(self), amount),
            old(self).wf() ==> final(self).wf(),
    {
        self.locked = self.locked.checked_sub(amount)?;
        Ok(())
    }

    pub fn pay_out(&mut self, amount: Amount) -> (result: OrbitResult<()>)
        ensures
            (*final(self), result) == pay_out_spec(*old(self), amount),
            old(self).wf() ==> final(self).wf(),
            old(self).wf() ==> (result is Ok <==> amount.0 <= old(self).available_amount().0),
    {
        if self.available().0 < amount.0 {
            return Err(OrbitError::InsufficientBalance);
        }
        self.reserve = self.reserve.checked_sub(amount)?;
        self.paid = self.paid.checked_add(amount)?;
        Ok(())
    }

    /// Same bookkeeping as [`Vault::deposit`].
    pub fn accrue(&mut self, amount: Amount) -> (result: OrbitResult<()>)
        ensures
            (*final(self), result) == inflow_spec(*old(self), amount),
            old(self).wf() && result is Ok ==> final(self).wf(),
            old(self).wf() && old(self).received.0 + amount.0 <= u128::MAX ==> result is Ok,
    {
        self.reserve = self.reserve.checked_add(amount)?;
        self.received = self.received.checked_add(amount)?;
        Ok(())
    }
}

} // verus!
