use std::collections::BTreeMap;
use vstd::prelude::*;

use crate::amount::{add_result, amount_at, saturating_diff, Amount};
use crate::error::{OrbitError, OrbitResult};
use crate::ids::AccountId;
use crate::routes::RouteConfig;

verus! {

/// The exposure taken in the current settlement session: the unhedged
/// residual per route, the notional paid per account and in total.
#[derive(Clone, Debug)]
pub struct RiskSnapshot {
    pub route_residual: BTreeMap<u64, Amount>,
    pub account_notional: BTreeMap<u64, Amount>,
    pub session_notional: Amount,
}

/// Limits on payouts, checked before any funds move.
#[derive(Clone, Debug)]
pub struct RiskEngine {
    pub snapshot: RiskSnapshot,
    pub max_account_notional: Amount,
    pub max_session_notional: Amount,
}

#[verifier::ext_equal]
pub struct RiskView {
    pub route_residual: Map<u64, Amount>,
    pub account_notional: Map<u64, Amount>,
    pub session_notional: Amount,
    pub max_account_notional: Amount,
    pub max_session_notional: Amount,
}

impl View for RiskEngine {
    type V = RiskView;

    open spec fn view(&self) -> RiskView {
        RiskView {
            route_residual: self.snapshot.route_residual@,
            account_notional: self.snapshot.account_notional@,
            session_notional: self.snapshot.session_notional,
            max_account_notional: self.max_account_notional,
            max_session_notional: self.max_session_notional,
        }
    }
}

/// The checks on a payout of `payout` to `account` on `route`, of which
/// `counterflow_credit` is offset by opposite flow, in the order they are
/// made; when all pass, the exposure grows by the payout (by its unhedged
/// part on the route).
pub open spec fn authorize_spec(
    r: RiskView,
    route: RouteConfig,
    account: u64,
    payout: Amount,
    counterflow_credit: Amount,
) -> (RiskView, OrbitResult<()>) {
    let residual = saturating_diff(payout, counterflow_credit);
    if residual.0 > route.max_unhedged.0 {
        (r, Err(OrbitError::RouteCapacityExceeded))
    } else {
        match add_result(amount_at(r.route_residual, route.id.0), residual) {
            Err(e) => (r, Err(e)),
            Ok(route_next) => if route_next.0 > route.session_limit.0 {
                (r, Err(OrbitError::SettlementLimitExceeded))
            } else {
                match add_result(amount_at(r.account_notional, account), payout) {
                    Err(e) => (r, Err(e)),
                    Ok(account_next) => if account_next.0 > r.max_account_notional.0 {
                        (r, Err(OrbitError::SettlementLimitExceeded))
                    } else {
                        match add_result(r.session_notional, payout) {
                            Err(e) => (r, Err(e)),
                            Ok(session_next) => if session_next.0 > r.max_session_notional.0 {
                                (r, Err(OrbitError::SettlementLimitExceeded))
                            } else {
                                (
                                    RiskView {
                                        route_residual: r.route_residual.insert(
                                            route.id.0,
                                            route_next,
                                        ),
                                        account_notional: r.account_notional.insert(
                                            account,
                                            account_next,
                                        ),
                                        session_notional: session_next,
                                        ..r
                                    },
                                    Ok(()),
                                )
                            },
                        }
                    },
                }
            },
        }
    }
}

impl Default for RiskSnapshot {
    fn default() -> (snapshot: Self)
        ensures
            snapshot.route_residual@ == Map::<u64, Amount>::empty(),
            snapshot.account_notional@ == Map::<u64, Amount>::empty(),
            snapshot.session_notional == Amount(0),
    {
        RiskSnapshot {
            route_residual: BTreeMap::new(),
            account_notional: BTreeMap::new(),
            session_notional: Amount::zero(),
        }
    }
}

impl RiskEngine {
    pub fn new(max_account_notional: Amount, max_session_notional: Amount) -> (engine: Self)
        ensures
            engine@ == (RiskView {
                route_residual: Map::empty(),
                account_notional: Map::empty(),
                session_notional: Amount(0),
                max_account_notional,
                max_session_notional,
            }),
    {
        RiskEngine { snapshot: RiskSnapshot::default(), max_account_notional, max_session_notional }
    }

    /// An authorized payout never takes the route past its unhedged or session
    /// limit, nor the account or the session past theirs.
    pub fn authorize(
        &mut self,
        route: &RouteConfig,
        account: AccountId,
        payout: Amount,
        counterflow_credit: Amount,
    ) -> (result: OrbitResult<()>)
        ensures
            (final(self)@, result) == authorize_spec(
                old(self)@,
                *route,
                account.0,
                payout,
                counterflow_credit,
            ),
            result is Ok ==> {
                &&& saturating_diff(payout, counterflow_credit).0 <= route.max_unhedged.0
                &&& amount_at(final(self)@.route_residual, route.id.0).0 <= route.session_limit.0
                &&& amount_at(final(self)@.account_notional, account.0).0
                    <= final(self)@.max_account_notional.0
                &&& final(self)@.session_notional.0 <= final(self)@.max_session_notional.0
            },
    {
        let residual = payout.saturating_sub(counterflow_credit);
        if residual.0 > route.max_unhedged.0 {
            return Err(OrbitError::RouteCapacityExceeded);
        }
        let route_current = match self.snapshot.route_residual.get(&route.id.0) {
            Some(amount) => *amount,
            None => Amount::zero(),
        };
        let route_next = route_current.checked_add(residual)?;
        if route_next.0 > route.session_limit.0 {
            return Err(OrbitError::SettlementLimitExceeded);
        }
        let account_current = match self.snapshot.account_notional.get(&account.0) {
            Some(amount) => *amount,
            None => Amount::zero(),
        };
        let account_next = account_current.checked_add(payout)?;
        if account_next.0 > self.max_account_notional.0 {
            return Err(OrbitError::SettlementLimitExceeded);
        }
        let session_next = self.snapshot.session_notional.checked_add(payout)?;
        if session_next.0 > self.max_session_notional.0 {
            return Err(OrbitError::SettlementLimitExceeded);
        }
        self.snapshot.route_residual.insert(route.id.0, route_next);
        self.snapshot.account_notional.insert(account.0, account_next);
        self.snapshot.session_notional = session_next;
        proof {
            assert(self@ =~= authorize_spec(
                old(self)@,
                *route,
                account.0,
                payout,
                counterflow_credit,
            ).0);
        }
        Ok(())
    }
}

} // verus!
