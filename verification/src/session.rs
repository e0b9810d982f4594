use std::collections::BTreeMap;
use vstd::prelude::*;

use crate::amount::{add_result, amount_at, min_amount, Amount};
use crate::error::OrbitResult;
use crate::ids::{IntentId, RouteId, SessionId};

verus! {

/// A settlement window: the opposite flow recorded per route, the part of it
/// already used to offset payouts, and the intents settled in it.
#[derive(Clone, Debug)]
pub struct SettlementSession {
    pub id: SessionId,
    pub opened_slot: u64,
    pub closed: bool,
    pub counterflow: BTreeMap<u64, Amount>,
    pub accounted_counterflow: BTreeMap<u64, Amount>,
    pub included_intents: Vec<IntentId>,
}

#[verifier::ext_equal]
pub struct SessionView {
    pub id: SessionId,
    pub opened_slot: u64,
    pub closed: bool,
    pub counterflow: Map<u64, Amount>,
    pub accounted_counterflow: Map<u64, Amount>,
    pub included_intents: Seq<IntentId>,
}

impl View for SettlementSession {
    type V = SessionView;

    open spec fn view(&self) -> SessionView {
        SessionView {
            id: self.id,
            opened_slot: self.opened_slot,
            closed: self.closed,
            counterflow: self.counterflow@,
            accounted_counterflow: self.accounted_counterflow@,
            included_intents: self.included_intents@,
        }
    }
}

/// Records `amount` more counterflow on `route`, or refuses with
/// `AmountOverflow` and changes nothing.
pub open spec fn add_counterflow_spec(s: SessionView, route: u64, amount: Amount) -> (
    SessionView,
    OrbitResult<()>,
) {
    match add_result(amount_at(s.counterflow, route), amount) {
        Err(e) => (s, Err(e)),
        Ok(sum) => (SessionView { counterflow: s.counterflow.insert(route, sum), ..s }, Ok(())),
    }
}

/// The counterflow that can offset a payout of `requested` on `route`: the
/// smaller of the two. It is added to what was accounted on the route; when
/// that sum overflows, the call is refused and nothing changes.
pub open spec fn allowance_spec(s: SessionView, route: u64, requested: Amount) -> (
    SessionView,
    OrbitResult<Amount>,
) {
    let allowance = min_amount(amount_at(s.counterflow, route), requested);
    match add_result(amount_at(s.accounted_counterflow, route), allowance) {
        Err(e) => (s, Err(e)),
        Ok(sum) => (
            SessionView {
                accounted_counterflow: s.accounted_counterflow.insert(route, sum),
                ..s
            },
            Ok(allowance),
        ),
    }
}

impl SettlementSession {
    pub fn new(id: SessionId, opened_slot: u64) -> (session: Self)
        ensures
            session@ == (SessionView {
                id,
                opened_slot,
                closed: false,
                counterflow: Map::empty(),
                accounted_counterflow: Map::empty(),
                included_intents: Seq::empty(),
            }),
    {
        SettlementSession {
            id,
            opened_slot,
            closed: false,
            counterflow: BTreeMap::new(),
            accounted_counterflow: BTreeMap::new(),
            included_intents: Vec::new(),
        }
    }

    pub fn add_counterflow(&mut self, route: RouteId, amount: Amount) -> (result: OrbitResult<()>)
        ensures
            (final(self)@, result) == add_counterflow_spec(old(self)@, route.0, amount),
    {
        let current = match self.counterflow.get(&route.0) {
            Some(amount) => *amount,
            None => Amount::zero(),
        };
        let sum = current.checked_add(amount)?;
        self.counterflow.insert(route.0, sum);
        proof {
            assert(self@ =~= add_counterflow_spec(old(self)@, route.0, amount).0);
        }
        Ok(())
    }

    /// The returned allowance never exceeds what was requested nor what was
    /// recorded on the route.
    pub fn counterflow_allowance(&mut self, route: RouteId, requested: Amount) -> (result:
        OrbitResult<Amount>)
        ensures
            (final(self)@, result) == allowance_spec(old(self)@, route.0, requested),
            result matches Ok(allowance) ==> allowance.0 <= requested.0 && allowance.0
                <= amount_at(old(self)@.counterflow, route.0).0,
    {
        let available = match self.counterflow.get(&route.0) {
            Some(amount) => *amount,
            None => Amount::zero(),
        };
        let allowance = available.min(requested);
        let accounted = match self.accounted_counterflow.get(&route.0) {
            Some(amount) => *amount,
            None => Amount::zero(),
        };
        let sum = accounted.checked_add(allowance)?;
        self.accounted_counterflow.insert(route.0, sum);
        proof {
            assert(self@ =~= allowance_spec(old(self)@, route.0, requested).0);
        }
        Ok(allowance)
    }

    pub fn include_intent(&mut self, intent: IntentId)
        ensures
            final(self)@ == (SessionView {
                included_intents: old(self)@.included_intents.push(intent),
                ..old(self)@
            }),
    {
        self.included_intents.push(intent);
        proof {
            assert(self@ =~= (SessionView {
                included_intents: old(self)@.included_intents.push(intent),
                ..old(self)@
            }));
        }
    }

    pub fn close(&mut self)
        ensures
            final(self)@ == (SessionView { closed: true, ..old(self)@ }),
    {
        self.closed = true;
    }
}

} // verus!
