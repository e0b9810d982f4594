use std::collections::BTreeMap;
use vstd::prelude::*;

use crate::amount::{Amount, BasisPoints};
use crate::error::{OrbitError, OrbitResult};
use crate::ids::{AccountId, AssetId, RouteId, VaultId};

verus! {

/// A configured path from a source vault to a target vault, with its fees and
/// limits.
#[derive(Clone, Debug)]
pub struct RouteConfig {
    pub id: RouteId,
    pub name: String,
    pub source_asset: AssetId,
    pub target_asset: AssetId,
    pub source_vault: VaultId,
    pub target_vault: VaultId,
    pub operator: AccountId,
    pub fee_bps: BasisPoints,
    pub relayer_bps: BasisPoints,
    pub max_unhedged: Amount,
    pub session_limit: Amount,
    pub min_confidence_bps: BasisPoints,
    pub enabled: bool,
}

/// The route fee plus the relayer fee, refused with `AmountOverflow` when the
/// sum does not fit in basis points.
pub open spec fn total_fee_result(route: RouteConfig) -> OrbitResult<BasisPoints> {
    if route.fee_bps + route.relayer_bps <= u16::MAX {
        Ok((route.fee_bps + route.relayer_bps) as u16)
    } else {
        Err(OrbitError::AmountOverflow)
    }
}

/// The route configured under `id`, refused when there is none or when it is
/// disabled.
pub open spec fn route_lookup(routes: Map<u64, RouteConfig>, id: u64) -> OrbitResult<RouteConfig> {
    if !routes.contains_key(id) {
        Err(OrbitError::RouteNotFound)
    } else if !routes[id].enabled {
        Err(OrbitError::RouteDisabled)
    } else {
        Ok(routes[id])
    }
}

impl RouteConfig {
    pub fn total_fee_bps(&self) -> (result: OrbitResult<BasisPoints>)
        ensures
            result == total_fee_result(*self),
    {
        match self.fee_bps.checked_add(self.relayer_bps) {
            Some(total) => Ok(total),
            None => Err(OrbitError::AmountOverflow),
        }
    }
}

/// The routes known to the ledger, by id.
#[derive(Clone, Debug)]
pub struct RouteBook {
    routes: BTreeMap<u64, RouteConfig>,
}

impl View for RouteBook {
    type V = Map<u64, RouteConfig>;

    closed spec fn view(&self) -> Map<u64, RouteConfig> {
        self.routes@
    }
}

impl Default for RouteBook {
    fn default() -> (book: Self)
        ensures
            book@ == Map::<u64, RouteConfig>::empty(),
    {
        RouteBook { routes: BTreeMap::new() }
    }
}

impl RouteBook {
    /// Stores `route` under its id, replacing what was there.
    pub fn insert(&mut self, route: RouteConfig)
        ensures
            final(self)@ == old(self)@.insert(route.id.0, route),
    {
        self.routes.insert(route.id.0, route);
    }

    pub fn get(&self, route_id: RouteId) -> (result: OrbitResult<&RouteConfig>)
        ensures
            match result {
                Ok(route) => route_lookup(self@, route_id.0) == Ok::<RouteConfig, OrbitError>(
                    *route,
                ),
                Err(e) => route_lookup(self@, route_id.0) == Err::<RouteConfig, OrbitError>(e),
            },
    {
        let route = match self.routes.get(&route_id.0) {
            Some(route) => route,
            None => return Err(OrbitError::RouteNotFound),
        };
        if !route.enabled {
            return Err(OrbitError::RouteDisabled);
        }
        Ok(route)
    }
}

} // verus!
