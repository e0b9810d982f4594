use std::collections::BTreeMap;
use vstd::prelude::*;

use crate::amount::BasisPoints;
use crate::error::{OrbitError, OrbitResult};
use crate::ids::AssetId;

verus! {

/// The most decimals an asset may declare.
pub const MAX_DECIMALS: u8 = 18;

#[derive(Clone, Debug)]
pub struct Asset {
    pub id: AssetId,
    pub symbol: String,
    pub decimals: u8,
    pub risk_weight_bps: BasisPoints,
    pub enabled: bool,
}

/// The assets known to the ledger, by id.
#[derive(Debug)]
pub struct AssetRegistry {
    assets: BTreeMap<u64, Asset>,
}

impl View for AssetRegistry {
    type V = Map<u64, Asset>;

    closed spec fn view(&self) -> Map<u64, Asset> {
        self.assets@
    }
}

/// The asset registered under `id`, refused when there is none or when it is
/// disabled.
pub open spec fn asset_lookup(assets: Map<u64, Asset>, id: u64) -> OrbitResult<Asset> {
    if !assets.contains_key(id) {
        Err(OrbitError::AssetNotFound)
    } else if !assets[id].enabled {
        Err(OrbitError::AssetDisabled)
    } else {
        Ok(assets[id])
    }
}

/// Every registered asset sits under its own id and declares at most
/// [`MAX_DECIMALS`] decimals.
pub open spec fn registry_wf(assets: Map<u64, Asset>) -> bool {
    forall|k: u64|
        #![trigger assets[k]]
        assets.contains_key(k) ==> assets[k].id.0 == k && assets[k].decimals <= MAX_DECIMALS
}

impl AssetRegistry {
    /// Every registry keeps each asset under its own id, with at most
    /// [`MAX_DECIMALS`] decimals.
    #[verifier::type_invariant]
    spec fn keyed_by_id(self) -> bool {
        registry_wf(self.assets@)
    }
}

impl Clone for AssetRegistry {
    fn clone(&self) -> (copy: Self)
        ensures
            copy@ == self@,
    {
        proof {
            use_type_invariant(self);
        }
        AssetRegistry { assets: self.assets.clone() }
    }
}

impl Default for AssetRegistry {
    fn default() -> (registry: Self)
        ensures
            registry@ == Map::<u64, Asset>::empty(),
            registry_wf(registry@),
    {
        AssetRegistry { assets: BTreeMap::new() }
    }
}

impl AssetRegistry {
    /// Registers `asset` under its id, replacing what was there; an asset
    /// with more than [`MAX_DECIMALS`] decimals is refused.
    pub fn insert(&mut self, asset: Asset) -> (result: OrbitResult<()>)
        ensures
            asset.decimals > MAX_DECIMALS ==> result == Err::<(), OrbitError>(
                OrbitError::AmountOverflow,
            ) && final(self)@ == old(self)@,
            asset.decimals <= MAX_DECIMALS ==> result is Ok && final(self)@ == old(self)@.insert(
                asset.id.0,
                asset,
            ),
            registry_wf(final(self)@),
    {
        proof {
            use_type_invariant(&*self);
        }
        if asset.decimals > MAX_DECIMALS {
            return Err(OrbitError::AmountOverflow);
        }
        let mut assets = BTreeMap::new();
        std::mem::swap(&mut assets, &mut self.assets);
        assets.insert(asset.id.0, asset);
        self.assets = assets;
        Ok(())
    }

    pub fn get(&self, id: AssetId) -> (result: OrbitResult<&Asset>)
        ensures
            match result {
                Ok(asset) => asset_lookup(self@, id.0) == Ok::<Asset, OrbitError>(*asset),
                Err(e) => asset_lookup(self@, id.0) == Err::<Asset, OrbitError>(e),
            },
            result matches Ok(asset) ==> asset.id == id && asset.enabled,
            registry_wf(self@),
    {
        proof {
            use_type_invariant(self);
        }
        let asset = match self.assets.get(&id.0) {
            Some(asset) => asset,
            None => return Err(OrbitError::AssetNotFound),
        };
        if !asset.enabled {
            return Err(OrbitError::AssetDisabled);
        }
        Ok(asset)
    }
}

} // verus!
