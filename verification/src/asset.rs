//! Tradable assets and the registry of those that are enabled.

use vstd::prelude::*;

verus! {

/// An asset that the exchange can hold a book for.
#[derive(Clone, Copy, Debug, PartialEq, Eq, Structural, Hash)]
pub enum Asset {
    Bitcoin,
    Ether,
}

/// Which assets accept orders.
#[derive(Clone, Copy, Debug, PartialEq, Eq, Structural)]
pub struct AssetRegistry {
    pub bitcoin: bool,
    pub ether: bool,
}

impl AssetRegistry {
    /// Whether `asset` is enabled in this registry.
    pub open spec fn enabled(self, asset: Asset) -> bool {
        match asset {
            Asset::Bitcoin => self.bitcoin,
            Asset::Ether => self.ether,
        }
    }

    /// A registry with every asset enabled.
    pub fn all() -> (r: AssetRegistry)
        ensures
            forall|a: Asset| r.enabled(a),
    {
        AssetRegistry { bitcoin: true, ether: true }
    }

    /// A registry with no asset enabled.
    pub fn none() -> (r: AssetRegistry)
        ensures
            forall|a: Asset| !r.enabled(a),
    {
        AssetRegistry { bitcoin: false, ether: false }
    }

    /// Looks `asset` up.
    pub fn is_enabled(&self, asset: Asset) -> (b: bool)
        ensures
            b == self.enabled(asset),
    {
        match asset {
            Asset::Bitcoin => self.bitcoin,
            Asset::Ether => self.ether,
        }
    }

    /// Enables or disables `asset`, leaving the others as they are.
    pub fn set(&mut self, asset: Asset, on: bool)
        ensures
            final(self).enabled(asset) == on,
            forall|a: Asset| a != asset ==> final(self).enabled(a) == old(self).enabled(a),
    {
        match asset {
            Asset::Bitcoin => { self.bitcoin = on; }
            Asset::Ether => { self.ether = on; }
        }
    }
}

} // verus!
