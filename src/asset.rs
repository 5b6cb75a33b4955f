//! Underlying assets.
use vstd::prelude::*;

verus! {

/// An underlying asset of the exchange.
#[derive(Clone, Copy, Debug, PartialEq, Eq, Structural)]
pub enum Asset {
    Bitcoin,
    Ethereum,
    USDC,
}

impl Asset {
    /// The asset's index among the exchange's assets.
    pub open spec fn index_spec(&self) -> int {
        match self {
            Asset::Bitcoin => 0,
            Asset::Ethereum => 1,
            Asset::USDC => 2,
        }
    }

    /// The asset with the given index, if any.
    pub fn try_from(v: u8) -> (r: Option<Asset>)
        ensures
            v <= 2 <==> r is Some,
            r is Some ==> r->Some_0.index_spec() == v,
    {
        if v == 0 {
            Some(Asset::Bitcoin)
        } else if v == 1 {
            Some(Asset::Ethereum)
        } else if v == 2 {
            Some(Asset::USDC)
        } else {
            None
        }
    }

    /// The asset's index among the exchange's assets.
    pub fn index(&self) -> (r: usize)
        ensures
            r == self.index_spec(),
    {
        match self {
            Asset::Bitcoin => 0,
            Asset::Ethereum => 1,
            Asset::USDC => 2,
        }
    }
}

} // verus!
