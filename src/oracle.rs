//! Which oracle accounts the exchange trusts.
use vstd::prelude::*;

use crate::asset::Asset;
use crate::errors::ErrorCode;
use crate::pubkey::Pubkey;
use crate::state::exchange::{Exchange, OracleData};

verus! {

/// Which quantity an oracle feed reports.
#[derive(Clone, Copy, Debug, PartialEq, Eq, Structural)]
pub enum OracleDataType {
    Spot,
    IV,
}

/// The position of the first oracle entry of `asset` among the first `n`, or -1.
pub open spec fn oracle_index(oracles: Seq<OracleData>, asset: Asset, n: int) -> int
    decreases n,
{
    if n <= 0 {
        -1
    } else if oracle_index(oracles, asset, n - 1) >= 0 {
        oracle_index(oracles, asset, n - 1)
    } else if oracles[n - 1].asset == asset {
        n - 1
    } else {
        -1
    }
}

proof fn lemma_oracle_index(oracles: Seq<OracleData>, asset: Asset, n: int)
    requires
        0 <= n <= oracles.len(),
    ensures
        -1 <= oracle_index(oracles, asset, n) < n,
        oracle_index(oracles, asset, n) >= 0 ==> oracles[oracle_index(oracles, asset, n)].asset == asset,
        oracle_index(oracles, asset, n) >= 0 ==> forall|i: int|
            0 <= i < oracle_index(oracles, asset, n) ==> oracles[i].asset != asset,
        oracle_index(oracles, asset, n) == -1 ==> forall|i: int| 0 <= i < n ==> oracles[i].asset != asset,
    decreases n,
{
    if n > 0 {
        lemma_oracle_index(oracles, asset, n - 1);
    }
}

/// Whether an IV feed can be trusted for the asset at all (there is none for
/// the quote currency).
pub open spec fn has_iv_feed(asset: Asset) -> bool {
    asset != Asset::USDC
}

/// The trusted feed for `asset` and `kind`, as the exchange's first oracle
/// entry of the asset records it.
pub open spec fn trusted_feed(ex: &Exchange, asset: Asset, kind: OracleDataType) -> Option<Pubkey> {
    let k = oracle_index(ex.oracle@, asset, ex.oracle@.len() as int);
    if k < 0 {
        None
    } else {
        match kind {
            OracleDataType::Spot => ex.oracle@[k].spot_oracle,
            OracleDataType::IV => ex.oracle@[k].iv_oracle,
        }
    }
}

/// Whether `account_to_verify` is the feed the exchange trusts for the
/// asset's spot or IV. The exchange must record that feed; no IV feed is
/// trusted for the quote currency.
pub fn verify_switchboard_account(
    asset: Asset,
    oracle_data_type: OracleDataType,
    account_to_verify: &Pubkey,
    exchange: &Exchange,
) -> (r: bool)
    requires
        oracle_data_type == OracleDataType::IV && !has_iv_feed(asset) || trusted_feed(
            exchange,
            asset,
            oracle_data_type,
        ) is Some,
    ensures
        r <==> ((oracle_data_type == OracleDataType::Spot || has_iv_feed(asset)) && trusted_feed(
            exchange,
            asset,
            oracle_data_type,
        ) == Some(*account_to_verify)),
{
    match oracle_data_type {
        OracleDataType::IV => {
            match asset {
                Asset::USDC => {
                    return false;
                },
                _ => {},
            }
        },
        OracleDataType::Spot => {},
    }
    let ghost oracles = exchange.oracle@;
    proof {
        lemma_oracle_index(oracles, asset, oracles.len() as int);
    }
    let mut i: usize = 0;
    while i < exchange.oracle.len()
        invariant
            oracles == exchange.oracle@,
            oracle_data_type == OracleDataType::Spot || has_iv_feed(asset),
            i <= oracles.len(),
            forall|k: int| 0 <= k < i ==> oracles[k].asset != asset,
            oracle_index(oracles, asset, oracles.len() as int) >= 0,
            oracles[oracle_index(oracles, asset, oracles.len() as int)].asset == asset,
            forall|k: int|
                0 <= k < oracle_index(oracles, asset, oracles.len() as int) ==> oracles[k].asset != asset,
        decreases oracles.len() - i,
    {
        let o = exchange.oracle[i];
        if o.asset == asset {
            let ghost k = oracle_index(oracles, asset, oracles.len() as int);
            assert(k == i) by {
                if k < i {
                    assert(oracles[k].asset != asset);
                } else if k > i {
                    assert(oracles[i as int].asset != asset);
                }
            }
            let feed = match oracle_data_type {
                OracleDataType::Spot => o.spot_oracle,
                OracleDataType::IV => o.iv_oracle,
            };
            return match feed {
                Some(key) => key == *account_to_verify,
                None => false,
            };
        }
        i += 1;
    }
    proof {
        let k = oracle_index(oracles, asset, oracles.len() as int);
        assert(oracles[k].asset != asset);
    }
    false
}

/// Checks the three feeds a margin sync reads: the asset's spot, USDC's
/// spot and the asset's IV must each be the trusted one.
pub fn verify_sync_oracles(
    asset: Asset,
    asset_feed: &Pubkey,
    usdc_feed: &Pubkey,
    iv_feed: &Pubkey,
    exchange: &Exchange,
) -> (r: Result<(), ErrorCode>)
    requires
        trusted_feed(exchange, asset, OracleDataType::Spot) is Some,
        trusted_feed(exchange, Asset::USDC, OracleDataType::Spot) is Some,
        !has_iv_feed(asset) || trusted_feed(exchange, asset, OracleDataType::IV) is Some,
    ensures
        r is Ok <==> (trusted_feed(exchange, asset, OracleDataType::Spot) == Some(*asset_feed)
            && trusted_feed(exchange, Asset::USDC, OracleDataType::Spot) == Some(*usdc_feed)
            && has_iv_feed(asset) && trusted_feed(exchange, asset, OracleDataType::IV) == Some(
            *iv_feed,
        )),
        r is Err ==> r == Err::<(), ErrorCode>(ErrorCode::IncorrectOracleAccount),
{
    if verify_switchboard_account(asset, OracleDataType::Spot, asset_feed, exchange)
        && verify_switchboard_account(Asset::USDC, OracleDataType::Spot, usdc_feed, exchange)
        && verify_switchboard_account(asset, OracleDataType::IV, iv_feed, exchange) {
        Ok(())
    } else {
        Err(ErrorCode::IncorrectOracleAccount)
    }
}

} // verus!
