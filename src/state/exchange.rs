//! The exchange's registry of oracles, markets and instruments.
use vstd::prelude::*;

use crate::asset::Asset;
use crate::errors::ErrorCode;
use crate::pubkey::Pubkey;

verus! {

/// How an instrument group expires.
#[derive(Clone, Copy, Debug, PartialEq, Eq, Structural)]
pub enum ExpiryType {
    Standard,
    Perpetual,
}

/// The trusted oracle accounts of one asset.
#[derive(Clone, Copy)]
pub struct OracleData {
    pub asset: Asset,
    /// Trusted oracle account for the spot price.
    pub spot_oracle: Option<Pubkey>,
    /// Trusted oracle account for the implied volatility.
    pub iv_oracle: Option<Pubkey>,
}

/// Data shared by an instrument group.
#[derive(Clone, Copy)]
pub struct InstrumentCommon {
    /// Underlying asset.
    pub asset: Asset,
    /// Expiry date, a unix timestamp.
    pub expiry_date: u64,
    pub expiry_type: ExpiryType,
}

/// Data of one strike in a group: its put (index 0) and its call (index 1).
#[derive(Clone, Copy)]
pub struct InstrumentUnique {
    pub strike: u32,
    pub instrument_pubkeys: [Pubkey; 2],
}

/// Key data of a created market.
#[derive(Clone, Copy)]
pub struct OptifiMarketKeyData {
    pub optifi_market_pubkey: Pubkey,
    /// Expiry date of the instrument listed on the market.
    pub expiry_date: u64,
    /// Whether the market is stopped.
    pub is_stopped: bool,
}

/// The exchange.
pub struct Exchange {
    pub uuid: String,
    pub version: u32,
    pub exchange_authority: Pubkey,
    pub owner: Pubkey,
    pub usdc_mint: Pubkey,
    pub usdc_central_pool: Pubkey,
    /// Oracle accounts by asset.
    pub oracle: Vec<OracleData>,
    /// Every created market.
    pub markets: Vec<OptifiMarketKeyData>,
    /// Every instrument group, parallel to `instrument_unique`.
    pub instrument_common: Vec<InstrumentCommon>,
    /// The strikes of every instrument group.
    pub instrument_unique: Vec<Vec<InstrumentUnique>>,
}

/// What a new exchange is set up with.
pub struct InitializeExchangeData {
    /// Exchange id, six bytes long.
    pub uuid: String,
    pub version: u32,
    pub exchange_authority: Pubkey,
    pub owner: Pubkey,
    /// The recognized USDC token mint.
    pub usdc_mint: Pubkey,
    /// Trusted oracle accounts for spot prices.
    pub btc_spot_oracle: Pubkey,
    pub eth_spot_oracle: Pubkey,
    pub usdc_spot_oracle: Pubkey,
    /// Trusted oracle accounts for implied volatility.
    pub btc_iv_oracle: Pubkey,
    pub eth_iv_oracle: Pubkey,
}

/// One listed instrument: its key, strike, put (0) or call (1), and expiry.
pub type InstrumentRow = (Pubkey, u64, u8, u64);

/// The instruments of one group in listing order: per strike, its put and
/// then its call.
pub open spec fn group_rows(ic: InstrumentCommon, us: Seq<InstrumentUnique>) -> Seq<InstrumentRow>
    decreases us.len(),
{
    if us.len() == 0 {
        seq![]
    } else {
        let u = us.last();
        group_rows(ic, us.drop_last()) + seq![
            (u.instrument_pubkeys@[0], u.strike as u64, 0u8, ic.expiry_date),
            (u.instrument_pubkeys@[1], u.strike as u64, 1u8, ic.expiry_date),
        ]
    }
}

/// Whether a group of the given asset passes the filter (`None` passes all).
pub open spec fn asset_matches(filter: Option<Asset>, asset: Asset) -> bool {
    match filter {
        Some(a) => a == asset,
        None => true,
    }
}

/// The instruments of the first `n` groups that pass the filter, in order.
pub open spec fn listed_rows(
    commons: Seq<InstrumentCommon>,
    uniques: Seq<Vec<InstrumentUnique>>,
    filter: Option<Asset>,
    n: int,
) -> Seq<InstrumentRow>
    decreases n,
{
    if n <= 0 {
        seq![]
    } else if asset_matches(filter, commons[n - 1].asset) {
        listed_rows(commons, uniques, filter, n - 1) + group_rows(commons[n - 1], uniques[n - 1]@)
    } else {
        listed_rows(commons, uniques, filter, n - 1)
    }
}

/// Whether place `(x, y, z)` (group, strike, put or call) comes before
/// `(a, b, c)` in listing order.
pub open spec fn listed_before(a: int, b: int, c: int, x: int, y: int, z: int) -> bool {
    x < a || (x == a && y < b) || (x == a && y == b && z < c)
}

/// Whether `key` is the put (`c == 0`) or call (`c == 1`) of strike `b` in group `a`.
pub open spec fn key_at(ex: &Exchange, a: int, b: int, c: int) -> Pubkey {
    ex.instrument_unique@[a]@[b].instrument_pubkeys@[c]
}

impl Exchange {
    /// Every group has both its common and its per-strike data.
    pub open spec fn wf(&self) -> bool {
        self.instrument_common@.len() == self.instrument_unique@.len()
    }

    /// Whether `key` is listed as instrument `(a, b, c)`.
    pub open spec fn lists_at(&self, key: Pubkey, a: int, b: int, c: int) -> bool {
        &&& 0 <= a < self.instrument_unique@.len()
        &&& 0 <= b < self.instrument_unique@[a]@.len()
        &&& 0 <= c < 2
        &&& key_at(self, a, b, c) == key
    }

    /// Whether `(a, b, c)` is the first place, in listing order, where `key`
    /// is listed.
    pub open spec fn first_listing(&self, key: Pubkey, a: int, b: int, c: int) -> bool {
        &&& self.lists_at(key, a, b, c)
        &&& forall|x: int, y: int, z: int|
            listed_before(a, b, c, x, y, z) ==> !#[trigger] self.lists_at(key, x, y, z)
    }

    /// A key has at most one first listing.
    pub proof fn lemma_first_listing_unique(&self, key: Pubkey, a: int, b: int, c: int, x: int, y: int, z: int)
        requires
            self.first_listing(key, a, b, c),
            self.first_listing(key, x, y, z),
        ensures
            a == x && b == y && c == z,
    {
        if listed_before(a, b, c, x, y, z) {
            assert(!self.lists_at(key, x, y, z));
        } else if listed_before(x, y, z, a, b, c) {
            assert(!self.lists_at(key, a, b, c));
        }
    }

    /// The instruments that pass the filter, in listing order.
    pub open spec fn rows(&self, filter: Option<Asset>) -> Seq<InstrumentRow> {
        listed_rows(
            self.instrument_common@,
            self.instrument_unique@,
            filter,
            self.instrument_common@.len() as int,
        )
    }

    /// The group data, strike and call flag of a listed instrument, or `None`
    /// when the key is not listed.
    pub fn get_instrument_data(&self, instrument_pubkey: &Pubkey) -> (r: Option<(InstrumentCommon, u32, bool)>)
        requires
            self.wf(),
        ensures
            r is None <==> !exists|a: int, b: int, c: int| self.lists_at(*instrument_pubkey, a, b, c),
            r is Some ==> exists|a: int, b: int, c: int|
                {
                    &&& #[trigger] self.first_listing(*instrument_pubkey, a, b, c)
                    &&& r->Some_0.0 == self.instrument_common@[a]
                    &&& r->Some_0.1 == self.instrument_unique@[a]@[b].strike
                    &&& r->Some_0.2 == (c != 0)
                },
    {
        let mut a: usize = 0;
        while a < self.instrument_unique.len()
            invariant
                self.wf(),
                a <= self.instrument_unique@.len(),
                forall|x: int, y: int, z: int|
                    0 <= x < a ==> !#[trigger] self.lists_at(*instrument_pubkey, x, y, z),
            decreases self.instrument_unique@.len() - a,
        {
            let uniques = &self.instrument_unique[a];
            let mut b: usize = 0;
            while b < uniques.len()
                invariant
                    self.wf(),
                    a < self.instrument_unique@.len(),
                    *uniques == self.instrument_unique@[a as int],
                    b <= uniques@.len(),
                    forall|x: int, y: int, z: int|
                        0 <= x < a ==> !#[trigger] self.lists_at(*instrument_pubkey, x, y, z),
                    forall|y: int, z: int|
                        0 <= y < b ==> !#[trigger] self.lists_at(*instrument_pubkey, a as int, y, z),
                decreases uniques@.len() - b,
            {
                let unique = &uniques[b];
                let mut c: usize = 0;
                while c < 2
                    invariant
                        self.wf(),
                        a < self.instrument_unique@.len(),
                        *uniques == self.instrument_unique@[a as int],
                        b < uniques@.len(),
                        *unique == uniques@[b as int],
                        c <= 2,
                        forall|x: int, y: int, z: int|
                            0 <= x < a ==> !#[trigger] self.lists_at(*instrument_pubkey, x, y, z),
                        forall|y: int, z: int|
                            0 <= y < b ==> !#[trigger] self.lists_at(*instrument_pubkey, a as int, y, z),
                        forall|z: int|
                            0 <= z < c ==> !#[trigger] self.lists_at(
                                *instrument_pubkey,
                                a as int,
                                b as int,
                                z,
                            ),
                    decreases 2 - c,
                {
                    if unique.instrument_pubkeys[c] == *instrument_pubkey {
                        assert(self.lists_at(*instrument_pubkey, a as int, b as int, c as int));
                        assert forall|x: int, y: int, z: int|
                            listed_before(a as int, b as int, c as int, x, y, z) implies !#[trigger] self.lists_at(
                            *instrument_pubkey,
                            x,
                            y,
                            z,
                        ) by {
                            if x < a {
                            } else if x == a && y < b {
                            } else {
                            }
                        }
                        assert(self.first_listing(*instrument_pubkey, a as int, b as int, c as int));
                        return Some((self.instrument_common[a], unique.strike, c != 0));
                    }
                    c += 1;
                }
                b += 1;
            }
            a += 1;
        }
        None
    }

    /// The keys, strikes, call flags and expiry dates of the listed
    /// instruments that pass the filter, in listing order.
    fn instrument_rows(&self, filter: Option<Asset>) -> (r: (Vec<Pubkey>, Vec<u64>, Vec<u8>, Vec<u64>))
        requires
            self.wf(),
        ensures
            r.0@.len() == self.rows(filter).len(),
            r.1@.len() == self.rows(filter).len(),
            r.2@.len() == self.rows(filter).len(),
            r.3@.len() == self.rows(filter).len(),
            forall|i: int|
                0 <= i < self.rows(filter).len() ==> {
                    &&& r.0@[i] == (#[trigger] self.rows(filter)[i]).0
                    &&& r.1@[i] == self.rows(filter)[i].1
                    &&& r.2@[i] == self.rows(filter)[i].2
                    &&& r.3@[i] == self.rows(filter)[i].3
                },
    {
        let mut keys: Vec<Pubkey> = Vec::new();
        let mut strikes: Vec<u64> = Vec::new();
        let mut is_call: Vec<u8> = Vec::new();
        let mut expiry: Vec<u64> = Vec::new();
        let ghost commons = self.instrument_common@;
        let ghost uniques = self.instrument_unique@;
        let mut a: usize = 0;
        while a < self.instrument_common.len()
            invariant
                self.wf(),
                commons == self.instrument_common@,
                uniques == self.instrument_unique@,
                a <= commons.len(),
                ({
                    let rows = listed_rows(commons, uniques, filter, a as int);
                    &&& keys@.len() == rows.len()
                    &&& strikes@.len() == rows.len()
                    &&& is_call@.len() == rows.len()
                    &&& expiry@.len() == rows.len()
                    &&& forall|i: int|
                        0 <= i < rows.len() ==> {
                            &&& keys@[i] == (#[trigger] rows[i]).0
                            &&& strikes@[i] == rows[i].1
                            &&& is_call@[i] == rows[i].2
                            &&& expiry@[i] == rows[i].3
                        }
                }),
            decreases commons.len() - a,
        {
            let ic = self.instrument_common[a];
            let pass = match filter {
                Some(f) => f == ic.asset,
                None => true,
            };
            if pass {
                let group = &self.instrument_unique[a];
                let ghost prefix = listed_rows(commons, uniques, filter, a as int);
                let mut b: usize = 0;
                while b < group.len()
                    invariant
                        self.wf(),
                        a < commons.len(),
                        commons == self.instrument_common@,
                        uniques == self.instrument_unique@,
                        ic == commons[a as int],
                        *group == uniques[a as int],
                        prefix == listed_rows(commons, uniques, filter, a as int),
                        b <= group@.len(),
                        ({
                            let rows = prefix + group_rows(ic, group@.take(b as int));
                            &&& keys@.len() == rows.len()
                            &&& strikes@.len() == rows.len()
                            &&& is_call@.len() == rows.len()
                            &&& expiry@.len() == rows.len()
                            &&& forall|i: int|
                                0 <= i < rows.len() ==> {
                                    &&& keys@[i] == (#[trigger] rows[i]).0
                                    &&& strikes@[i] == rows[i].1
                                    &&& is_call@[i] == rows[i].2
                                    &&& expiry@[i] == rows[i].3
                                }
                        }),
                    decreases group@.len() - b,
                {
                    let u = group[b];
                    let ghost old_rows = prefix + group_rows(ic, group@.take(b as int));
                    keys.push(u.instrument_pubkeys[0]);
                    keys.push(u.instrument_pubkeys[1]);
                    strikes.push(u.strike as u64);
                    strikes.push(u.strike as u64);
                    is_call.push(0);
                    is_call.push(1);
                    expiry.push(ic.expiry_date);
                    expiry.push(ic.expiry_date);
                    proof {
                        assert(group@.take(b as int + 1).drop_last() =~= group@.take(b as int));
                        let new_rows = prefix + group_rows(ic, group@.take(b as int + 1));
                        assert(new_rows =~= old_rows + seq![
                            (u.instrument_pubkeys@[0], u.strike as u64, 0u8, ic.expiry_date),
                            (u.instrument_pubkeys@[1], u.strike as u64, 1u8, ic.expiry_date),
                        ]);
                    }
                    b += 1;
                }
                proof {
                    assert(group@.take(group@.len() as int) =~= group@);
                }
            }
            a += 1;
        }
        (keys, strikes, is_call, expiry)
    }

    /// The keys of the listed instruments of one asset, or of all assets.
    pub fn get_instrument_pubkey(&self, asset: Option<Asset>) -> (r: Vec<Pubkey>)
        requires
            self.wf(),
        ensures
            r@.len() == self.rows(asset).len(),
            forall|i: int| 0 <= i < r@.len() ==> r@[i] == (#[trigger] self.rows(asset)[i]).0,
    {
        self.instrument_rows(asset).0
    }

    /// The expiry date of every listed instrument of an asset, in listing order.
    pub fn get_expiry_date_with_asset(&self, asset: Asset) -> (r: Vec<u64>)
        requires
            self.wf(),
        ensures
            r@.len() == self.rows(Some(asset)).len(),
            forall|i: int| 0 <= i < r@.len() ==> r@[i] == (#[trigger] self.rows(Some(asset))[i]).3,
    {
        self.instrument_rows(Some(asset)).3
    }

    /// The keys, strikes, call flags (put 0, call 1) and expiry dates of the
    /// listed instruments of an asset, in listing order.
    pub fn get_instrument_data_with_asset(&self, asset: Asset) -> (r: (
        Vec<Pubkey>,
        Vec<u64>,
        Vec<u8>,
        Vec<u64>,
    ))
        requires
            self.wf(),
        ensures
            r.0@.len() == self.rows(Some(asset)).len(),
            r.1@.len() == self.rows(Some(asset)).len(),
            r.2@.len() == self.rows(Some(asset)).len(),
            r.3@.len() == self.rows(Some(asset)).len(),
            forall|i: int|
                0 <= i < self.rows(Some(asset)).len() ==> {
                    &&& r.0@[i] == (#[trigger] self.rows(Some(asset))[i]).0
                    &&& r.1@[i] == self.rows(Some(asset))[i].1
                    &&& r.2@[i] == self.rows(Some(asset))[i].2
                    &&& r.3@[i] == self.rows(Some(asset))[i].3
                },
    {
        self.instrument_rows(Some(asset))
    }

    /// A new exchange with no instruments or markets, trusting the given
    /// oracle accounts (no IV feed for USDC). The id must be six bytes long.
    pub fn initialize(data: InitializeExchangeData, usdc_central_pool: Pubkey) -> (r: Result<
        Exchange,
        ErrorCode,
    >)
        ensures
            vstd::utf8::encode_utf8(data.uuid@).len() as usize != 6 <==> r == Err::<Exchange, ErrorCode>(
                ErrorCode::UuidMustBeExactly6Length,
            ),
            vstd::utf8::encode_utf8(data.uuid@).len() as usize == 6 <==> r is Ok,
            r is Ok ==> {
                let ex = r->Ok_0;
                &&& ex.wf()
                &&& ex.uuid@ == data.uuid@
                &&& ex.version == data.version
                &&& ex.exchange_authority == data.exchange_authority
                &&& ex.owner == data.owner
                &&& ex.usdc_mint == data.usdc_mint
                &&& ex.usdc_central_pool == usdc_central_pool
                &&& ex.oracle@ == seq![
                    OracleData {
                        asset: Asset::Bitcoin,
                        spot_oracle: Some(data.btc_spot_oracle),
                        iv_oracle: Some(data.btc_iv_oracle),
                    },
                    OracleData {
                        asset: Asset::Ethereum,
                        spot_oracle: Some(data.eth_spot_oracle),
                        iv_oracle: Some(data.eth_iv_oracle),
                    },
                    OracleData { asset: Asset::USDC, spot_oracle: Some(data.usdc_spot_oracle), iv_oracle: None },
                ]
                &&& ex.markets@.len() == 0
                &&& ex.instrument_common@.len() == 0
                &&& ex.instrument_unique@.len() == 0
            },
    {
        if data.uuid.as_str().len() != 6 {
            return Err(ErrorCode::UuidMustBeExactly6Length);
        }
        let oracle = vec![
            OracleData {
                asset: Asset::Bitcoin,
                spot_oracle: Some(data.btc_spot_oracle),
                iv_oracle: Some(data.btc_iv_oracle),
            },
            OracleData {
                asset: Asset::Ethereum,
                spot_oracle: Some(data.eth_spot_oracle),
                iv_oracle: Some(data.eth_iv_oracle),
            },
            OracleData { asset: Asset::USDC, spot_oracle: Some(data.usdc_spot_oracle), iv_oracle: None },
        ];
        Ok(
            Exchange {
                uuid: data.uuid,
                version: data.version,
                exchange_authority: data.exchange_authority,
                owner: data.owner,
                usdc_mint: data.usdc_mint,
                usdc_central_pool,
                oracle,
                markets: Vec::new(),
                instrument_common: Vec::new(),
                instrument_unique: Vec::new(),
            },
        )
    }

    /// Drops every instrument group that has expired at `now` (expiry not
    /// after `now`), keeping the others in order.
    pub fn clean_expired_instruments(&mut self, now: u64)
        requires
            old(self).wf(),
        ensures
            final(self).wf(),
            final(self).instrument_common@ == kept_commons(
                old(self).instrument_common@,
                now,
                old(self).instrument_common@.len() as int,
            ),
            final(self).instrument_unique@.len() == kept_uniques(
                old(self).instrument_common@,
                old(self).instrument_unique@,
                now,
                old(self).instrument_common@.len() as int,
            ).len(),
            forall|k: int|
                0 <= k < final(self).instrument_unique@.len() ==> (#[trigger] final(self).instrument_unique@[k])@ == kept_uniques(
                    old(self).instrument_common@,
                    old(self).instrument_unique@,
                    now,
                    old(self).instrument_common@.len() as int,
                )[k],
            final(self).oracle == old(self).oracle,
            final(self).markets == old(self).markets,
    {
        let ghost commons = self.instrument_common@;
        let ghost uniques = self.instrument_unique@;
        let mut kept_common: Vec<InstrumentCommon> = Vec::new();
        let mut kept_unique: Vec<Vec<InstrumentUnique>> = Vec::new();
        let mut a: usize = 0;
        while a < self.instrument_common.len()
            invariant
                commons == self.instrument_common@,
                uniques == self.instrument_unique@,
                commons.len() == uniques.len(),
                a <= commons.len(),
                kept_common@ == kept_commons(commons, now, a as int),
                kept_unique@.len() == kept_uniques(commons, uniques, now, a as int).len(),
                forall|k: int|
                    0 <= k < kept_unique@.len() ==> (#[trigger] kept_unique@[k])@ == kept_uniques(
                        commons,
                        uniques,
                        now,
                        a as int,
                    )[k],
                kept_common@.len() == kept_unique@.len(),
            decreases commons.len() - a,
        {
            let ic = self.instrument_common[a];
            if ic.expiry_date > now {
                kept_common.push(ic);
                let group = self.instrument_unique[a].clone();
                proof {
                    assert(group@ =~= uniques[a as int]@);
                }
                kept_unique.push(group);
            }
            a += 1;
        }
        self.instrument_common = kept_common;
        self.instrument_unique = kept_unique;
    }
}

/// The groups among the first `n` that are live at `now`, in order.
pub open spec fn kept_commons(commons: Seq<InstrumentCommon>, now: u64, n: int) -> Seq<InstrumentCommon>
    decreases n,
{
    if n <= 0 {
        seq![]
    } else if commons[n - 1].expiry_date > now {
        kept_commons(commons, now, n - 1).push(commons[n - 1])
    } else {
        kept_commons(commons, now, n - 1)
    }
}

/// The strike lists of the groups among the first `n` that are live at `now`.
pub open spec fn kept_uniques(
    commons: Seq<InstrumentCommon>,
    uniques: Seq<Vec<InstrumentUnique>>,
    now: u64,
    n: int,
) -> Seq<Seq<InstrumentUnique>>
    decreases n,
{
    if n <= 0 {
        seq![]
    } else if commons[n - 1].expiry_date > now {
        kept_uniques(commons, uniques, now, n - 1).push(uniques[n - 1]@)
    } else {
        kept_uniques(commons, uniques, now, n - 1)
    }
}

} // verus!
