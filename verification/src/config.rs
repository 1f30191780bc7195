//! The terms of an investment: price, caps and the schedule of releases.

use crate::error::MinahError;
use crate::stablecoin::STABLECOIN_SCALE;
use crate::status::MAX_STAGES;
use vstd::prelude::*;

verus! {

/// The terms of an investment. They are checked when they are put together
/// and never change afterwards.
#[derive(Debug)]
pub struct Config {
    price: i128,
    total_supply: u32,
    min_nfts_to_mint: u32,
    max_nfts_per_investor: u32,
    distribution_intervals: Vec<u64>,
    roi_percentages: Vec<i128>,
}

/// The terms as a mathematical value.
pub struct ConfigView {
    /// Price of one unit, in whole stablecoins.
    pub price: i128,
    /// The number of units that exist once the buying phase is over.
    pub total_supply: u32,
    /// The smallest number of units that can be bought at once.
    pub min_nfts_to_mint: u32,
    /// The largest number of units that one investor can buy.
    pub max_nfts_per_investor: u32,
    /// For each stage, the seconds after the start of the chronometer at
    /// which it comes due.
    pub distribution_intervals: Seq<u64>,
    /// For each stage, the return that it releases, in scaled percent.
    pub roi_percentages: Seq<i128>,
}

impl ConfigView {
    /// The number of release stages.
    pub open spec fn stages(self) -> nat {
        self.distribution_intervals.len()
    }

    /// Terms that an investment can run on: as many percentages as
    /// intervals, no more stages than have a name, no percentage below zero,
    /// and a price that is not negative and at which any 32-bit number of
    /// units costs an amount that fits in 128 bits.
    pub open spec fn valid(self) -> bool {
        &&& self.distribution_intervals.len() == self.roi_percentages.len()
        &&& self.distribution_intervals.len() <= MAX_STAGES
        &&& forall|i: int| 0 <= i < self.roi_percentages.len() ==> self.roi_percentages[i] >= 0
        &&& 0 <= self.price
        &&& self.price * u32::MAX * STABLECOIN_SCALE <= i128::MAX
    }
}

/// The terms of the standard deployment: 4500 units at 1 stablecoin, from 40
/// to 150 units per investor, and ten releases, one minute apart, of 4 % and
/// then nine times 2.67 %, each percentage scaled by ten million.
pub open spec fn spec_standard() -> ConfigView {
    ConfigView {
        price: 1,
        total_supply: 4500,
        min_nfts_to_mint: 40,
        max_nfts_per_investor: 150,
        distribution_intervals: seq![60u64, 120, 180, 240, 300, 360, 420, 480, 540, 600],
        roi_percentages: seq![
            40_000_000i128,
            26_700_000,
            26_700_000,
            26_700_000,
            26_700_000,
            26_700_000,
            26_700_000,
            26_700_000,
            26_700_000,
            26_700_000,
        ],
    }
}

/// Largest price at which every 32-bit number of units costs an amount that
/// fits in 128 bits: the largest 128-bit number divided by the largest 32-bit
/// number and by the stablecoin's scale.
pub const MAX_PRICE: i128 = 3_961_408_126_635_554_083_577;

/// `MAX_PRICE` is the bound that `valid` puts on the price.
pub proof fn lemma_max_price(price: int)
    ensures
        price * u32::MAX * STABLECOIN_SCALE <= i128::MAX <==> price <= MAX_PRICE,
{
    assert(price * u32::MAX * STABLECOIN_SCALE == price * 42_949_672_950_000_000) by (nonlinear_arith);
}

impl Config {
    /// The terms as a mathematical value.
    pub closed spec fn view(&self) -> ConfigView {
        ConfigView {
            price: self.price,
            total_supply: self.total_supply,
            min_nfts_to_mint: self.min_nfts_to_mint,
            max_nfts_per_investor: self.max_nfts_per_investor,
            distribution_intervals: self.distribution_intervals@,
            roi_percentages: self.roi_percentages@,
        }
    }

    /// The terms are such that an investment can run on them.
    pub open spec fn wf(&self) -> bool {
        self@.valid()
    }

    /// Puts terms together, if an investment can run on them.
    pub fn new(
        price: i128,
        total_supply: u32,
        min_nfts_to_mint: u32,
        max_nfts_per_investor: u32,
        distribution_intervals: Vec<u64>,
        roi_percentages: Vec<i128>,
    ) -> (outcome: Result<Config, MinahError>)
        ensures
            ({
                let terms = ConfigView {
                    price,
                    total_supply,
                    min_nfts_to_mint,
                    max_nfts_per_investor,
                    distribution_intervals: distribution_intervals@,
                    roi_percentages: roi_percentages@,
                };
                match outcome {
                    Ok(config) => terms.valid() && config@ == terms,
                    Err(error) => !terms.valid() && error == MinahError::InvalidConfiguration,
                }
            }),
    {
        proof {
            lemma_max_price(price as int);
        }
        if distribution_intervals.len() != roi_percentages.len() || distribution_intervals.len()
            > MAX_STAGES || price < 0 || price > MAX_PRICE {
            return Err(MinahError::InvalidConfiguration);
        }
        let mut i: usize = 0;
        while i < roi_percentages.len()
            invariant
                i <= roi_percentages@.len(),
                forall|k: int| 0 <= k < i ==> roi_percentages@[k] >= 0,
            decreases roi_percentages@.len() - i,
        {
            if roi_percentages[i] < 0 {
                return Err(MinahError::InvalidConfiguration);
            }
            i += 1;
        }
        Ok(
            Config {
                price,
                total_supply,
                min_nfts_to_mint,
                max_nfts_per_investor,
                distribution_intervals,
                roi_percentages,
            },
        )
    }

    /// The terms of the standard deployment.
    pub fn standard() -> (config: Config)
        ensures
            config.wf(),
            config@ == spec_standard(),
    {
        let distribution_intervals: Vec<u64> = vec![60, 120, 180, 240, 300, 360, 420, 480, 540, 600];
        let roi_percentages: Vec<i128> = vec![
            40_000_000,
            26_700_000,
            26_700_000,
            26_700_000,
            26_700_000,
            26_700_000,
            26_700_000,
            26_700_000,
            26_700_000,
            26_700_000,
        ];
        proof {
            lemma_max_price(1);
            assert(distribution_intervals@ =~= spec_standard().distribution_intervals);
            assert(roi_percentages@ =~= spec_standard().roi_percentages);
        }
        Config {
            price: 1,
            total_supply: 4500,
            min_nfts_to_mint: 40,
            max_nfts_per_investor: 150,
            distribution_intervals,
            roi_percentages,
        }
    }

    /// A copy of the terms.
    pub fn duplicate(&self) -> (copy: Config)
        ensures
            copy@ == self@,
    {
        let copy = Config {
            price: self.price,
            total_supply: self.total_supply,
            min_nfts_to_mint: self.min_nfts_to_mint,
            max_nfts_per_investor: self.max_nfts_per_investor,
            distribution_intervals: self.distribution_intervals.clone(),
            roi_percentages: self.roi_percentages.clone(),
        };
        proof {
            assert(copy.distribution_intervals@ =~= self.distribution_intervals@);
            assert(copy.roi_percentages@ =~= self.roi_percentages@);
        }
        copy
    }

    /// Price of one unit, in whole stablecoins.
    pub fn price(&self) -> (price: i128)
        ensures
            price == self@.price,
    {
        self.price
    }

    /// The number of units that exist once the buying phase is over.
    pub fn total_supply(&self) -> (total_supply: u32)
        ensures
            total_supply == self@.total_supply,
    {
        self.total_supply
    }

    /// The smallest number of units that can be bought at once.
    pub fn min_nfts_to_mint(&self) -> (min: u32)
        ensures
            min == self@.min_nfts_to_mint,
    {
        self.min_nfts_to_mint
    }

    /// The largest number of units that one investor can buy.
    pub fn max_nfts_per_investor(&self) -> (max: u32)
        ensures
            max == self@.max_nfts_per_investor,
    {
        self.max_nfts_per_investor
    }

    /// The number of release stages.
    pub fn stages(&self) -> (stages: usize)
        ensures
            stages == self@.stages(),
    {
        self.distribution_intervals.len()
    }

    /// The seconds after the start at which stage `index` comes due.
    pub fn distribution_interval(&self, index: usize) -> (interval: Option<u64>)
        ensures
            interval == (if index < self@.distribution_intervals.len() {
                Some(self@.distribution_intervals[index as int])
            } else {
                None
            }),
    {
        if index < self.distribution_intervals.len() {
            Some(self.distribution_intervals[index])
        } else {
            None
        }
    }

    /// The return that stage `index` releases, in scaled percent.
    pub fn roi_percentage(&self, index: usize) -> (percentage: Option<i128>)
        ensures
            percentage == (if index < self@.roi_percentages.len() {
                Some(self@.roi_percentages[index as int])
            } else {
                None
            }),
    {
        if index < self.roi_percentages.len() {
            Some(self.roi_percentages[index])
        } else {
            None
        }
    }
}

} // verus!
