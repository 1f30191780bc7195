//! The rules of the investment as functions of plain values: what a
//! purchase costs and when it is allowed, which stages have come due, and
//! what a release pays to each holder.

use crate::config::{Config, ConfigView};
use crate::error::MinahError;
use crate::stablecoin::STABLECOIN_SCALE;
use crate::status::InvestmentStatus;
use vstd::prelude::*;

verus! {

/// Whether a number fits in 128 bits with a sign.
pub open spec fn fits_i128(x: int) -> bool {
    i128::MIN <= x <= i128::MAX
}

/// What `count` units cost, in the smallest parts of the stablecoin.
pub open spec fn spec_unit_cost(price: int, count: int) -> int {
    price * count * STABLECOIN_SCALE
}

/// Whether an investor may buy `amount` new units, and at what cost. The
/// conditions are tested in this order, and the first that fails decides:
/// the smallest batch, the buying phase, the registration, the total supply,
/// the cap per investor, the buyer's funds, the buyer's allowance.
pub open spec fn spec_check_mint(
    terms: ConfigView,
    status: InvestmentStatus,
    registered: bool,
    current_supply: int,
    holding: int,
    amount: int,
    funds: int,
    allowance: int,
) -> Result<int, MinahError> {
    let cost = spec_unit_cost(terms.price as int, amount);
    if amount < terms.min_nfts_to_mint {
        Err(MinahError::MinimumInvestmentNotMet)
    } else if status != InvestmentStatus::BuyingPhase {
        Err(MinahError::WrongPhase)
    } else if !registered {
        Err(MinahError::NotInvestor)
    } else if current_supply + amount > terms.total_supply {
        Err(MinahError::SupplyExceeded)
    } else if holding + amount > terms.max_nfts_per_investor {
        Err(MinahError::PerInvestorCapExceeded)
    } else if funds < cost {
        Err(MinahError::InsufficientBalance)
    } else if allowance < cost {
        Err(MinahError::InsufficientAllowance)
    } else {
        Ok(cost)
    }
}

/// Whether `count` units may change hands on the marketplace, and at what
/// price. The conditions are tested in this order, and the first that fails
/// decides: the phase, the seller's eligibility, the buyer's eligibility, the
/// seller's holding, the buyer's funds, the buyer's allowance, the seller's
/// approval of the contract.
pub open spec fn spec_check_trade(
    terms: ConfigView,
    status: InvestmentStatus,
    from_eligible: bool,
    to_eligible: bool,
    from_holding: int,
    count: int,
    funds: int,
    allowance: int,
    approved: bool,
) -> Result<int, MinahError> {
    let price = spec_unit_cost(terms.price as int, count);
    if status == InvestmentStatus::BuyingPhase {
        Err(MinahError::TransfersDisabledDuringBuyingPhase)
    } else if !from_eligible {
        Err(MinahError::FromNotEligible)
    } else if !to_eligible {
        Err(MinahError::ToNotEligible)
    } else if from_holding < count {
        Err(MinahError::InsufficientNftBalance)
    } else if funds < price {
        Err(MinahError::InsufficientBalance)
    } else if allowance < price {
        Err(MinahError::InsufficientAllowance)
    } else if !approved {
        Err(MinahError::SpenderNotApproved)
    } else {
        Ok(price)
    }
}

/// Whether an address may be registered as an investor: nobody is
/// registered twice, and the list has room for as many investors as 32 bits
/// can count.
pub open spec fn spec_check_registration(registered: bool, investors: int) -> Result<
    (),
    MinahError,
> {
    if registered {
        Err(MinahError::AlreadyRegistered)
    } else if investors >= u32::MAX {
        Err(MinahError::ArithmeticOverflow)
    } else {
        Ok(())
    }
}

/// Whether the chronometer may be started, and how many units are then
/// issued to the owner: those that are left of the total supply. It starts
/// once.
pub open spec fn spec_check_start(
    terms: ConfigView,
    started: bool,
    begin_date: u64,
    current_supply: u32,
) -> Result<u32, MinahError> {
    if started || begin_date != 0 {
        Err(MinahError::AlreadyStarted)
    } else if current_supply > terms.total_supply {
        Err(MinahError::SupplyExceeded)
    } else {
        Ok((terms.total_supply - current_supply) as u32)
    }
}

/// Whether a release can be made at this status: none once the investment
/// has ended.
pub open spec fn spec_check_distribution(status: InvestmentStatus) -> Result<(), MinahError> {
    if status == InvestmentStatus::Ended {
        Err(MinahError::DistributionEnded)
    } else {
        Ok(())
    }
}

/// Whether what has been paid to the investors is the amount to release.
pub open spec fn spec_check_released(released: i128, due: i128) -> Result<(), MinahError> {
    if released != due {
        Err(MinahError::DistributionAmountMismatch)
    } else {
        Ok(())
    }
}

/// How many stages in a row, from stage `index` on, have come due after
/// `elapsed` seconds.
pub open spec fn spec_stages_due(intervals: Seq<u64>, index: nat, elapsed: u64) -> nat
    decreases intervals.len() - index,
{
    if index < intervals.len() && elapsed >= intervals[index as int] {
        1 + spec_stages_due(intervals, index + 1, elapsed)
    } else {
        0
    }
}

/// The status after `released` further stages have been released: the end
/// once the last of the `stages` has been, else the status as many ranks on.
pub open spec fn spec_status_after(
    stages: nat,
    status: InvestmentStatus,
    released: nat,
) -> InvestmentStatus {
    if released == 0 {
        status
    } else if status.rank() + released > stages {
        InvestmentStatus::Ended
    } else {
        InvestmentStatus::at_rank(status.rank() + released)
    }
}

/// The seconds that the chronometer has run at time `now`. It has run none
/// before it was started, and the time cannot be before its start.
pub open spec fn spec_elapsed(started: bool, begin_date: u64, now: u64) -> Result<u64, MinahError> {
    if !started {
        Err(MinahError::NotStarted)
    } else if now < begin_date {
        Err(MinahError::InvalidLedgerTime)
    } else {
        Ok((now - begin_date) as u64)
    }
}

/// Which stages a release at time `now` covers: the index of the first and
/// their number. There is none before the chronometer has started, at a time
/// before its start, or while the next stage has not come due.
pub open spec fn spec_release_plan(
    terms: ConfigView,
    started: bool,
    begin_date: u64,
    status: InvestmentStatus,
    now: u64,
) -> Result<(nat, nat), MinahError> {
    match spec_elapsed(started && status != InvestmentStatus::BuyingPhase, begin_date, now) {
        Err(error) => Err(error),
        Ok(elapsed) => {
            let first = (status.rank() - 1) as nat;
            let due = spec_stages_due(terms.distribution_intervals, first, elapsed);
            if due == 0 {
                Err(MinahError::DistributionNotReady)
            } else {
                Ok((first, due))
            }
        },
    }
}

/// The units that the holders have together.
pub open spec fn spec_total_units(holdings: Seq<u32>) -> int
    decreases holdings.len(),
{
    if holdings.len() == 0 {
        0
    } else {
        spec_total_units(holdings.drop_last()) + holdings.last()
    }
}

/// What a release of `percent` pays in all: the worth of all units held,
/// times the percentage, divided by 100 and rounded down. It cannot be
/// computed if the worth or its product with the percentage exceeds 128 bits.
pub open spec fn spec_amount_to_release(price: int, total_units: int, percent: int) -> Result<
    int,
    MinahError,
> {
    let worth = total_units * price;
    if !fits_i128(worth) || !fits_i128(worth * percent) {
        Err(MinahError::ArithmeticOverflow)
    } else {
        Ok((worth * percent) / 100)
    }
}

/// What a release of `percent` pays to the holder of `holding` units: the
/// holding times the percentage, divided by 100 and rounded down, times the
/// price. It cannot be computed if a product exceeds 128 bits.
pub open spec fn spec_investor_amount(price: int, holding: int, percent: int) -> Result<
    int,
    MinahError,
> {
    let share = (holding * percent) / 100;
    if !fits_i128(holding * percent) || !fits_i128(share * price) {
        Err(MinahError::ArithmeticOverflow)
    } else {
        Ok(share * price)
    }
}

/// What `count` units cost, in the smallest parts of the stablecoin.
pub fn unit_cost(config: &Config, count: u32) -> (cost: i128)
    requires
        config.wf(),
    ensures
        cost == spec_unit_cost(config@.price as int, count as int),
        cost >= 0,
{
    let price: i128 = config.price();
    proof {
        assert(0 <= price * count <= price * u32::MAX) by (nonlinear_arith)
            requires
                0 <= price,
                0 <= count <= u32::MAX,
        ;
        assert(0 <= price * count * STABLECOIN_SCALE <= price * u32::MAX * STABLECOIN_SCALE)
            by (nonlinear_arith)
            requires
                0 <= price * count <= price * u32::MAX,
                STABLECOIN_SCALE > 0,
        ;
    }
    price * (count as i128) * STABLECOIN_SCALE
}

/// Whether an investor may buy `amount` new units, and at what cost.
pub fn check_mint(
    config: &Config,
    status: InvestmentStatus,
    registered: bool,
    current_supply: u32,
    holding: u32,
    amount: u32,
    funds: i128,
    allowance: i128,
) -> (outcome: Result<i128, MinahError>)
    requires
        config.wf(),
    ensures
        match spec_check_mint(
            config@,
            status,
            registered,
            current_supply as int,
            holding as int,
            amount as int,
            funds as int,
            allowance as int,
        ) {
            Ok(cost) => outcome == Ok::<i128, MinahError>(cost as i128) && fits_i128(cost),
            Err(error) => outcome == Err::<i128, MinahError>(error),
        },
{
    if amount < config.min_nfts_to_mint() {
        return Err(MinahError::MinimumInvestmentNotMet);
    }
    if status != InvestmentStatus::BuyingPhase {
        return Err(MinahError::WrongPhase);
    }
    if !registered {
        return Err(MinahError::NotInvestor);
    }
    if current_supply as u64 + amount as u64 > config.total_supply() as u64 {
        return Err(MinahError::SupplyExceeded);
    }
    if holding as u64 + amount as u64 > config.max_nfts_per_investor() as u64 {
        return Err(MinahError::PerInvestorCapExceeded);
    }
    let cost: i128 = unit_cost(config, amount);
    if funds < cost {
        return Err(MinahError::InsufficientBalance);
    }
    if allowance < cost {
        return Err(MinahError::InsufficientAllowance);
    }
    Ok(cost)
}

/// Whether `count` units may change hands on the marketplace, and at what
/// price.
pub fn check_trade(
    config: &Config,
    status: InvestmentStatus,
    from_eligible: bool,
    to_eligible: bool,
    from_holding: u32,
    count: usize,
    funds: i128,
    allowance: i128,
    approved: bool,
) -> (outcome: Result<i128, MinahError>)
    requires
        config.wf(),
    ensures
        match spec_check_trade(
            config@,
            status,
            from_eligible,
            to_eligible,
            from_holding as int,
            count as int,
            funds as int,
            allowance as int,
            approved,
        ) {
            Ok(price) => outcome == Ok::<i128, MinahError>(price as i128) && fits_i128(price)
                && price >= 0,
            Err(error) => outcome == Err::<i128, MinahError>(error),
        },
{
    if status == InvestmentStatus::BuyingPhase {
        return Err(MinahError::TransfersDisabledDuringBuyingPhase);
    }
    if !from_eligible {
        return Err(MinahError::FromNotEligible);
    }
    if !to_eligible {
        return Err(MinahError::ToNotEligible);
    }
    if (from_holding as u64) < (count as u64) {
        return Err(MinahError::InsufficientNftBalance);
    }
    let price: i128 = unit_cost(config, count as u32);
    if funds < price {
        return Err(MinahError::InsufficientBalance);
    }
    if allowance < price {
        return Err(MinahError::InsufficientAllowance);
    }
    if !approved {
        return Err(MinahError::SpenderNotApproved);
    }
    Ok(price)
}

/// Whether an address may be registered as an investor, given whether it
/// is registered already and how many investors are.
pub fn check_registration(registered: bool, investors: usize) -> (outcome: Result<(), MinahError>)
    ensures
        outcome == spec_check_registration(registered, investors as int),
{
    if registered {
        return Err(MinahError::AlreadyRegistered);
    }
    if investors >= u32::MAX as usize {
        return Err(MinahError::ArithmeticOverflow);
    }
    Ok(())
}

/// Whether the chronometer may be started, and how many units are then
/// issued to the owner.
pub fn check_start(config: &Config, started: bool, begin_date: u64, current_supply: u32) -> (outcome:
    Result<u32, MinahError>)
    ensures
        outcome == spec_check_start(config@, started, begin_date, current_supply),
{
    if started || begin_date != 0 {
        return Err(MinahError::AlreadyStarted);
    }
    if current_supply > config.total_supply() {
        return Err(MinahError::SupplyExceeded);
    }
    Ok(config.total_supply() - current_supply)
}

/// Whether a release can be made at this status.
pub fn check_distribution(status: InvestmentStatus) -> (outcome: Result<(), MinahError>)
    ensures
        outcome == spec_check_distribution(status),
{
    if status == InvestmentStatus::Ended {
        return Err(MinahError::DistributionEnded);
    }
    Ok(())
}

/// Whether what has been paid to the investors is the amount to release.
pub fn check_released(released: i128, due: i128) -> (outcome: Result<(), MinahError>)
    ensures
        outcome == spec_check_released(released, due),
{
    if released != due {
        return Err(MinahError::DistributionAmountMismatch);
    }
    Ok(())
}

/// How many stages in a row, from stage `index` on, have come due after
/// `elapsed` seconds.
pub fn stages_due(config: &Config, index: usize, elapsed: u64) -> (due: usize)
    ensures
        due == spec_stages_due(config@.distribution_intervals, index as nat, elapsed),
        index + due <= config@.stages() || due == 0,
{
    let stages: usize = config.stages();
    if index >= stages {
        return 0;
    }
    let mut next: usize = index;
    loop
        invariant
            stages == config@.distribution_intervals.len(),
            index <= next <= stages,
            spec_stages_due(config@.distribution_intervals, index as nat, elapsed) == (next
                - index) + spec_stages_due(config@.distribution_intervals, next as nat, elapsed),
        ensures
            spec_stages_due(config@.distribution_intervals, next as nat, elapsed) == 0,
        decreases stages - next,
    {
        match config.distribution_interval(next) {
            Some(interval) => {
                if elapsed < interval {
                    break ;
                }
            },
            None => {
                break ;
            },
        }
        next += 1;
    }
    next - index
}

/// The status after `released` further stages have been released.
pub fn status_after(config: &Config, status: InvestmentStatus, released: usize) -> (after:
    InvestmentStatus)
    ensures
        after == spec_status_after(config@.stages(), status, released as nat),
{
    let rank: usize = status.code() as usize;
    if released == 0 {
        status
    } else if released > config.stages() || rank > config.stages() - released {
        InvestmentStatus::Ended
    } else {
        let reached: usize = rank + released;
        if reached > 12 {
            InvestmentStatus::Ended
        } else {
            InvestmentStatus::from_code(reached as u32)
        }
    }
}

/// The seconds that the chronometer has run at time `now`.
pub fn elapsed(started: bool, begin_date: u64, now: u64) -> (outcome: Result<u64, MinahError>)
    ensures
        outcome == spec_elapsed(started, begin_date, now),
{
    if !started {
        return Err(MinahError::NotStarted);
    }
    if now < begin_date {
        return Err(MinahError::InvalidLedgerTime);
    }
    Ok(now - begin_date)
}

/// Which stages a release at time `now` covers: the index of the first and
/// their number.
pub fn release_plan(
    config: &Config,
    started: bool,
    begin_date: u64,
    status: InvestmentStatus,
    now: u64,
) -> (outcome: Result<(usize, usize), MinahError>)
    ensures
        match spec_release_plan(config@, started, begin_date, status, now) {
            Ok((first, due)) => outcome == Ok::<(usize, usize), MinahError>(
                (first as usize, due as usize),
            ) && first + due <= config@.stages(),
            Err(error) => outcome == Err::<(usize, usize), MinahError>(error),
        },
{
    let first: Option<usize> = status.stage_index();
    let run: u64 = match elapsed(started && first.is_some(), begin_date, now) {
        Ok(run) => run,
        Err(error) => {
            return Err(error);
        },
    };
    let first: usize = match first {
        Some(first) => first,
        None => {
            return Err(MinahError::NotStarted);
        },
    };
    let due: usize = stages_due(config, first, run);
    if due == 0 {
        return Err(MinahError::DistributionNotReady);
    }
    Ok((first, due))
}

/// The units that the holders have together.
pub fn total_units(holdings: &Vec<u32>) -> (total: i128)
    ensures
        total == spec_total_units(holdings@),
        0 <= total <= holdings@.len() * u32::MAX,
{
    let mut total: i128 = 0;
    let mut i: usize = 0;
    while i < holdings.len()
        invariant
            i <= holdings@.len(),
            total == spec_total_units(holdings@.take(i as int)),
            0 <= total <= i * u32::MAX,
        decreases holdings@.len() - i,
    {
        proof {
            assert(holdings@.take(i + 1).drop_last() =~= holdings@.take(i as int));
        }
        total = total + holdings[i] as i128;
        i += 1;
    }
    proof {
        assert(holdings@.take(i as int) =~= holdings@);
    }
    total
}

/// What a release of `percent` pays in all to holders of `total_units`
/// units.
pub fn amount_to_release(price: i128, total_units: i128, percent: i128) -> (outcome: Result<
    i128,
    MinahError,
>)
    ensures
        match spec_amount_to_release(price as int, total_units as int, percent as int) {
            Ok(amount) => outcome == Ok::<i128, MinahError>(amount as i128) && fits_i128(amount),
            Err(error) => outcome == Err::<i128, MinahError>(error),
        },
{
    let worth: i128 = match total_units.checked_mul(price) {
        Some(worth) => worth,
        None => {
            return Err(MinahError::ArithmeticOverflow);
        },
    };
    let scaled: i128 = match worth.checked_mul(percent) {
        Some(scaled) => scaled,
        None => {
            return Err(MinahError::ArithmeticOverflow);
        },
    };
    match scaled.checked_div_euclid(100) {
        Some(amount) => Ok(amount),
        None => Err(MinahError::ArithmeticOverflow),
    }
}

/// What a release of `percent` pays to the holder of `holding` units.
pub fn investor_amount(price: i128, holding: u32, percent: i128) -> (outcome: Result<
    i128,
    MinahError,
>)
    ensures
        match spec_investor_amount(price as int, holding as int, percent as int) {
            Ok(amount) => outcome == Ok::<i128, MinahError>(amount as i128) && fits_i128(amount),
            Err(error) => outcome == Err::<i128, MinahError>(error),
        },
{
    let scaled: i128 = match (holding as i128).checked_mul(percent) {
        Some(scaled) => scaled,
        None => {
            return Err(MinahError::ArithmeticOverflow);
        },
    };
    let share: i128 = match scaled.checked_div_euclid(100) {
        Some(share) => share,
        None => {
            return Err(MinahError::ArithmeticOverflow);
        },
    };
    match share.checked_mul(price) {
        Some(amount) => Ok(amount),
        None => Err(MinahError::ArithmeticOverflow),
    }
}

} // verus!
