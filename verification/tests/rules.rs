use minah::rules::{
    amount_to_release, check_distribution, check_mint, check_registration, check_released,
    check_start, check_trade, elapsed, investor_amount, release_plan, stages_due,
    status_after, total_units, unit_cost,
};
use minah::{Config, InvestmentStatus, MinahError};

fn terms() -> Config {
    Config::standard()
}

#[test]
fn unit_cost_is_price_times_count_times_scale() {
    let config = terms();
    assert_eq!(unit_cost(&config, 0), 0);
    assert_eq!(unit_cost(&config, 1), 10_000_000);
    assert_eq!(unit_cost(&config, 40), 400_000_000);
    assert_eq!(unit_cost(&config, u32::MAX), 42_949_672_950_000_000);

    let dear = Config::new(455, 4500, 40, 150, vec![], vec![]).unwrap();
    assert_eq!(unit_cost(&dear, 3), 13_650_000_000);
}

#[test]
fn check_mint_allows_what_the_terms_allow() {
    let config = terms();
    let cost = 400_000_000;
    assert_eq!(
        check_mint(&config, InvestmentStatus::BuyingPhase, true, 0, 0, 40, cost, cost),
        Ok(cost)
    );
    // up to the cap of one investor and up to the total supply
    assert_eq!(
        check_mint(&config, InvestmentStatus::BuyingPhase, true, 4350, 0, 150, i128::MAX, i128::MAX),
        Ok(1_500_000_000)
    );
    assert_eq!(
        check_mint(&config, InvestmentStatus::BuyingPhase, true, 100, 110, 40, cost, cost),
        Ok(cost)
    );
}

#[test]
fn check_mint_reports_the_first_condition_that_fails() {
    let config = terms();
    let phase = InvestmentStatus::BuyingPhase;
    let later = InvestmentStatus::BeforeFirstRelease;
    // everything is wrong: the smallest batch decides
    assert_eq!(
        check_mint(&config, later, false, 4500, 150, 39, 0, 0),
        Err(MinahError::MinimumInvestmentNotMet)
    );
    assert_eq!(
        check_mint(&config, later, false, 4500, 150, 40, 0, 0),
        Err(MinahError::WrongPhase)
    );
    assert_eq!(
        check_mint(&config, InvestmentStatus::Ended, true, 0, 0, 40, i128::MAX, i128::MAX),
        Err(MinahError::WrongPhase)
    );
    assert_eq!(
        check_mint(&config, phase, false, 4500, 150, 40, 0, 0),
        Err(MinahError::NotInvestor)
    );
    assert_eq!(
        check_mint(&config, phase, true, 4461, 150, 40, 0, 0),
        Err(MinahError::SupplyExceeded)
    );
    assert_eq!(
        check_mint(&config, phase, true, u32::MAX, 0, u32::MAX, 0, 0),
        Err(MinahError::SupplyExceeded)
    );
    assert_eq!(
        check_mint(&config, phase, true, 0, 111, 40, 0, 0),
        Err(MinahError::PerInvestorCapExceeded)
    );
    assert_eq!(
        check_mint(&config, phase, true, 0, 110, 40, 399_999_999, 0),
        Err(MinahError::InsufficientBalance)
    );
    assert_eq!(
        check_mint(&config, phase, true, 0, 110, 40, 400_000_000, 399_999_999),
        Err(MinahError::InsufficientAllowance)
    );
}

#[test]
fn check_trade_allows_and_prices_a_trade() {
    let config = terms();
    let status = InvestmentStatus::SixMonthsDone;
    assert_eq!(
        check_trade(&config, status, true, true, 50, 50, 500_000_000, 500_000_000, true),
        Ok(500_000_000)
    );
    assert_eq!(check_trade(&config, InvestmentStatus::Ended, true, true, 0, 0, 0, 0, true), Ok(0));
}

#[test]
fn check_trade_reports_the_first_condition_that_fails() {
    let config = terms();
    let status = InvestmentStatus::BeforeFirstRelease;
    assert_eq!(
        check_trade(&config, InvestmentStatus::BuyingPhase, false, false, 0, 1, 0, 0, false),
        Err(MinahError::TransfersDisabledDuringBuyingPhase)
    );
    assert_eq!(
        check_trade(&config, status, false, false, 0, 1, 0, 0, false),
        Err(MinahError::FromNotEligible)
    );
    assert_eq!(
        check_trade(&config, status, true, false, 0, 1, 0, 0, false),
        Err(MinahError::ToNotEligible)
    );
    assert_eq!(
        check_trade(&config, status, true, true, 4, 5, 0, 0, false),
        Err(MinahError::InsufficientNftBalance)
    );
    assert_eq!(
        check_trade(&config, status, true, true, 5, 5, 49_999_999, 0, false),
        Err(MinahError::InsufficientBalance)
    );
    assert_eq!(
        check_trade(&config, status, true, true, 5, 5, 50_000_000, 49_999_999, false),
        Err(MinahError::InsufficientAllowance)
    );
    assert_eq!(
        check_trade(&config, status, true, true, 5, 5, 50_000_000, 50_000_000, false),
        Err(MinahError::SpenderNotApproved)
    );
}

#[test]
fn check_registration_refuses_a_second_registration() {
    assert_eq!(check_registration(false, 0), Ok(()));
    assert_eq!(check_registration(true, 1), Err(MinahError::AlreadyRegistered));
    assert_eq!(check_registration(false, u32::MAX as usize - 1), Ok(()));
    assert_eq!(check_registration(false, u32::MAX as usize), Err(MinahError::ArithmeticOverflow));
}

#[test]
fn check_start_gives_what_is_left_of_the_supply() {
    let config = terms();
    assert_eq!(check_start(&config, false, 0, 0), Ok(4500));
    assert_eq!(check_start(&config, false, 0, 175), Ok(4325));
    assert_eq!(check_start(&config, false, 0, 4500), Ok(0));
    assert_eq!(check_start(&config, true, 0, 175), Err(MinahError::AlreadyStarted));
    assert_eq!(check_start(&config, false, 1, 175), Err(MinahError::AlreadyStarted));
    assert_eq!(check_start(&config, false, 0, 4501), Err(MinahError::SupplyExceeded));
}

#[test]
fn check_distribution_refuses_after_the_end() {
    assert_eq!(check_distribution(InvestmentStatus::BeforeFirstRelease), Ok(()));
    assert_eq!(check_distribution(InvestmentStatus::BuyingPhase), Ok(()));
    assert_eq!(check_distribution(InvestmentStatus::Ended), Err(MinahError::DistributionEnded));
}

#[test]
fn check_released_wants_the_exact_amount() {
    assert_eq!(check_released(8, 8), Ok(()));
    assert_eq!(check_released(9, 10), Err(MinahError::DistributionAmountMismatch));
    assert_eq!(check_released(10, 9), Err(MinahError::DistributionAmountMismatch));
}

#[test]
fn stages_due_counts_the_stages_that_have_elapsed() {
    let config = terms();
    assert_eq!(stages_due(&config, 0, 0), 0);
    assert_eq!(stages_due(&config, 0, 59), 0);
    assert_eq!(stages_due(&config, 0, 60), 1);
    assert_eq!(stages_due(&config, 0, 119), 1);
    assert_eq!(stages_due(&config, 0, 120), 2);
    assert_eq!(stages_due(&config, 0, 600), 10);
    assert_eq!(stages_due(&config, 0, u64::MAX), 10);
    assert_eq!(stages_due(&config, 2, 600), 8);
    assert_eq!(stages_due(&config, 9, 599), 0);
    assert_eq!(stages_due(&config, 9, 600), 1);
    assert_eq!(stages_due(&config, 10, 600), 0);
    assert_eq!(stages_due(&config, 11, u64::MAX), 0);
}

#[test]
fn stages_due_stops_at_the_first_stage_that_is_not_due() {
    // the second interval is longer than the third
    let config = Config::new(1, 100, 1, 100, vec![10, 100, 20], vec![1, 2, 3]).unwrap();
    assert_eq!(stages_due(&config, 0, 50), 1);
    assert_eq!(stages_due(&config, 1, 50), 0);
    assert_eq!(stages_due(&config, 2, 50), 1);
    assert_eq!(stages_due(&config, 0, 100), 3);
}

#[test]
fn status_after_moves_on_and_ends_after_the_last_stage() {
    let config = terms();
    let start = InvestmentStatus::BeforeFirstRelease;
    assert_eq!(status_after(&config, start, 0), InvestmentStatus::BeforeFirstRelease);
    assert_eq!(status_after(&config, start, 1), InvestmentStatus::SixMonthsDone);
    assert_eq!(status_after(&config, start, 2), InvestmentStatus::TenMonthsDone);
    assert_eq!(status_after(&config, start, 9), InvestmentStatus::ThreeYearsTwoMonthsDone);
    assert_eq!(status_after(&config, start, 10), InvestmentStatus::Ended);
    assert_eq!(
        status_after(&config, InvestmentStatus::ThreeYearsTwoMonthsDone, 1),
        InvestmentStatus::Ended
    );
    assert_eq!(
        status_after(&config, InvestmentStatus::TenMonthsDone, 3),
        InvestmentStatus::OneYearTenMonthsDone
    );
    assert_eq!(status_after(&config, InvestmentStatus::Ended, 0), InvestmentStatus::Ended);

    // with three stages the end follows the third release
    let short = Config::new(1, 100, 1, 100, vec![10, 20, 30], vec![1, 2, 3]).unwrap();
    assert_eq!(status_after(&short, start, 2), InvestmentStatus::TenMonthsDone);
    assert_eq!(status_after(&short, start, 3), InvestmentStatus::Ended);
    assert_eq!(status_after(&short, InvestmentStatus::TenMonthsDone, 1), InvestmentStatus::Ended);
}

#[test]
fn release_plan_names_the_stages_to_release() {
    let config = terms();
    let start = InvestmentStatus::BeforeFirstRelease;
    assert_eq!(release_plan(&config, true, 1000, start, 1060), Ok((0, 1)));
    assert_eq!(release_plan(&config, true, 1000, start, 1600), Ok((0, 10)));
    assert_eq!(release_plan(&config, true, 1000, InvestmentStatus::TenMonthsDone, 1600), Ok((2, 8)));
    assert_eq!(
        release_plan(&config, true, 0, InvestmentStatus::ThreeYearsTwoMonthsDone, 600),
        Ok((9, 1))
    );
}

#[test]
fn release_plan_refuses_what_is_not_due() {
    let config = terms();
    let start = InvestmentStatus::BeforeFirstRelease;
    assert_eq!(release_plan(&config, false, 0, start, 60), Err(MinahError::NotStarted));
    assert_eq!(
        release_plan(&config, true, 0, InvestmentStatus::BuyingPhase, 60),
        Err(MinahError::NotStarted)
    );
    assert_eq!(release_plan(&config, true, 1000, start, 999), Err(MinahError::InvalidLedgerTime));
    assert_eq!(release_plan(&config, true, 1000, start, 1000), Err(MinahError::DistributionNotReady));
    assert_eq!(release_plan(&config, true, 1000, start, 1059), Err(MinahError::DistributionNotReady));
    assert_eq!(
        release_plan(&config, true, 1000, InvestmentStatus::SixMonthsDone, 1119),
        Err(MinahError::DistributionNotReady)
    );
    assert_eq!(
        release_plan(&config, true, 1000, InvestmentStatus::Ended, u64::MAX),
        Err(MinahError::DistributionNotReady)
    );
}

#[test]
fn elapsed_time_is_counted_from_the_begin_date() {
    assert_eq!(elapsed(true, 1_000, 1_060), Ok(60));
    assert_eq!(elapsed(true, 0, 0), Ok(0));
    assert_eq!(elapsed(true, 0, u64::MAX), Ok(u64::MAX));
    assert_eq!(elapsed(false, 0, 60), Err(MinahError::NotStarted));
    assert_eq!(elapsed(false, 100, 60), Err(MinahError::NotStarted));
    assert_eq!(elapsed(true, 100, 99), Err(MinahError::InvalidLedgerTime));
}

#[test]
fn total_units_adds_the_holdings() {
    assert_eq!(total_units(&vec![]), 0);
    assert_eq!(total_units(&vec![100, 50, 25]), 175);
    assert_eq!(total_units(&vec![0, 0]), 0);
    assert_eq!(total_units(&vec![u32::MAX, u32::MAX]), 8_589_934_590);
}

#[test]
fn amount_to_release_is_worth_times_percent_over_100() {
    // one investor with 100 units at price 1 and 8 per cent
    assert_eq!(amount_to_release(1, 100, 8), Ok(8));
    assert_eq!(amount_to_release(1, 150, 8_000_000), Ok(12_000_000));
    assert_eq!(amount_to_release(1, 150, 108_000_000), Ok(162_000_000));
    assert_eq!(amount_to_release(1, 100, 40_000_000), Ok(40_000_000));
    assert_eq!(amount_to_release(455, 100, 26_700_000), Ok(12_148_500_000));
    assert_eq!(amount_to_release(1, 0, 40_000_000), Ok(0));
    // rounded down
    assert_eq!(amount_to_release(1, 125, 8), Ok(10));
    assert_eq!(amount_to_release(1, 99, 1), Ok(0));
    assert_eq!(amount_to_release(1, 1, -1), Ok(-1));
}

#[test]
fn amount_to_release_reports_what_does_not_fit() {
    assert_eq!(amount_to_release(1, 2, i128::MAX), Err(MinahError::ArithmeticOverflow));
    assert_eq!(amount_to_release(i128::MAX, 2, 0), Err(MinahError::ArithmeticOverflow));
    assert_eq!(amount_to_release(1, 1, i128::MAX), Ok(i128::MAX / 100));
}

#[test]
fn investor_amount_is_holding_times_percent_over_100_times_price() {
    assert_eq!(investor_amount(1, 100, 8), Ok(8));
    assert_eq!(investor_amount(1, 100, 40_000_000), Ok(40_000_000));
    assert_eq!(investor_amount(1, 90, 26_700_000), Ok(24_030_000));
    assert_eq!(investor_amount(455, 100, 26_700_000), Ok(12_148_500_000));
    assert_eq!(investor_amount(1, 0, 40_000_000), Ok(0));
    // the division comes before the price, and rounds down
    assert_eq!(investor_amount(1, 40, 8), Ok(3));
    assert_eq!(investor_amount(1, 45, 8), Ok(3));
    assert_eq!(investor_amount(3, 45, 8), Ok(9));
    assert_eq!(investor_amount(1, 1, -1), Ok(-1));
}

#[test]
fn investor_amount_reports_what_does_not_fit() {
    assert_eq!(investor_amount(1, 2, i128::MAX), Err(MinahError::ArithmeticOverflow));
    assert_eq!(investor_amount(i128::MAX, 200, 1), Err(MinahError::ArithmeticOverflow));
    assert_eq!(investor_amount(i128::MAX, 100, 1), Ok(i128::MAX));
}
