use minah::InvestmentStatus;

const ALL: [InvestmentStatus; 13] = [
    InvestmentStatus::BuyingPhase,
    InvestmentStatus::BeforeFirstRelease,
    InvestmentStatus::SixMonthsDone,
    InvestmentStatus::TenMonthsDone,
    InvestmentStatus::OneYearTwoMonthsDone,
    InvestmentStatus::OneYearSixMonthsDone,
    InvestmentStatus::OneYearTenMonthsDone,
    InvestmentStatus::TwoYearsTwoMonthsDone,
    InvestmentStatus::TwoYearsSixMonthsDone,
    InvestmentStatus::TwoYearsTenMonthsDone,
    InvestmentStatus::ThreeYearsTwoMonthsDone,
    InvestmentStatus::ThreeYearsSixMonthsDone,
    InvestmentStatus::Ended,
];

#[test]
fn code_is_the_place_in_the_order() {
    for (place, status) in ALL.iter().enumerate() {
        assert_eq!(status.code(), place as u32);
    }
}

#[test]
fn from_code_undoes_code() {
    for status in ALL.iter() {
        assert_eq!(InvestmentStatus::from_code(status.code()), *status);
    }
    assert_eq!(InvestmentStatus::from_code(13), InvestmentStatus::Ended);
    assert_eq!(InvestmentStatus::from_code(u32::MAX), InvestmentStatus::Ended);
}

#[test]
fn stage_index_is_one_less_than_the_code() {
    assert_eq!(InvestmentStatus::BuyingPhase.stage_index(), None);
    assert_eq!(InvestmentStatus::BeforeFirstRelease.stage_index(), Some(0));
    assert_eq!(InvestmentStatus::SixMonthsDone.stage_index(), Some(1));
    assert_eq!(InvestmentStatus::ThreeYearsTwoMonthsDone.stage_index(), Some(9));
    assert_eq!(InvestmentStatus::Ended.stage_index(), Some(11));
}
