//! The stages of an investment, from the buying phase to its end.

use vstd::prelude::*;

verus! {

/// Number of release stages that have a name of their own.
pub const MAX_STAGES: usize = 10;

/// Where an investment stands. The order of the variants is the order in time.
#[derive(Debug, Clone, Copy, PartialEq, Eq, Structural)]
pub enum InvestmentStatus {
    BuyingPhase,
    BeforeFirstRelease,
    SixMonthsDone,
    TenMonthsDone,
    OneYearTwoMonthsDone,
    OneYearSixMonthsDone,
    OneYearTenMonthsDone,
    TwoYearsTwoMonthsDone,
    TwoYearsSixMonthsDone,
    TwoYearsTenMonthsDone,
    ThreeYearsTwoMonthsDone,
    ThreeYearsSixMonthsDone,
    Ended,
}

impl InvestmentStatus {
    /// Position of the status in the order of the stages, from 0 for the
    /// buying phase to 12 for the end.
    pub open spec fn rank(self) -> nat {
        match self {
            InvestmentStatus::BuyingPhase => 0,
            InvestmentStatus::BeforeFirstRelease => 1,
            InvestmentStatus::SixMonthsDone => 2,
            InvestmentStatus::TenMonthsDone => 3,
            InvestmentStatus::OneYearTwoMonthsDone => 4,
            InvestmentStatus::OneYearSixMonthsDone => 5,
            InvestmentStatus::OneYearTenMonthsDone => 6,
            InvestmentStatus::TwoYearsTwoMonthsDone => 7,
            InvestmentStatus::TwoYearsSixMonthsDone => 8,
            InvestmentStatus::TwoYearsTenMonthsDone => 9,
            InvestmentStatus::ThreeYearsTwoMonthsDone => 10,
            InvestmentStatus::ThreeYearsSixMonthsDone => 11,
            InvestmentStatus::Ended => 12,
        }
    }

    /// The status at a given rank; every rank above 11 is the end.
    pub open spec fn at_rank(rank: nat) -> InvestmentStatus {
        if rank == 0 {
            InvestmentStatus::BuyingPhase
        } else if rank == 1 {
            InvestmentStatus::BeforeFirstRelease
        } else if rank == 2 {
            InvestmentStatus::SixMonthsDone
        } else if rank == 3 {
            InvestmentStatus::TenMonthsDone
        } else if rank == 4 {
            InvestmentStatus::OneYearTwoMonthsDone
        } else if rank == 5 {
            InvestmentStatus::OneYearSixMonthsDone
        } else if rank == 6 {
            InvestmentStatus::OneYearTenMonthsDone
        } else if rank == 7 {
            InvestmentStatus::TwoYearsTwoMonthsDone
        } else if rank == 8 {
            InvestmentStatus::TwoYearsSixMonthsDone
        } else if rank == 9 {
            InvestmentStatus::TwoYearsTenMonthsDone
        } else if rank == 10 {
            InvestmentStatus::ThreeYearsTwoMonthsDone
        } else if rank == 11 {
            InvestmentStatus::ThreeYearsSixMonthsDone
        } else {
            InvestmentStatus::Ended
        }
    }

    /// Index of the release stage that comes next: the rank less one. The
    /// buying phase has none.
    pub open spec fn spec_stage_index(self) -> Option<nat> {
        if self == InvestmentStatus::BuyingPhase {
            None
        } else {
            Some((self.rank() - 1) as nat)
        }
    }

    /// The rank as a number.
    pub fn code(self) -> (code: u32)
        ensures
            code == self.rank(),
    {
        match self {
            InvestmentStatus::BuyingPhase => 0,
            InvestmentStatus::BeforeFirstRelease => 1,
            InvestmentStatus::SixMonthsDone => 2,
            InvestmentStatus::TenMonthsDone => 3,
            InvestmentStatus::OneYearTwoMonthsDone => 4,
            InvestmentStatus::OneYearSixMonthsDone => 5,
            InvestmentStatus::OneYearTenMonthsDone => 6,
            InvestmentStatus::TwoYearsTwoMonthsDone => 7,
            InvestmentStatus::TwoYearsSixMonthsDone => 8,
            InvestmentStatus::TwoYearsTenMonthsDone => 9,
            InvestmentStatus::ThreeYearsTwoMonthsDone => 10,
            InvestmentStatus::ThreeYearsSixMonthsDone => 11,
            InvestmentStatus::Ended => 12,
        }
    }

    /// The status with the given rank; a rank above 11 gives the end.
    pub fn from_code(code: u32) -> (status: InvestmentStatus)
        ensures
            status == Self::at_rank(code as nat),
            code <= 12 ==> status.rank() == code,
    {
        if code == 0 {
            InvestmentStatus::BuyingPhase
        } else if code == 1 {
            InvestmentStatus::BeforeFirstRelease
        } else if code == 2 {
            InvestmentStatus::SixMonthsDone
        } else if code == 3 {
            InvestmentStatus::TenMonthsDone
        } else if code == 4 {
            InvestmentStatus::OneYearTwoMonthsDone
        } else if code == 5 {
            InvestmentStatus::OneYearSixMonthsDone
        } else if code == 6 {
            InvestmentStatus::OneYearTenMonthsDone
        } else if code == 7 {
            InvestmentStatus::TwoYearsTwoMonthsDone
        } else if code == 8 {
            InvestmentStatus::TwoYearsSixMonthsDone
        } else if code == 9 {
            InvestmentStatus::TwoYearsTenMonthsDone
        } else if code == 10 {
            InvestmentStatus::ThreeYearsTwoMonthsDone
        } else if code == 11 {
            InvestmentStatus::ThreeYearsSixMonthsDone
        } else {
            InvestmentStatus::Ended
        }
    }

    /// Index of the release stage that comes next, `None` in the buying phase.
    pub fn stage_index(self) -> (index: Option<usize>)
        ensures
            match index {
                Some(i) => self.spec_stage_index() == Some(i as nat),
                None => self.spec_stage_index().is_none(),
            },
    {
        let code: u32 = self.code();
        if code == 0 {
            None
        } else {
            let index: usize = (code - 1) as usize;
            Some(index)
        }
    }
}

} // verus!
