//! The reasons for which a call is refused.

use vstd::prelude::*;

verus! {

/// Why a call was refused. A refused call leaves every state as it was.
#[derive(Debug, Clone, Copy, PartialEq, Eq, Structural)]
pub enum MinahError {
    /// The caller is not the party that has to authorize the call.
    Unauthorized,
    /// The terms of the investment contradict each other or exceed what the
    /// arithmetic can hold.
    InvalidConfiguration,
    /// The address is already a registered investor.
    AlreadyRegistered,
    /// Fewer units were asked for than the smallest batch.
    MinimumInvestmentNotMet,
    /// Units are only issued during the buying phase.
    WrongPhase,
    /// The buyer is not a registered investor.
    NotInvestor,
    /// The issue would exceed the total supply.
    SupplyExceeded,
    /// The issue would exceed what one investor may hold.
    PerInvestorCapExceeded,
    /// The paying party holds too little stablecoin.
    InsufficientBalance,
    /// The paying party has approved too little stablecoin for the spender.
    InsufficientAllowance,
    /// The chronometer runs already.
    AlreadyStarted,
    /// The chronometer has not been started.
    NotStarted,
    /// The clock shows a time before the chronometer was started.
    InvalidLedgerTime,
    /// No stage has come due since the last release.
    DistributionNotReady,
    /// The investment has ended; nothing is left to distribute.
    DistributionEnded,
    /// The shares paid out do not add up to the amount to release.
    DistributionAmountMismatch,
    /// Units cannot change hands during the buying phase.
    TransfersDisabledDuringBuyingPhase,
    /// The seller is neither a registered investor nor the owner.
    FromNotEligible,
    /// The buyer is neither a registered investor nor the owner.
    ToNotEligible,
    /// The seller holds fewer units than are to be moved.
    InsufficientNftBalance,
    /// The seller has not approved the contract for all of their units.
    SpenderNotApproved,
    /// Units never change hands outside the marketplace.
    TransfersDisabled,
    /// No unit with that id has been issued.
    NonExistentToken,
    /// The unit belongs to someone else than the party it is taken from.
    IncorrectOwner,
    /// An amount of stablecoin below zero.
    NegativeAmount,
    /// A sum or product beyond 128 bits.
    ArithmeticOverflow,
}

impl MinahError {
    /// The text under which each refusal is reported.
    pub open spec fn spec_message(self) -> Seq<char> {
        match self {
            MinahError::Unauthorized => "UNAUTHORIZED"@,
            MinahError::InvalidConfiguration => "INVALID_CONFIGURATION"@,
            MinahError::AlreadyRegistered => "INVESTOR_ALREADY_EXISTS"@,
            MinahError::MinimumInvestmentNotMet => "MINIMUM_INVESTMENT_NOT_MET"@,
            MinahError::WrongPhase => "INVESTMENT_NOT_IN_BUYING_PHASE"@,
            MinahError::NotInvestor => "USER_NOT_AN_INVESTOR"@,
            MinahError::SupplyExceeded => "MAXIMUM_SUPPLY_EXCEEDED"@,
            MinahError::PerInvestorCapExceeded => "MAXIMUM_NFTS_PER_INVESTOR_EXCEEDED"@,
            MinahError::InsufficientBalance => "INSUFFICIENT_BALANCE"@,
            MinahError::InsufficientAllowance => "INSUFFICIENT_ALLOWANCE"@,
            MinahError::AlreadyStarted => "CHRONOMETER_ALREADY_STARTED"@,
            MinahError::NotStarted => "COUNDOWN_NOT_STARTED"@,
            MinahError::InvalidLedgerTime => "INVALID_LEDGER_TIME"@,
            MinahError::DistributionNotReady => "DISTRIBUTION_NOT_READY_YET"@,
            MinahError::DistributionEnded => "DISTRIBUTION_ALREADY_ENDED"@,
            MinahError::DistributionAmountMismatch => "DISTRIBUTION_AMOUNT_MISMATCH"@,
            MinahError::TransfersDisabledDuringBuyingPhase =>
                "NFT_TRANSFERS_NOT_ALLOWED_DURING_BUYING_PHASE"@,
            MinahError::FromNotEligible => "FROM_ADDRESS_NOT_INVESTOR_OR_OWNER"@,
            MinahError::ToNotEligible => "TO_ADDRESS_NOT_INVESTOR_OR_OWNER"@,
            MinahError::InsufficientNftBalance => "INSUFFICIENT_FROM_NFT_BALANCE"@,
            MinahError::SpenderNotApproved => "SPENDER_NOT_APPROVED_FOR_ALL"@,
            MinahError::TransfersDisabled => "TRANSFERS_DISABLED_FOR_MINAH_NFTS"@,
            MinahError::NonExistentToken => "NON_EXISTENT_TOKEN"@,
            MinahError::IncorrectOwner => "INCORRECT_OWNER"@,
            MinahError::NegativeAmount => "NEGATIVE_AMOUNT"@,
            MinahError::ArithmeticOverflow => "ARITHMETIC_OVERFLOW"@,
        }
    }

    /// The text under which the refusal is reported.
    pub fn message(&self) -> (text: &'static str)
        ensures
            text@ == self.spec_message(),
    {
        match self {
            MinahError::Unauthorized => "UNAUTHORIZED",
            MinahError::InvalidConfiguration => "INVALID_CONFIGURATION",
            MinahError::AlreadyRegistered => "INVESTOR_ALREADY_EXISTS",
            MinahError::MinimumInvestmentNotMet => "MINIMUM_INVESTMENT_NOT_MET",
            MinahError::WrongPhase => "INVESTMENT_NOT_IN_BUYING_PHASE",
            MinahError::NotInvestor => "USER_NOT_AN_INVESTOR",
            MinahError::SupplyExceeded => "MAXIMUM_SUPPLY_EXCEEDED",
            MinahError::PerInvestorCapExceeded => "MAXIMUM_NFTS_PER_INVESTOR_EXCEEDED",
            MinahError::InsufficientBalance => "INSUFFICIENT_BALANCE",
            MinahError::InsufficientAllowance => "INSUFFICIENT_ALLOWANCE",
            MinahError::AlreadyStarted => "CHRONOMETER_ALREADY_STARTED",
            MinahError::NotStarted => "COUNDOWN_NOT_STARTED",
            MinahError::InvalidLedgerTime => "INVALID_LEDGER_TIME",
            MinahError::DistributionNotReady => "DISTRIBUTION_NOT_READY_YET",
            MinahError::DistributionEnded => "DISTRIBUTION_ALREADY_ENDED",
            MinahError::DistributionAmountMismatch => "DISTRIBUTION_AMOUNT_MISMATCH",
            MinahError::TransfersDisabledDuringBuyingPhase =>
                "NFT_TRANSFERS_NOT_ALLOWED_DURING_BUYING_PHASE",
            MinahError::FromNotEligible => "FROM_ADDRESS_NOT_INVESTOR_OR_OWNER",
            MinahError::ToNotEligible => "TO_ADDRESS_NOT_INVESTOR_OR_OWNER",
            MinahError::InsufficientNftBalance => "INSUFFICIENT_FROM_NFT_BALANCE",
            MinahError::SpenderNotApproved => "SPENDER_NOT_APPROVED_FOR_ALL",
            MinahError::TransfersDisabled => "TRANSFERS_DISABLED_FOR_MINAH_NFTS",
            MinahError::NonExistentToken => "NON_EXISTENT_TOKEN",
            MinahError::IncorrectOwner => "INCORRECT_OWNER",
            MinahError::NegativeAmount => "NEGATIVE_AMOUNT",
            MinahError::ArithmeticOverflow => "ARITHMETIC_OVERFLOW",
        }
    }
    /// The text under which the marketplace reports a refusal: it says of a
    /// lack of funds or of allowance whether a purchase or a sale failed.
    pub open spec fn spec_trade_message(self, sold: bool) -> Seq<char> {
        match self {
            MinahError::InsufficientBalance => if sold {
                "INSUFFICIENT_BALANCE_TO_SELL_NFTS"@
            } else {
                "INSUFFICIENT_BALANCE_TO_BUY_NFTS"@
            },
            MinahError::InsufficientAllowance => if sold {
                "INSUFFICIENT_ALLOWANCE_TO_SELL_NFTS"@
            } else {
                "INSUFFICIENT_ALLOWANCE_TO_BUY_NFTS"@
            },
            _ => self.spec_message(),
        }
    }

    /// The text under which the marketplace reports the refusal of a
    /// purchase (`sold` false) or of a sale (`sold` true).
    pub fn trade_message(&self, sold: bool) -> (text: &'static str)
        ensures
            text@ == self.spec_trade_message(sold),
    {
        match self {
            MinahError::InsufficientBalance => if sold {
                "INSUFFICIENT_BALANCE_TO_SELL_NFTS"
            } else {
                "INSUFFICIENT_BALANCE_TO_BUY_NFTS"
            },
            MinahError::InsufficientAllowance => if sold {
                "INSUFFICIENT_ALLOWANCE_TO_SELL_NFTS"
            } else {
                "INSUFFICIENT_ALLOWANCE_TO_BUY_NFTS"
            },
            _ => self.message(),
        }
    }
}

} // verus!
