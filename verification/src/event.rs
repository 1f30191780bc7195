//! What a contract makes known to the outside about what has happened.

use crate::address::Address;
use vstd::prelude::*;

verus! {

/// Something that has happened.
#[derive(Debug, PartialEq, Eq)]
pub enum Event {
    /// The owner has registered an investor.
    InvestorCreated { investor: Address },
    /// The owner has started the chronometer.
    ChronometerStarted,
    /// A buyer has bought `amount` units from `from`.
    TokensBought { from: Address, to: Address, amount: u32 },
    /// A seller has sold `amount` units to `to`.
    TokensSold { from: Address, to: Address, amount: u32 },
    /// The units `token_ids` have gone from `from` to `to`.
    BatchTransfer { from: Address, to: Address, token_ids: Vec<u32> },
}

/// An event as a mathematical value.
pub enum EventView {
    InvestorCreated { investor: Address },
    ChronometerStarted,
    TokensBought { from: Address, to: Address, amount: u32 },
    TokensSold { from: Address, to: Address, amount: u32 },
    BatchTransfer { from: Address, to: Address, token_ids: Seq<u32> },
}

impl Event {
    /// The event as a mathematical value.
    pub open spec fn view(&self) -> EventView {
        match *self {
            Event::InvestorCreated { investor } => EventView::InvestorCreated { investor },
            Event::ChronometerStarted => EventView::ChronometerStarted,
            Event::TokensBought { from, to, amount } => EventView::TokensBought { from, to, amount },
            Event::TokensSold { from, to, amount } => EventView::TokensSold { from, to, amount },
            Event::BatchTransfer { from, to, token_ids } => EventView::BatchTransfer {
                from,
                to,
                token_ids: token_ids@,
            },
        }
    }
}

/// The events of a log as mathematical values.
pub open spec fn events_view(log: Seq<Event>) -> Seq<EventView> {
    Seq::new(log.len(), |i: int| log[i]@)
}

} // verus!
