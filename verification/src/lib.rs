//! A tokenized real-estate investment vehicle as a verified state machine.
//!
//! Investors registered by the owner buy units during a buying phase. The
//! owner then starts a chronometer; as the configured intervals elapse, each
//! stage releases a return on investment to the holders in proportion to the
//! units they hold at that moment. After the buying phase, units change hands
//! only through the marketplace, against payment in the configured stablecoin.
//!
//! [`Minah`] is the state of one such contract and [`Stablecoin`] the ledger
//! of the token it is paid in. The rules that the contract applies are
//! functions of plain values in [`rules`], and [`laws`] states what holds of
//! every contract.

pub mod address;
pub mod config;
pub mod error;
pub mod event;
pub mod laws;
pub mod minah;
pub mod rules;
pub mod stablecoin;
pub mod status;
pub mod units;
pub mod utils;

pub use address::Address;
pub use config::Config;
pub use error::MinahError;
pub use event::Event;
pub use minah::Minah;
pub use stablecoin::{Stablecoin, STABLECOIN_DECIMALS, STABLECOIN_SCALE};
pub use status::InvestmentStatus;
pub use units::UnitLedger;
pub use utils::deploy_stablecoin_contract;
