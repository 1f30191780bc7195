//! Setting up the ledgers that a contract works with.

use crate::address::Address;
use crate::error::MinahError;
use crate::stablecoin::Stablecoin;
use vstd::prelude::*;

verus! {

/// A stablecoin ledger on which `premint_amount` has been minted to `user`
/// and nothing else has happened. No ledger can be set up with an amount
/// below zero.
pub fn deploy_stablecoin_contract(user: Address, premint_amount: i128) -> (outcome: Result<
    Stablecoin,
    MinahError,
>)
    ensures
        match outcome {
            Ok(ledger) => {
                &&& premint_amount >= 0
                &&& ledger.wf()
                &&& ledger@.total_supply == premint_amount
                &&& forall|holder: Address|
                    ledger@.balances[holder] == (if holder == user {
                        premint_amount as int
                    } else {
                        0
                    })
                &&& forall|pair: (Address, Address)| ledger@.allowances[pair] == 0
            },
            Err(error) => premint_amount < 0 && error == MinahError::NegativeAmount,
        },
{
    let mut ledger = Stablecoin::new();
    match ledger.mint(user, premint_amount) {
        Ok(()) => Ok(ledger),
        Err(error) => Err(error),
    }
}

} // verus!
