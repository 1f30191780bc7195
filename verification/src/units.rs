//! Who owns each unit of the investment. Units are numbered from 0 in the
//! order in which they were issued, and none is ever destroyed.

use crate::address::{lemma_pair_key_injective, pair_key, spec_pair_key, Address};
use crate::error::MinahError;
use std::collections::HashMap;
use vstd::prelude::*;

verus! {

broadcast use vstd::std_specs::hash::group_hash_axioms;

/// The ledger of the units.
pub struct UnitLedger {
    owners: Vec<Address>,
    approvals: HashMap<u128, bool>,
}

/// A unit ledger as a mathematical value.
pub struct UnitLedgerView {
    /// The owner of each unit, by the unit's id.
    pub owners: Seq<Address>,
    /// The pairs (owner, operator) in which the owner lets the operator move
    /// every unit that the owner holds.
    pub approvals: Set<(Address, Address)>,
}

/// How many units `holder` owns.
pub open spec fn units_held(owners: Seq<Address>, holder: Address) -> nat
    decreases owners.len(),
{
    if owners.len() == 0 {
        0
    } else {
        units_held(owners.drop_last(), holder) + if owners.last() == holder {
            1nat
        } else {
            0nat
        }
    }
}

/// The owners after `amount` new units have been issued to `to`.
pub open spec fn spec_batch_mint(owners: Seq<Address>, to: Address, amount: nat) -> Seq<Address> {
    owners + Seq::new(amount, |i: int| to)
}

/// What moving the unit `id` from `from` to `to` gives: the new owners, or
/// the reason for which the move is refused.
pub open spec fn spec_update(owners: Seq<Address>, from: Address, to: Address, id: u32) -> Result<
    Seq<Address>,
    MinahError,
> {
    if id >= owners.len() {
        Err(MinahError::NonExistentToken)
    } else if owners[id as int] != from {
        Err(MinahError::IncorrectOwner)
    } else {
        Ok(owners.update(id as int, to))
    }
}

/// What moving the units `ids` from `from` to `to` gives, one after the other
/// in the order of `ids`; the first move that is refused refuses them all.
pub open spec fn spec_move_units(
    owners: Seq<Address>,
    from: Address,
    to: Address,
    ids: Seq<u32>,
) -> Result<Seq<Address>, MinahError>
    decreases ids.len(),
{
    if ids.len() == 0 {
        Ok(owners)
    } else {
        match spec_update(owners, from, to, ids[0]) {
            Err(error) => Err(error),
            Ok(moved) => spec_move_units(moved, from, to, ids.drop_first()),
        }
    }
}

/// The approvals after `owner` has granted (`live_until_ledger` above 0) or
/// withdrawn (`live_until_ledger` 0) the approval of `operator`.
pub open spec fn spec_approve_for_all(
    approvals: Set<(Address, Address)>,
    owner: Address,
    operator: Address,
    live_until_ledger: u32,
) -> Set<(Address, Address)> {
    if live_until_ledger == 0 {
        approvals.remove((owner, operator))
    } else {
        approvals.insert((owner, operator))
    }
}

spec fn approved_in(approvals: Map<u128, bool>, owner: Address, operator: Address) -> bool {
    let key = spec_pair_key(owner, operator);
    approvals.contains_key(key) && approvals[key]
}

/// Nobody holds more units than there are.
pub proof fn lemma_units_held_bound(owners: Seq<Address>, holder: Address)
    ensures
        units_held(owners, holder) <= owners.len(),
    decreases owners.len(),
{
    if owners.len() > 0 {
        lemma_units_held_bound(owners.drop_last(), holder);
    }
}

/// Issuing `amount` units to `to` adds `amount` to what `to` holds and leaves
/// every other holding as it was.
pub proof fn lemma_units_held_after_mint(
    owners: Seq<Address>,
    to: Address,
    amount: nat,
    holder: Address,
)
    ensures
        units_held(spec_batch_mint(owners, to, amount), holder) == units_held(owners, holder) + (
        if holder == to {
            amount
        } else {
            0
        }),
    decreases amount,
{
    let minted = spec_batch_mint(owners, to, amount);
    if amount == 0 {
        assert(minted =~= owners);
    } else {
        let fewer = spec_batch_mint(owners, to, (amount - 1) as nat);
        assert(minted.drop_last() =~= fewer);
        assert(minted.last() == to);
        lemma_units_held_after_mint(owners, to, (amount - 1) as nat, holder);
    }
}

/// Giving the unit `id` to `to` takes one unit from its former owner, adds
/// one to what `to` holds, and leaves every other holding as it was.
pub proof fn lemma_units_held_after_update(
    owners: Seq<Address>,
    id: int,
    to: Address,
    holder: Address,
)
    requires
        0 <= id < owners.len(),
    ensures
        units_held(owners.update(id, to), holder) + (if owners[id] == holder {
            1nat
        } else {
            0nat
        }) == units_held(owners, holder) + (if to == holder {
            1nat
        } else {
            0nat
        }),
    decreases owners.len(),
{
    let updated = owners.update(id, to);
    if id == owners.len() - 1 {
        assert(updated.drop_last() =~= owners.drop_last());
    } else {
        assert(updated.drop_last() =~= owners.drop_last().update(id, to));
        lemma_units_held_after_update(owners.drop_last(), id, to, holder);
    }
}

/// Where a move of units succeeds, no unit is created or destroyed, each id
/// moved is one unit less for `from` and one more for `to`, and nobody else's
/// holding changes.
pub proof fn lemma_move_units_conserves(
    owners: Seq<Address>,
    from: Address,
    to: Address,
    ids: Seq<u32>,
    holder: Address,
)
    requires
        spec_move_units(owners, from, to, ids).is_ok(),
    ensures
        ({
            let moved = spec_move_units(owners, from, to, ids)->Ok_0;
            &&& moved.len() == owners.len()
            &&& from == to ==> units_held(moved, holder) == units_held(owners, holder)
            &&& from != to && holder == from ==> units_held(moved, holder) + ids.len()
                == units_held(owners, holder)
            &&& from != to && holder == to ==> units_held(moved, holder) == units_held(
                owners,
                holder,
            ) + ids.len()
            &&& holder != from && holder != to ==> units_held(moved, holder) == units_held(
                owners,
                holder,
            )
        }),
    decreases ids.len(),
{
    if ids.len() > 0 {
        let first = spec_update(owners, from, to, ids[0])->Ok_0;
        lemma_units_held_after_update(owners, ids[0] as int, to, holder);
        lemma_move_units_conserves(first, from, to, ids.drop_first(), holder);
    }
}

impl UnitLedger {
    /// The ledger as a mathematical value.
    pub closed spec fn view(&self) -> UnitLedgerView {
        UnitLedgerView {
            owners: self.owners@,
            approvals: Set::new(
                |pair: (Address, Address)| approved_in(self.approvals@, pair.0, pair.1),
            ),
        }
    }

    /// The ids of the units fit in 32 bits.
    pub closed spec fn wf(&self) -> bool {
        self.owners@.len() <= u32::MAX
    }

    /// A ledger without units and without approvals.
    pub fn new() -> (ledger: UnitLedger)
        ensures
            ledger.wf(),
            ledger@.owners == Seq::<Address>::empty(),
            ledger@.approvals == Set::<(Address, Address)>::empty(),
    {
        let ledger = UnitLedger { owners: Vec::new(), approvals: HashMap::new() };
        assert(ledger@.approvals =~= Set::<(Address, Address)>::empty());
        ledger
    }

    /// The number of units issued so far.
    pub fn total(&self) -> (total: u32)
        requires
            self.wf(),
        ensures
            total == self@.owners.len(),
    {
        self.owners.len() as u32
    }

    /// How many units `holder` owns.
    pub fn balance(&self, holder: Address) -> (balance: u32)
        requires
            self.wf(),
        ensures
            balance == units_held(self@.owners, holder),
    {
        let mut held: u32 = 0;
        let mut i: usize = 0;
        while i < self.owners.len()
            invariant
                self.wf(),
                i <= self.owners@.len(),
                held == units_held(self.owners@.take(i as int), holder),
                held <= i,
            decreases self.owners@.len() - i,
        {
            proof {
                assert(self.owners@.take(i + 1).drop_last() =~= self.owners@.take(i as int));
            }
            if self.owners[i] == holder {
                held += 1;
            }
            i += 1;
        }
        proof {
            assert(self.owners@.take(i as int) =~= self.owners@);
        }
        held
    }

    /// The owner of the unit `id`.
    pub fn owner_of(&self, id: u32) -> (outcome: Result<Address, MinahError>)
        ensures
            id < self@.owners.len() ==> outcome == Ok::<Address, MinahError>(
                self@.owners[id as int],
            ),
            id >= self@.owners.len() ==> outcome == Err::<Address, MinahError>(
                MinahError::NonExistentToken,
            ),
    {
        if (id as usize) < self.owners.len() {
            Ok(self.owners[id as usize])
        } else {
            Err(MinahError::NonExistentToken)
        }
    }

    /// Whether `owner` lets `operator` move all of the owner's units.
    pub fn is_approved_for_all(&self, owner: Address, operator: Address) -> (approved: bool)
        ensures
            approved == self@.approvals.contains((owner, operator)),
    {
        let key: u128 = pair_key(owner, operator);
        match self.approvals.get(&key) {
            Some(approved) => *approved,
            None => false,
        }
    }

    /// `owner` lets `operator` move all of the owner's units, or, with
    /// `live_until_ledger` 0, takes that approval back. An approval stands
    /// until it is taken back: the ledger keeps no other record of
    /// `live_until_ledger`.
    pub fn approve_for_all(&mut self, owner: Address, operator: Address, live_until_ledger: u32)
        requires
            old(self).wf(),
        ensures
            final(self).wf(),
            final(self)@.owners == old(self)@.owners,
            final(self)@.approvals == spec_approve_for_all(
                old(self)@.approvals,
                owner,
                operator,
                live_until_ledger,
            ),
    {
        let key: u128 = pair_key(owner, operator);
        self.approvals.insert(key, live_until_ledger != 0);
        proof {
            let target = spec_approve_for_all(
                old(self)@.approvals,
                owner,
                operator,
                live_until_ledger,
            );
            assert forall|pair: (Address, Address)|
                self@.approvals.contains(pair) == target.contains(pair) by {
                lemma_pair_key_injective(pair.0, pair.1, owner, operator);
            }
            assert(self@.approvals =~= target);
        }
    }

    /// Issues `amount` new units to `to`, with the ids that follow the last
    /// one issued.
    pub fn batch_mint(&mut self, to: Address, amount: u32)
        requires
            old(self).wf(),
            old(self)@.owners.len() + amount <= u32::MAX,
        ensures
            final(self).wf(),
            final(self)@.owners == spec_batch_mint(old(self)@.owners, to, amount as nat),
            final(self)@.approvals == old(self)@.approvals,
    {
        let mut issued: u32 = 0;
        while issued < amount
            invariant
                issued <= amount,
                old(self)@.owners.len() + amount <= u32::MAX,
                self.owners@ == spec_batch_mint(old(self)@.owners, to, issued as nat),
                self.approvals == old(self).approvals,
            decreases amount - issued,
        {
            self.owners.push(to);
            proof {
                assert(self.owners@ =~= spec_batch_mint(
                    old(self)@.owners,
                    to,
                    (issued + 1) as nat,
                ));
            }
            issued += 1;
        }
    }

    /// Moves the unit `id` from `from` to `to`.
    pub fn update(&mut self, from: Address, to: Address, id: u32) -> (outcome: Result<
        (),
        MinahError,
    >)
        requires
            old(self).wf(),
        ensures
            final(self).wf(),
            final(self)@.approvals == old(self)@.approvals,
            match spec_update(old(self)@.owners, from, to, id) {
                Ok(owners) => outcome.is_ok() && final(self)@.owners == owners,
                Err(error) => outcome == Err::<(), MinahError>(error) && final(self)@ == old(
                    self,
                )@,
            },
    {
        if (id as usize) >= self.owners.len() {
            return Err(MinahError::NonExistentToken);
        }
        if self.owners[id as usize] != from {
            return Err(MinahError::IncorrectOwner);
        }
        self.owners.set(id as usize, to);
        Ok(())
    }

    /// Moves the units `ids` from `from` to `to`, in the order of `ids`. If
    /// one of the moves is refused, none is made.
    pub fn move_units(&mut self, from: Address, to: Address, ids: &Vec<u32>) -> (outcome: Result<
        (),
        MinahError,
    >)
        requires
            old(self).wf(),
        ensures
            final(self).wf(),
            final(self)@.approvals == old(self)@.approvals,
            match spec_move_units(old(self)@.owners, from, to, ids@) {
                Ok(owners) => outcome.is_ok() && final(self)@.owners == owners,
                Err(error) => outcome == Err::<(), MinahError>(error) && final(self)@ == old(
                    self,
                )@,
            },
    {
        let mut owners: Vec<Address> = self.owners.clone();
        let mut i: usize = 0;
        proof {
            assert(owners@ =~= self.owners@);
            assert(ids@.skip(0) =~= ids@);
        }
        while i < ids.len()
            invariant
                *self == *old(self),
                self.wf(),
                i <= ids@.len(),
                owners@.len() == self.owners@.len(),
                spec_move_units(self.owners@, from, to, ids@) == spec_move_units(
                    owners@,
                    from,
                    to,
                    ids@.skip(i as int),
                ),
            decreases ids@.len() - i,
        {
            let id: u32 = ids[i];
            proof {
                assert(ids@.skip(i as int)[0] == id);
                assert(ids@.skip(i as int).drop_first() =~= ids@.skip(i + 1));
            }
            if (id as usize) >= owners.len() {
                return Err(MinahError::NonExistentToken);
            }
            if owners[id as usize] != from {
                return Err(MinahError::IncorrectOwner);
            }
            owners.set(id as usize, to);
            i += 1;
        }
        self.owners = owners;
        Ok(())
    }
}

} // verus!
