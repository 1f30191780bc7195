//! The investment contract: its state and the calls that change it.
//!
//! A contract keeps the terms of the investment, the register of investors
//! with what each has been paid, the ledger of the units, the chronometer
//! and the log of its events. What lies outside it comes in with each call:
//! `caller` is the party that has authorized the call, `now` is the time of
//! the call in seconds, and `token` is the ledger of the stablecoin that the
//! contract names.
//!
//! For every call that changes the state, a function of this module says
//! what the call gives, as a mathematical value. The call answers with `Ok`
//! and leaves the state that this function describes, or it answers with the
//! reason for its refusal and leaves contract and stablecoin untouched.

use crate::address::Address;
use crate::config::{Config, ConfigView};
use crate::error::MinahError;
use crate::event::{events_view, Event, EventView};
use crate::rules::{
    amount_to_release, check_distribution, check_mint, check_registration, check_released,
    check_start, check_trade, elapsed, fits_i128, investor_amount, release_plan,
    spec_amount_to_release, spec_check_distribution, spec_check_mint, spec_check_registration,
    spec_check_released, spec_check_start, spec_check_trade, spec_elapsed, spec_investor_amount,
    spec_release_plan, spec_status_after, spec_total_units, status_after, total_units,
};
use crate::stablecoin::{spec_transfer_from, Stablecoin, StablecoinView};
use crate::status::InvestmentStatus;
use crate::units::{
    lemma_move_units_conserves, spec_approve_for_all, spec_batch_mint, spec_move_units,
    units_held, UnitLedger,
};
use vstd::prelude::*;

verus! {

/// The state of one investment contract.
pub struct Minah {
    address: Address,
    owner: Address,
    stablecoin: Address,
    receiver: Address,
    payer: Address,
    config: Config,
    current_supply: u32,
    begin_date: u64,
    countdown_start: bool,
    state: InvestmentStatus,
    amount_to_release: i128,
    investors: Vec<Address>,
    claimed: Vec<i128>,
    units: UnitLedger,
    events: Vec<Event>,
}

/// The state of an investment contract as a mathematical value.
pub struct MinahView {
    /// The contract's own address: the spender of the allowances granted to
    /// it and the operator of the approvals granted to it.
    pub address: Address,
    /// Who administers the contract.
    pub owner: Address,
    /// The address of the stablecoin in which payments are made.
    pub stablecoin: Address,
    /// Who receives what investors pay for new units.
    pub receiver: Address,
    /// Who pays the returns.
    pub payer: Address,
    /// The terms of the investment.
    pub terms: ConfigView,
    /// The number of units issued so far.
    pub current_supply: u32,
    /// When the chronometer was started; 0 before.
    pub begin_date: u64,
    /// Whether the chronometer has been started.
    pub started: bool,
    /// Where the investment stands.
    pub status: InvestmentStatus,
    /// What the last release paid out in all.
    pub amount_to_release: i128,
    /// The registered investors, in the order of their registration.
    pub investors: Seq<Address>,
    /// What each investor has been paid in returns so far, in the same order.
    pub claimed: Seq<i128>,
    /// The owner of each unit, by the unit's id.
    pub owners: Seq<Address>,
    /// The pairs (owner, operator) in which the owner lets the operator move
    /// the owner's units.
    pub approvals: Set<(Address, Address)>,
    /// Everything that the contract has made known, oldest first.
    pub events: Seq<EventView>,
}

impl MinahView {
    /// What every state of a contract satisfies: its terms are valid; no
    /// investor is registered twice; the supply counts the units that exist
    /// and stays within the total supply; the chronometer has been started
    /// exactly when the buying phase is over, and from then on the whole
    /// supply exists.
    pub open spec fn coherent(self) -> bool {
        &&& self.terms.valid()
        &&& self.investors.no_duplicates()
        &&& self.claimed.len() == self.investors.len()
        &&& self.investors.len() <= u32::MAX
        &&& self.owners.len() == self.current_supply
        &&& self.current_supply <= self.terms.total_supply
        &&& self.started <==> self.status != InvestmentStatus::BuyingPhase
        &&& !self.started ==> self.begin_date == 0
        &&& self.started ==> self.current_supply == self.terms.total_supply
    }

    /// Whether `investor` is registered.
    pub open spec fn registered(self, investor: Address) -> bool {
        self.investors.contains(investor)
    }

    /// Whether `party` may take part in the marketplace: a registered
    /// investor or the owner.
    pub open spec fn eligible(self, party: Address) -> bool {
        self.registered(party) || party == self.owner
    }

    /// How many units `holder` owns.
    pub open spec fn balance(self, holder: Address) -> nat {
        units_held(self.owners, holder)
    }

    /// What `investor` has been paid in returns so far; 0 for an address
    /// that is not registered.
    pub open spec fn claimed_amount(self, investor: Address) -> i128 {
        if self.registered(investor) {
            self.claimed[choose|i: int|
                0 <= i < self.investors.len() && self.investors[i] == investor]
        } else {
            0
        }
    }

    /// How many units each registered investor owns, in the order of the
    /// investors.
    pub open spec fn holdings(self) -> Seq<u32> {
        Seq::new(self.investors.len(), |i: int| units_held(self.owners, self.investors[i]) as u32)
    }

    /// What a release needs to know of the contract.
    pub open spec fn payroll(self) -> Payroll {
        Payroll {
            price: self.terms.price,
            spender: self.address,
            payer: self.payer,
            investors: self.investors,
            holdings: self.holdings(),
        }
    }

    /// The state with one more event at the end of its log.
    pub open spec fn with_event(self, event: EventView) -> MinahView {
        MinahView { events: self.events.push(event), ..self }
    }
}

/// The state of a contract that has just been set up: in the buying phase,
/// without units, investors or events.
pub open spec fn spec_new(
    address: Address,
    owner: Address,
    stablecoin: Address,
    receiver: Address,
    payer: Address,
    terms: ConfigView,
) -> MinahView {
    MinahView {
        address,
        owner,
        stablecoin,
        receiver,
        payer,
        terms,
        current_supply: 0,
        begin_date: 0,
        started: false,
        status: InvestmentStatus::BuyingPhase,
        amount_to_release: 0,
        investors: Seq::empty(),
        claimed: Seq::empty(),
        owners: Seq::empty(),
        approvals: Set::empty(),
        events: Seq::empty(),
    }
}

/// What the registration of `investor` by `caller` gives: only the owner
/// registers, nobody is registered twice, and the list of investors has
/// room for as many as 32 bits can count.
pub open spec fn spec_create_investor(
    pre: MinahView,
    caller: Address,
    investor: Address,
) -> Result<MinahView, MinahError> {
    if caller != pre.owner {
        Err(MinahError::Unauthorized)
    } else {
        match spec_check_registration(pre.registered(investor), pre.investors.len() as int) {
            Err(error) => Err(error),
            Ok(()) => Ok(
                MinahView {
                    investors: pre.investors.push(investor),
                    claimed: pre.claimed.push(0),
                    ..pre
                }.with_event(EventView::InvestorCreated { investor }),
            ),
        }
    }
}

/// What an approval of `operator` for all units of `owner` gives, or, with
/// `live_until_ledger` 0, its withdrawal: the owner of the units is the one
/// who authorizes.
pub open spec fn spec_approve(
    pre: MinahView,
    caller: Address,
    owner: Address,
    operator: Address,
    live_until_ledger: u32,
) -> Result<MinahView, MinahError> {
    if caller != owner {
        Err(MinahError::Unauthorized)
    } else {
        Ok(
            MinahView {
                approvals: spec_approve_for_all(pre.approvals, owner, operator, live_until_ledger),
                ..pre
            },
        )
    }
}

/// What naming another stablecoin gives: only the owner names one.
pub open spec fn spec_set_stablecoin(pre: MinahView, caller: Address, stablecoin: Address) -> Result<
    MinahView,
    MinahError,
> {
    if caller != pre.owner {
        Err(MinahError::Unauthorized)
    } else {
        Ok(MinahView { stablecoin, ..pre })
    }
}

/// What naming another receiver of the proceeds gives: only the owner names
/// one.
pub open spec fn spec_set_receiver(pre: MinahView, caller: Address, receiver: Address) -> Result<
    MinahView,
    MinahError,
> {
    if caller != pre.owner {
        Err(MinahError::Unauthorized)
    } else {
        Ok(MinahView { receiver, ..pre })
    }
}

/// What naming another payer of the returns gives: only the owner names one.
pub open spec fn spec_set_payer(pre: MinahView, caller: Address, payer: Address) -> Result<
    MinahView,
    MinahError,
> {
    if caller != pre.owner {
        Err(MinahError::Unauthorized)
    } else {
        Ok(MinahView { payer, ..pre })
    }
}

/// What the purchase of `amount` new units for `user` gives when `caller`
/// asks for it: the buyer is the one who authorizes; if the rules allow the
/// purchase, the contract takes the cost from the buyer for the receiver,
/// and the buyer gets the units with the next ids.
pub open spec fn spec_mint(
    pre: MinahView,
    token: StablecoinView,
    caller: Address,
    user: Address,
    amount: u32,
) -> Result<(MinahView, StablecoinView), MinahError> {
    if caller != user {
        Err(MinahError::Unauthorized)
    } else {
        spec_mint_for(pre, token, user, amount)
    }
}

/// What the purchase of `amount` new units gives once `user` has authorized
/// it.
pub open spec fn spec_mint_for(
    pre: MinahView,
    token: StablecoinView,
    user: Address,
    amount: u32,
) -> Result<(MinahView, StablecoinView), MinahError> {
    match spec_check_mint(
        pre.terms,
        pre.status,
        pre.registered(user),
        pre.current_supply as int,
        pre.balance(user) as int,
        amount as int,
        token.balances[user],
        token.allowances[(user, pre.address)],
    ) {
        Err(error) => Err(error),
        Ok(cost) => match spec_transfer_from(token, pre.address, user, pre.receiver, cost) {
            Err(error) => Err(error),
            Ok(paid) => Ok(
                (
                    MinahView {
                        current_supply: (pre.current_supply + amount) as u32,
                        owners: spec_batch_mint(pre.owners, user, amount as nat),
                        ..pre
                    },
                    paid,
                ),
            ),
        },
    }
}

/// What the start of the chronometer by `caller` at time `now` gives: only
/// the owner starts it, and only once; the buying phase is over, and the
/// units that nobody has bought are issued to the owner.
pub open spec fn spec_start_chronometer(pre: MinahView, caller: Address, now: u64) -> Result<
    MinahView,
    MinahError,
> {
    if caller != pre.owner {
        Err(MinahError::Unauthorized)
    } else {
        match spec_check_start(pre.terms, pre.started, pre.begin_date, pre.current_supply) {
            Err(error) => Err(error),
            Ok(remaining) => Ok(
                MinahView {
                    begin_date: now,
                    started: true,
                    status: InvestmentStatus::BeforeFirstRelease,
                    current_supply: pre.terms.total_supply,
                    owners: spec_batch_mint(pre.owners, pre.owner, remaining as nat),
                    ..pre
                }.with_event(EventView::ChronometerStarted),
            ),
        }
    }
}

/// What a release of `percent` would pay in all, given what the registered
/// investors hold now.
pub open spec fn spec_calculate_amount_to_release(pre: MinahView, percent: i128) -> Result<
    int,
    MinahError,
> {
    spec_amount_to_release(
        pre.payroll().price as int,
        spec_total_units(pre.payroll().holdings),
        percent as int,
    )
}

/// What a release needs to know of a contract: the price of a unit, who
/// pays on whose behalf, and who holds how much.
pub struct Payroll {
    /// The price of one unit.
    pub price: i128,
    /// The contract's own address, which spends the payer's allowance.
    pub spender: Address,
    /// Who pays the returns.
    pub payer: Address,
    /// The registered investors, in the order of their registration.
    pub investors: Seq<Address>,
    /// How many units each of them owns, in the same order.
    pub holdings: Seq<u32>,
}

/// What paying the investors from the one at `next` on gives, one after the
/// other: each is paid by the payer for what the investor holds, and the
/// amount is added to what the investor has claimed and to what has been
/// released. The result is what has been claimed, the stablecoin's ledger
/// and the amount released after the last investor; the first amount that
/// cannot be computed, added or paid refuses them all.
pub open spec fn spec_pay_investors(
    payroll: Payroll,
    percent: i128,
    claimed: Seq<i128>,
    token: StablecoinView,
    released: i128,
    next: nat,
) -> Result<(Seq<i128>, StablecoinView, i128), MinahError>
    decreases payroll.investors.len() - next,
{
    if next >= payroll.investors.len() {
        Ok((claimed, token, released))
    } else {
        match spec_investor_amount(
            payroll.price as int,
            payroll.holdings[next as int] as int,
            percent as int,
        ) {
            Err(error) => Err(error),
            Ok(amount) => if !fits_i128(claimed[next as int] + amount) || !fits_i128(
                released + amount,
            ) {
                Err(MinahError::ArithmeticOverflow)
            } else {
                match spec_transfer_from(
                    token,
                    payroll.spender,
                    payroll.payer,
                    payroll.investors[next as int],
                    amount,
                ) {
                    Err(error) => Err(error),
                    Ok(paid) => spec_pay_investors(
                        payroll,
                        percent,
                        claimed.update(next as int, (claimed[next as int] + amount) as i128),
                        paid,
                        (released + amount) as i128,
                        (next + 1) as nat,
                    ),
                }
            },
        }
    }
}

/// What a release of `percent` pays: the amount to release is computed,
/// every investor is paid in the order of registration, and the payments
/// must add up to the amount to release. The result is what has been
/// claimed, the stablecoin's ledger and the amount released.
pub open spec fn spec_settle(
    payroll: Payroll,
    percent: i128,
    claimed: Seq<i128>,
    token: StablecoinView,
) -> Result<(Seq<i128>, StablecoinView, i128), MinahError> {
    match spec_amount_to_release(
        payroll.price as int,
        spec_total_units(payroll.holdings),
        percent as int,
    ) {
        Err(error) => Err(error),
        Ok(due) => match spec_pay_investors(payroll, percent, claimed, token, 0, 0) {
            Err(error) => Err(error),
            Ok((claimed, paid, released)) => match spec_check_released(released, due as i128) {
                Err(error) => Err(error),
                Ok(()) => Ok((claimed, paid, released)),
            },
        },
    }
}

/// What a release of `percent` gives: the investors are paid, and the
/// contract records what each has claimed and what was released.
pub open spec fn spec_distribution(pre: MinahView, token: StablecoinView, percent: i128) -> Result<
    (MinahView, StablecoinView),
    MinahError,
> {
    match spec_settle(pre.payroll(), percent, pre.claimed, token) {
        Err(error) => Err(error),
        Ok((claimed, paid, released)) => Ok(
            (MinahView { amount_to_release: released, claimed, ..pre }, paid),
        ),
    }
}

/// What a release of `percent` gives at the present stage: nothing is
/// released once the investment has ended.
pub open spec fn spec_distribute(pre: MinahView, token: StablecoinView, percent: i128) -> Result<
    (MinahView, StablecoinView),
    MinahError,
> {
    match spec_check_distribution(pre.status) {
        Err(error) => Err(error),
        Ok(()) => spec_distribution(pre, token, percent),
    }
}

/// What releasing `count` stages in a row gives, from stage `first` on, each
/// at its own percentage; the first release that is refused refuses them
/// all.
pub open spec fn spec_release_stages(
    pre: MinahView,
    token: StablecoinView,
    first: nat,
    count: nat,
) -> Result<(MinahView, StablecoinView), MinahError>
    decreases count,
{
    if count == 0 {
        Ok((pre, token))
    } else {
        match spec_distribution(pre, token, pre.terms.roi_percentages[first as int]) {
            Err(error) => Err(error),
            Ok((post, paid)) => spec_release_stages(post, paid, first + 1, (count - 1) as nat),
        }
    }
}

/// What a release by `caller` at time `now` gives: only the owner releases;
/// every stage that has come due since the last release is released, each
/// at its own percentage, and the status moves on by as many stages, to the
/// end once the last stage has been released.
pub open spec fn spec_release_distribution(
    pre: MinahView,
    token: StablecoinView,
    caller: Address,
    now: u64,
) -> Result<(MinahView, StablecoinView), MinahError> {
    if caller != pre.owner {
        Err(MinahError::Unauthorized)
    } else {
        match spec_release_plan(pre.terms, pre.started, pre.begin_date, pre.status, now) {
            Err(error) => Err(error),
            Ok((first, due)) => match spec_release_stages(pre, token, first, due) {
                Err(error) => Err(error),
                Ok((post, paid)) => Ok(
                    (
                        MinahView {
                            status: spec_status_after(pre.terms.stages(), pre.status, due),
                            ..post
                        },
                        paid,
                    ),
                ),
            },
        }
    }
}

/// What moving the units `token_ids` from `from` to `to` by `spender`
/// gives: `from` must have approved the spender for all units, and each
/// unit must be one that `from` owns when its turn comes.
pub open spec fn spec_batch_transfer_from(
    pre: MinahView,
    spender: Address,
    from: Address,
    to: Address,
    token_ids: Seq<u32>,
) -> Result<MinahView, MinahError> {
    if !pre.approvals.contains((from, spender)) {
        Err(MinahError::SpenderNotApproved)
    } else {
        match spec_move_units(pre.owners, from, to, token_ids) {
            Err(error) => Err(error),
            Ok(owners) => Ok(
                MinahView { owners, ..pre }.with_event(
                    EventView::BatchTransfer { from, to, token_ids },
                ),
            ),
        }
    }
}

/// What a trade of the units `token_ids` from `from` to `to` gives: if the
/// party that has to authorize it has done so and the rules allow it, the
/// contract takes the price from `to` for `from` and moves the units; what
/// the contract makes known ends with `closing`.
pub open spec fn spec_trade(
    pre: MinahView,
    token: StablecoinView,
    authorized: bool,
    from: Address,
    to: Address,
    token_ids: Seq<u32>,
    closing: EventView,
) -> Result<(MinahView, StablecoinView), MinahError> {
    if !authorized {
        Err(MinahError::Unauthorized)
    } else {
        match spec_check_trade(
            pre.terms,
            pre.status,
            pre.eligible(from),
            pre.eligible(to),
            pre.balance(from) as int,
            token_ids.len() as int,
            token.balances[to],
            token.allowances[(to, pre.address)],
            pre.approvals.contains((from, pre.address)),
        ) {
            Err(error) => Err(error),
            Ok(price) => match spec_transfer_from(token, pre.address, to, from, price) {
                Err(error) => Err(error),
                Ok(paid) => match spec_batch_transfer_from(
                    pre,
                    pre.address,
                    from,
                    to,
                    token_ids,
                ) {
                    Err(error) => Err(error),
                    Ok(moved) => Ok((moved.with_event(closing), paid)),
                },
            },
        }
    }
}

/// What the purchase of the units `token_ids` gives when `caller` buys them
/// from `from` for `to`: the buyer `to` is the one who authorizes.
pub open spec fn spec_buy_tokens(
    pre: MinahView,
    token: StablecoinView,
    caller: Address,
    from: Address,
    to: Address,
    token_ids: Seq<u32>,
) -> Result<(MinahView, StablecoinView), MinahError> {
    spec_trade(
        pre,
        token,
        caller == to,
        from,
        to,
        token_ids,
        EventView::TokensBought { from, to, amount: token_ids.len() as u32 },
    )
}

/// What the sale of the units `token_ids` gives when `caller` sells them
/// for `from` to `to`: the seller `from` is the one who authorizes.
pub open spec fn spec_sell_tokens(
    pre: MinahView,
    token: StablecoinView,
    caller: Address,
    from: Address,
    to: Address,
    token_ids: Seq<u32>,
) -> Result<(MinahView, StablecoinView), MinahError> {
    spec_trade(
        pre,
        token,
        caller == from,
        from,
        to,
        token_ids,
        EventView::TokensSold { from, to, amount: token_ids.len() as u32 },
    )
}

impl Minah {
    /// The state as a mathematical value.
    pub closed spec fn view(&self) -> MinahView {
        MinahView {
            address: self.address,
            owner: self.owner,
            stablecoin: self.stablecoin,
            receiver: self.receiver,
            payer: self.payer,
            terms: self.config@,
            current_supply: self.current_supply,
            begin_date: self.begin_date,
            started: self.countdown_start,
            status: self.state,
            amount_to_release: self.amount_to_release,
            investors: self.investors@,
            claimed: self.claimed@,
            owners: self.units@.owners,
            approvals: self.units@.approvals,
            events: events_view(self.events@),
        }
    }

    /// The state is one that a contract can be in.
    pub closed spec fn wf(&self) -> bool {
        &&& self.units.wf()
        &&& self@.coherent()
    }

    /// Every state that a contract can be in is coherent.
    pub proof fn lemma_coherent(&self)
        requires
            self.wf(),
        ensures
            self@.coherent(),
    {
    }

    /// Sets up a contract at `address` for `owner`, on the terms `config`.
    pub fn new(
        address: Address,
        owner: Address,
        stablecoin: Address,
        receiver: Address,
        payer: Address,
        config: Config,
    ) -> (minah: Minah)
        requires
            config.wf(),
        ensures
            minah.wf(),
            minah@ == spec_new(address, owner, stablecoin, receiver, payer, config@),
    {
        let minah = Minah {
            address,
            owner,
            stablecoin,
            receiver,
            payer,
            config,
            current_supply: 0,
            begin_date: 0,
            countdown_start: false,
            state: InvestmentStatus::BuyingPhase,
            amount_to_release: 0,
            investors: Vec::new(),
            claimed: Vec::new(),
            units: UnitLedger::new(),
            events: Vec::new(),
        };
        proof {
            assert(minah@.events =~= Seq::<EventView>::empty());
            assert(minah@.investors =~= Seq::<Address>::empty());
            assert(minah@.claimed =~= Seq::<i128>::empty());
        }
        minah
    }

    /// The name of the units.
    pub fn name(&self) -> (name: String)
        ensures
            name@ == "Minah"@,
    {
        String::from_str("Minah")
    }

    /// The symbol of the units.
    pub fn symbol(&self) -> (symbol: String)
        ensures
            symbol@ == "MNH"@,
    {
        String::from_str("MNH")
    }

    /// A greeting to `to`: the word "Hello", then `to`.
    pub fn hello(to: String) -> (words: Vec<String>)
        ensures
            words@.len() == 2,
            words@[0]@ == "Hello"@,
            words@[1] == to,
    {
        let mut words: Vec<String> = Vec::new();
        words.push(String::from_str("Hello"));
        words.push(to);
        words
    }

    /// The contract's own address.
    pub fn get_address(&self) -> (address: Address)
        ensures
            address == self@.address,
    {
        self.address
    }

    /// Who administers the contract.
    pub fn get_owner(&self) -> (owner: Address)
        ensures
            owner == self@.owner,
    {
        self.owner
    }

    /// The address of the stablecoin in which payments are made.
    pub fn get_stablecoin(&self) -> (stablecoin: Address)
        ensures
            stablecoin == self@.stablecoin,
    {
        self.stablecoin
    }

    /// Who receives what investors pay for new units.
    pub fn get_receiver(&self) -> (receiver: Address)
        ensures
            receiver == self@.receiver,
    {
        self.receiver
    }

    /// Who pays the returns.
    pub fn get_payer(&self) -> (payer: Address)
        ensures
            payer == self@.payer,
    {
        self.payer
    }

    /// When the chronometer was started; 0 before.
    pub fn get_begin_date(&self) -> (begin_date: u64)
        ensures
            begin_date == self@.begin_date,
    {
        self.begin_date
    }

    /// Whether the chronometer has been started.
    pub fn is_chronometer_started(&self) -> (started: bool)
        ensures
            started == self@.started,
    {
        self.countdown_start
    }

    /// The number of units issued so far.
    pub fn get_current_supply(&self) -> (supply: u32)
        ensures
            supply == self@.current_supply,
    {
        self.current_supply
    }

    /// Where the investment stands.
    pub fn get_current_state(&self) -> (status: InvestmentStatus)
        ensures
            status == self@.status,
    {
        self.state
    }

    /// The price of one unit, in whole stablecoins.
    pub fn get_nft_price(&self) -> (price: i128)
        ensures
            price == self@.terms.price,
    {
        self.config.price()
    }

    /// What the last release paid out in all; 0 before the first.
    pub fn get_amount_to_release(&self) -> (amount: i128)
        ensures
            amount == self@.amount_to_release,
    {
        self.amount_to_release
    }

    /// The terms of the investment.
    pub fn get_config(&self) -> (config: &Config)
        ensures
            config@ == self@.terms,
    {
        &self.config
    }

    /// The number of registered investors.
    pub fn get_investors_array_length(&self) -> (length: u32)
        requires
            self.wf(),
        ensures
            length == self@.investors.len(),
    {
        self.investors.len() as u32
    }

    /// Everything that the contract has made known, oldest first.
    pub fn get_events(&self) -> (events: &Vec<Event>)
        ensures
            events_view(events@) == self@.events,
    {
        &self.events
    }

    fn position(&self, investor: Address) -> (found: Option<usize>)
        ensures
            match found {
                Some(i) => i < self@.investors.len() && self@.investors[i as int] == investor,
                None => !self@.registered(investor),
            },
    {
        let mut i: usize = 0;
        while i < self.investors.len()
            invariant
                i <= self.investors@.len(),
                forall|k: int| 0 <= k < i ==> self.investors@[k] != investor,
            decreases self.investors@.len() - i,
        {
            if self.investors[i] == investor {
                return Some(i);
            }
            i += 1;
        }
        None
    }

    /// Whether `investor` is registered.
    pub fn is_investor(&self, investor: Address) -> (registered: bool)
        ensures
            registered == self@.registered(investor),
    {
        self.position(investor).is_some()
    }

    /// What `investor` has been paid in returns so far; 0 for an address
    /// that is not registered.
    pub fn see_claimed_amount(&self, investor: Address) -> (claimed: i128)
        requires
            self.wf(),
        ensures
            claimed == self@.claimed_amount(investor),
    {
        match self.position(investor) {
            Some(i) => self.claimed[i],
            None => 0,
        }
    }

    /// How many units `holder` owns.
    pub fn balance(&self, holder: Address) -> (balance: u32)
        requires
            self.wf(),
        ensures
            balance == self@.balance(holder),
    {
        self.units.balance(holder)
    }

    /// The owner of the unit `token_id`, if that unit exists.
    pub fn owner_of(&self, token_id: u32) -> (outcome: Result<Address, MinahError>)
        ensures
            token_id < self@.owners.len() ==> outcome == Ok::<Address, MinahError>(
                self@.owners[token_id as int],
            ),
            token_id >= self@.owners.len() ==> outcome == Err::<Address, MinahError>(
                MinahError::NonExistentToken,
            ),
    {
        self.units.owner_of(token_id)
    }

    /// Whether `owner` lets `operator` move all of the owner's units.
    pub fn is_approved_for_all(&self, owner: Address, operator: Address) -> (approved: bool)
        ensures
            approved == self@.approvals.contains((owner, operator)),
    {
        self.units.is_approved_for_all(owner, operator)
    }

    /// `owner` lets `operator` move all of the owner's units, or, with
    /// `live_until_ledger` 0, takes that approval back.
    pub fn approve_for_all(
        &mut self,
        caller: Address,
        owner: Address,
        operator: Address,
        live_until_ledger: u32,
    ) -> (outcome: Result<(), MinahError>)
        requires
            old(self).wf(),
        ensures
            final(self).wf(),
            match spec_approve(old(self)@, caller, owner, operator, live_until_ledger) {
                Ok(post) => outcome.is_ok() && final(self)@ == post,
                Err(error) => outcome == Err::<(), MinahError>(error) && final(self)@ == old(
                    self,
                )@,
            },
    {
        if caller != owner {
            return Err(MinahError::Unauthorized);
        }
        self.units.approve_for_all(owner, operator, live_until_ledger);
        Ok(())
    }

    /// Units never change hands by a plain transfer.
    pub fn transfer(&self, from: Address, to: Address, token_id: u32) -> (outcome: Result<
        (),
        MinahError,
    >)
        ensures
            outcome == Err::<(), MinahError>(MinahError::TransfersDisabled),
    {
        Err(MinahError::TransfersDisabled)
    }

    /// Units never change hands by a transfer on someone's behalf.
    pub fn transfer_from(&self, spender: Address, from: Address, to: Address, token_id: u32) -> (outcome:
        Result<(), MinahError>)
        ensures
            outcome == Err::<(), MinahError>(MinahError::TransfersDisabled),
    {
        Err(MinahError::TransfersDisabled)
    }

    /// The owner names another stablecoin.
    pub fn set_stablecoin(&mut self, caller: Address, stablecoin: Address) -> (outcome: Result<
        (),
        MinahError,
    >)
        requires
            old(self).wf(),
        ensures
            final(self).wf(),
            match spec_set_stablecoin(old(self)@, caller, stablecoin) {
                Ok(post) => outcome.is_ok() && final(self)@ == post,
                Err(error) => outcome == Err::<(), MinahError>(error) && final(self)@ == old(
                    self,
                )@,
            },
    {
        if caller != self.owner {
            return Err(MinahError::Unauthorized);
        }
        self.stablecoin = stablecoin;
        Ok(())
    }

    /// The owner names another receiver of the proceeds.
    pub fn set_receiver(&mut self, caller: Address, receiver: Address) -> (outcome: Result<
        (),
        MinahError,
    >)
        requires
            old(self).wf(),
        ensures
            final(self).wf(),
            match spec_set_receiver(old(self)@, caller, receiver) {
                Ok(post) => outcome.is_ok() && final(self)@ == post,
                Err(error) => outcome == Err::<(), MinahError>(error) && final(self)@ == old(
                    self,
                )@,
            },
    {
        if caller != self.owner {
            return Err(MinahError::Unauthorized);
        }
        self.receiver = receiver;
        Ok(())
    }

    /// The owner names another payer of the returns.
    pub fn set_payer(&mut self, caller: Address, payer: Address) -> (outcome: Result<
        (),
        MinahError,
    >)
        requires
            old(self).wf(),
        ensures
            final(self).wf(),
            match spec_set_payer(old(self)@, caller, payer) {
                Ok(post) => outcome.is_ok() && final(self)@ == post,
                Err(error) => outcome == Err::<(), MinahError>(error) && final(self)@ == old(
                    self,
                )@,
            },
    {
        if caller != self.owner {
            return Err(MinahError::Unauthorized);
        }
        self.payer = payer;
        Ok(())
    }

    fn emit(&mut self, event: Event)
        ensures
            final(self)@ == old(self)@.with_event(event@),
            final(self).units == old(self).units,
    {
        self.events.push(event);
        proof {
            assert(self@.events =~= old(self)@.events.push(event@));
        }
    }

    /// The owner registers `new_investor`.
    pub fn create_investor(&mut self, caller: Address, new_investor: Address) -> (outcome: Result<
        (),
        MinahError,
    >)
        requires
            old(self).wf(),
        ensures
            final(self).wf(),
            match spec_create_investor(old(self)@, caller, new_investor) {
                Ok(post) => outcome.is_ok() && final(self)@ == post,
                Err(error) => outcome == Err::<(), MinahError>(error) && final(self)@ == old(
                    self,
                )@,
            },
    {
        if caller != self.owner {
            return Err(MinahError::Unauthorized);
        }
        match check_registration(self.is_investor(new_investor), self.investors.len()) {
            Ok(()) => {},
            Err(error) => {
                return Err(error);
            },
        }
        self.investors.push(new_investor);
        self.claimed.push(0);
        self.emit(Event::InvestorCreated { investor: new_investor });
        Ok(())
    }
    /// `user` buys `amount` new units.
    pub fn mint(&mut self, token: &mut Stablecoin, caller: Address, user: Address, amount: u32) -> (outcome:
        Result<(), MinahError>)
        requires
            old(self).wf(),
            old(token).wf(),
        ensures
            final(self).wf(),
            final(token).wf(),
            match spec_mint(old(self)@, old(token)@, caller, user, amount) {
                Ok((post, paid)) => outcome.is_ok() && final(self)@ == post && final(token)@
                    == paid,
                Err(error) => outcome == Err::<(), MinahError>(error) && final(self)@ == old(
                    self,
                )@ && final(token)@ == old(token)@,
            },
    {
        if caller != user {
            return Err(MinahError::Unauthorized);
        }
        let registered: bool = self.is_investor(user);
        let holding: u32 = self.units.balance(user);
        let funds: i128 = token.balance(user);
        let allowance: i128 = token.allowance(user, self.address);
        let cost: i128 = match check_mint(
            &self.config,
            self.state,
            registered,
            self.current_supply,
            holding,
            amount,
            funds,
            allowance,
        ) {
            Ok(cost) => cost,
            Err(error) => {
                return Err(error);
            },
        };
        match token.transfer_from(self.address, user, self.receiver, cost) {
            Ok(()) => {},
            Err(error) => {
                return Err(error);
            },
        }
        self.current_supply = self.current_supply + amount;
        self.units.batch_mint(user, amount);
        Ok(())
    }

    /// The owner starts the chronometer at time `now`.
    pub fn start_chronometer(&mut self, caller: Address, now: u64) -> (outcome: Result<
        (),
        MinahError,
    >)
        requires
            old(self).wf(),
        ensures
            final(self).wf(),
            match spec_start_chronometer(old(self)@, caller, now) {
                Ok(post) => outcome.is_ok() && final(self)@ == post,
                Err(error) => outcome == Err::<(), MinahError>(error) && final(self)@ == old(
                    self,
                )@,
            },
    {
        if caller != self.owner {
            return Err(MinahError::Unauthorized);
        }
        let remaining: u32 = match check_start(
            &self.config,
            self.countdown_start,
            self.begin_date,
            self.current_supply,
        ) {
            Ok(remaining) => remaining,
            Err(error) => {
                return Err(error);
            },
        };
        let total_supply: u32 = self.config.total_supply();
        self.begin_date = now;
        self.countdown_start = true;
        self.state = InvestmentStatus::BeforeFirstRelease;
        self.current_supply = total_supply;
        self.units.batch_mint(self.owner, remaining);
        self.emit(Event::ChronometerStarted);
        Ok(())
    }

    /// The seconds that the chronometer has run at time `now`.
    pub fn elapsed(&self, now: u64) -> (outcome: Result<u64, MinahError>)
        ensures
            outcome == spec_elapsed(self@.started, self@.begin_date, now),
    {
        elapsed(self.countdown_start, self.begin_date, now)
    }

    /// How many units each registered investor owns, in the order of the
    /// investors.
    pub fn holdings(&self) -> (holdings: Vec<u32>)
        requires
            self.wf(),
        ensures
            holdings@ == self@.holdings(),
    {
        let mut holdings: Vec<u32> = Vec::new();
        let mut i: usize = 0;
        while i < self.investors.len()
            invariant
                self.wf(),
                i <= self.investors@.len(),
                holdings@.len() == i,
                forall|k: int| 0 <= k < i ==> holdings@[k] == self@.holdings()[k],
            decreases self.investors@.len() - i,
        {
            let held: u32 = self.units.balance(self.investors[i]);
            holdings.push(held);
            i += 1;
        }
        proof {
            assert(holdings@ =~= self@.holdings());
        }
        holdings
    }

    /// What a release of `percent` would pay in all, given what the
    /// registered investors hold now. Nothing changes.
    pub fn calculate_amount_to_release(&self, percent: i128) -> (outcome: Result<i128, MinahError>)
        requires
            self.wf(),
        ensures
            match spec_calculate_amount_to_release(self@, percent) {
                Ok(amount) => outcome == Ok::<i128, MinahError>(amount as i128) && fits_i128(
                    amount,
                ),
                Err(error) => outcome == Err::<i128, MinahError>(error),
            },
    {
        let holdings: Vec<u32> = self.holdings();
        let total: i128 = total_units(&holdings);
        amount_to_release(self.config.price(), total, percent)
    }

    /// Pays a release of `percent` out of `token` and adds each payment to
    /// `claimed`. Where the release is refused, `claimed` and `token` are
    /// left in a state of which nothing is known.
    fn settle(
        &self,
        holdings: &Vec<u32>,
        percent: i128,
        claimed: &mut Vec<i128>,
        token: &mut Stablecoin,
    ) -> (outcome: Result<i128, MinahError>)
        requires
            self.wf(),
            old(token).wf(),
            holdings@ == self@.holdings(),
            old(claimed)@.len() == self@.investors.len(),
        ensures
            final(token).wf(),
            final(claimed)@.len() == old(claimed)@.len(),
            match spec_settle(self@.payroll(), percent, old(claimed)@, old(token)@) {
                Ok((credited, paid, released)) => outcome == Ok::<i128, MinahError>(released)
                    && final(claimed)@ == credited && final(token)@ == paid,
                Err(error) => outcome == Err::<i128, MinahError>(error),
            },
    {
        let ghost payroll = self@.payroll();
        let price: i128 = self.config.price();
        let total: i128 = total_units(holdings);
        let due: i128 = match amount_to_release(price, total, percent) {
            Ok(due) => due,
            Err(error) => {
                return Err(error);
            },
        };
        let mut released: i128 = 0;
        let mut next: usize = 0;
        while next < self.investors.len()
            invariant
                self.wf(),
                token.wf(),
                payroll == self@.payroll(),
                price == payroll.price,
                spec_amount_to_release(
                    payroll.price as int,
                    spec_total_units(payroll.holdings),
                    percent as int,
                ) == Ok::<int, MinahError>(due as int),
                holdings@ == payroll.holdings,
                claimed@.len() == self@.investors.len(),
                old(claimed)@.len() == self@.investors.len(),
                next <= self@.investors.len(),
                spec_pay_investors(payroll, percent, old(claimed)@, old(token)@, 0, 0)
                    == spec_pay_investors(
                    payroll,
                    percent,
                    claimed@,
                    token@,
                    released,
                    next as nat,
                ),
            decreases self@.investors.len() - next,
        {
            let amount: i128 = match investor_amount(price, holdings[next], percent) {
                Ok(amount) => amount,
                Err(error) => {
                    return Err(error);
                },
            };
            let credited: i128 = match claimed[next].checked_add(amount) {
                Some(credited) => credited,
                None => {
                    return Err(MinahError::ArithmeticOverflow);
                },
            };
            let counted: i128 = match released.checked_add(amount) {
                Some(counted) => counted,
                None => {
                    return Err(MinahError::ArithmeticOverflow);
                },
            };
            match token.transfer_from(self.address, self.payer, self.investors[next], amount) {
                Ok(()) => {},
                Err(error) => {
                    return Err(error);
                },
            }
            claimed.set(next, credited);
            released = counted;
            next += 1;
        }
        match check_released(released, due) {
            Ok(()) => Ok(released),
            Err(error) => Err(error),
        }
    }

    /// Releases `percent` to the investors, unless the investment has ended.
    /// This is one stage of `release_distribution`, which takes the
    /// percentage from the terms and moves the status on.
    pub fn distribute(&mut self, token: &mut Stablecoin, percent: i128) -> (outcome: Result<
        (),
        MinahError,
    >)
        requires
            old(self).wf(),
            old(token).wf(),
        ensures
            final(self).wf(),
            final(token).wf(),
            match spec_distribute(old(self)@, old(token)@, percent) {
                Ok((post, paid)) => outcome.is_ok() && final(self)@ == post && final(token)@
                    == paid,
                Err(error) => outcome == Err::<(), MinahError>(error) && final(self)@ == old(
                    self,
                )@ && final(token)@ == old(token)@,
            },
    {
        match check_distribution(self.state) {
            Ok(()) => {},
            Err(error) => {
                return Err(error);
            },
        }
        let holdings: Vec<u32> = self.holdings();
        let mut claimed: Vec<i128> = self.claimed.clone();
        let mut paid: Stablecoin = token.duplicate();
        proof {
            assert(claimed@ =~= self.claimed@);
        }
        match self.settle(&holdings, percent, &mut claimed, &mut paid) {
            Ok(released) => {
                self.amount_to_release = released;
                self.claimed = claimed;
                *token = paid;
                Ok(())
            },
            Err(error) => Err(error),
        }
    }
    /// The owner releases every stage that has come due by the time `now`.
    pub fn release_distribution(&mut self, token: &mut Stablecoin, caller: Address, now: u64) -> (outcome:
        Result<(), MinahError>)
        requires
            old(self).wf(),
            old(token).wf(),
        ensures
            final(self).wf(),
            final(token).wf(),
            match spec_release_distribution(old(self)@, old(token)@, caller, now) {
                Ok((post, paid)) => outcome.is_ok() && final(self)@ == post && final(token)@
                    == paid,
                Err(error) => outcome == Err::<(), MinahError>(error) && final(self)@ == old(
                    self,
                )@ && final(token)@ == old(token)@,
            },
    {
        if caller != self.owner {
            return Err(MinahError::Unauthorized);
        }
        let (first, due): (usize, usize) = match release_plan(
            &self.config,
            self.countdown_start,
            self.begin_date,
            self.state,
            now,
        ) {
            Ok(plan) => plan,
            Err(error) => {
                return Err(error);
            },
        };
        let holdings: Vec<u32> = self.holdings();
        let mut claimed: Vec<i128> = self.claimed.clone();
        let mut paid: Stablecoin = token.duplicate();
        let mut released: i128 = self.amount_to_release;
        let mut done: usize = 0;
        proof {
            assert(claimed@ =~= self.claimed@);
            assert((MinahView { amount_to_release: released, claimed: claimed@, ..self@ })
                == self@);
        }
        while done < due
            invariant
                self.wf(),
                paid.wf(),
                token.wf(),
                *self == *old(self),
                *token == *old(token),
                caller == self@.owner,
                spec_release_plan(
                    self@.terms,
                    self@.started,
                    self@.begin_date,
                    self@.status,
                    now,
                ) == Ok::<(nat, nat), MinahError>((first as nat, due as nat)),
                holdings@ == self@.holdings(),
                claimed@.len() == self@.investors.len(),
                done <= due,
                first + due <= self@.terms.stages(),
                self@.terms.valid(),
                spec_release_stages(self@, old(token)@, first as nat, due as nat)
                    == spec_release_stages(
                    MinahView { amount_to_release: released, claimed: claimed@, ..self@ },
                    paid@,
                    (first + done) as nat,
                    (due - done) as nat,
                ),
            decreases due - done,
        {
            let ghost stage = MinahView {
                amount_to_release: released,
                claimed: claimed@,
                ..self@
            };
            proof {
                assert(stage.holdings() =~= self@.holdings());
                assert(stage.payroll() == self@.payroll());
            }
            let percent: i128 = match self.config.roi_percentage(first + done) {
                Some(percent) => percent,
                None => {
                    return Err(MinahError::InvalidConfiguration);
                },
            };
            match self.settle(&holdings, percent, &mut claimed, &mut paid) {
                Ok(amount) => {
                    released = amount;
                },
                Err(error) => {
                    return Err(error);
                },
            }
            done += 1;
        }
        self.amount_to_release = released;
        self.claimed = claimed;
        self.state = status_after(&self.config, self.state, due);
        *token = paid;
        Ok(())
    }

    /// Moves the units `token_ids` from `from` to `to` on the strength of
    /// the approval that `from` has given to `spender`.
    fn batch_transfer_from(
        &mut self,
        spender: Address,
        from: Address,
        to: Address,
        token_ids: Vec<u32>,
    ) -> (outcome: Result<(), MinahError>)
        requires
            old(self).wf(),
        ensures
            final(self).wf(),
            match spec_batch_transfer_from(old(self)@, spender, from, to, token_ids@) {
                Ok(post) => outcome.is_ok() && final(self)@ == post,
                Err(error) => outcome == Err::<(), MinahError>(error) && final(self)@ == old(
                    self,
                )@,
            },
    {
        if !self.units.is_approved_for_all(from, spender) {
            return Err(MinahError::SpenderNotApproved);
        }
        match self.units.move_units(from, to, &token_ids) {
            Ok(()) => {},
            Err(error) => {
                return Err(error);
            },
        }
        proof {
            lemma_move_units_conserves(old(self)@.owners, from, to, token_ids@, from);
        }
        self.emit(Event::BatchTransfer { from, to, token_ids });
        Ok(())
    }

    /// The trade behind a purchase (`sold` false) and a sale (`sold` true).
    fn trade(
        &mut self,
        token: &mut Stablecoin,
        authorized: bool,
        from: Address,
        to: Address,
        token_ids: Vec<u32>,
        sold: bool,
    ) -> (outcome: Result<(), MinahError>)
        requires
            old(self).wf(),
            old(token).wf(),
        ensures
            final(self).wf(),
            final(token).wf(),
            match spec_trade(
                old(self)@,
                old(token)@,
                authorized,
                from,
                to,
                token_ids@,
                if sold {
                    EventView::TokensSold { from, to, amount: token_ids@.len() as u32 }
                } else {
                    EventView::TokensBought { from, to, amount: token_ids@.len() as u32 }
                },
            ) {
                Ok((post, paid)) => outcome.is_ok() && final(self)@ == post && final(token)@
                    == paid,
                Err(error) => outcome == Err::<(), MinahError>(error) && final(self)@ == old(
                    self,
                )@ && final(token)@ == old(token)@,
            },
    {
        if !authorized {
            return Err(MinahError::Unauthorized);
        }
        let from_eligible: bool = self.is_investor(from) || from == self.owner;
        let to_eligible: bool = self.is_investor(to) || to == self.owner;
        let from_holding: u32 = self.units.balance(from);
        let funds: i128 = token.balance(to);
        let allowance: i128 = token.allowance(to, self.address);
        let approved: bool = self.units.is_approved_for_all(from, self.address);
        let price: i128 = match check_trade(
            &self.config,
            self.state,
            from_eligible,
            to_eligible,
            from_holding,
            token_ids.len(),
            funds,
            allowance,
            approved,
        ) {
            Ok(price) => price,
            Err(error) => {
                return Err(error);
            },
        };
        let amount: u32 = token_ids.len() as u32;
        let mut paid: Stablecoin = token.duplicate();
        match paid.transfer_from(self.address, to, from, price) {
            Ok(()) => {},
            Err(error) => {
                return Err(error);
            },
        }
        match self.batch_transfer_from(self.address, from, to, token_ids) {
            Ok(()) => {},
            Err(error) => {
                return Err(error);
            },
        }
        if sold {
            self.emit(Event::TokensSold { from, to, amount });
        } else {
            self.emit(Event::TokensBought { from, to, amount });
        }
        *token = paid;
        Ok(())
    }

    /// `caller` buys the units `token_ids` from `from` for `to`, at the
    /// price of new units.
    pub fn buy_tokens(
        &mut self,
        token: &mut Stablecoin,
        caller: Address,
        from: Address,
        to: Address,
        token_ids: Vec<u32>,
    ) -> (outcome: Result<(), MinahError>)
        requires
            old(self).wf(),
            old(token).wf(),
        ensures
            final(self).wf(),
            final(token).wf(),
            match spec_buy_tokens(old(self)@, old(token)@, caller, from, to, token_ids@) {
                Ok((post, paid)) => outcome.is_ok() && final(self)@ == post && final(token)@
                    == paid,
                Err(error) => outcome == Err::<(), MinahError>(error) && final(self)@ == old(
                    self,
                )@ && final(token)@ == old(token)@,
            },
    {
        self.trade(token, caller == to, from, to, token_ids, false)
    }

    /// `caller` sells the units `token_ids` for `from` to `to`, at the price
    /// of new units.
    pub fn sell_tokens(
        &mut self,
        token: &mut Stablecoin,
        caller: Address,
        from: Address,
        to: Address,
        token_ids: Vec<u32>,
    ) -> (outcome: Result<(), MinahError>)
        requires
            old(self).wf(),
            old(token).wf(),
        ensures
            final(self).wf(),
            final(token).wf(),
            match spec_sell_tokens(old(self)@, old(token)@, caller, from, to, token_ids@) {
                Ok((post, paid)) => outcome.is_ok() && final(self)@ == post && final(token)@
                    == paid,
                Err(error) => outcome == Err::<(), MinahError>(error) && final(self)@ == old(
                    self,
                )@ && final(token)@ == old(token)@,
            },
    {
        self.trade(token, caller == from, from, to, token_ids, true)
    }
}

} // verus!
