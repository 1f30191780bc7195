//! What holds of every contract, whatever calls it has answered.
//!
//! Each law is stated over the functions that describe the calls in
//! [`crate::minah`], and so holds of every call that the contract answers.

use crate::address::Address;
use crate::error::MinahError;
use crate::event::EventView;
use crate::minah::{
    spec_approve, spec_buy_tokens, spec_calculate_amount_to_release, spec_create_investor,
    spec_distribute,
    spec_distribution, spec_mint, spec_mint_for, spec_pay_investors, spec_release_distribution,
    spec_release_stages, spec_sell_tokens, spec_set_payer, spec_set_receiver,
    spec_set_stablecoin, spec_start_chronometer, spec_trade, Minah, MinahView, Payroll,
};
use crate::rules::{
    spec_check_mint, spec_check_trade, spec_investor_amount, spec_release_plan, spec_stages_due,
};
use crate::stablecoin::{spec_transfer_from, StablecoinView, STABLECOIN_SCALE};
use crate::status::InvestmentStatus;
use crate::units::{
    lemma_move_units_conserves, lemma_units_held_after_mint, lemma_units_held_bound,
    spec_move_units,
};
use vstd::prelude::*;

verus! {

/// One purchase of new units: who buys, and how many.
pub struct Purchase {
    pub user: Address,
    pub amount: u32,
}

/// What a run of purchases gives, one after the other; the first that is
/// refused refuses the run.
pub open spec fn spec_mint_all(
    pre: MinahView,
    token: StablecoinView,
    purchases: Seq<Purchase>,
) -> Result<(MinahView, StablecoinView), MinahError>
    decreases purchases.len(),
{
    if purchases.len() == 0 {
        Ok((pre, token))
    } else {
        match spec_mint_for(pre, token, purchases[0].user, purchases[0].amount) {
            Err(error) => Err(error),
            Ok((post, paid)) => spec_mint_all(post, paid, purchases.drop_first()),
        }
    }
}

/// The units bought in a run of purchases.
pub open spec fn spec_units_bought(purchases: Seq<Purchase>) -> int
    decreases purchases.len(),
{
    if purchases.len() == 0 {
        0
    } else {
        purchases[0].amount + spec_units_bought(purchases.drop_first())
    }
}

/// What the investors have been paid more in `after` than in `before`, from
/// the investor at `from` on.
pub open spec fn spec_paid_out(before: Seq<i128>, after: Seq<i128>, from: nat) -> int
    decreases before.len() - from,
{
    if from >= before.len() {
        0
    } else {
        (after[from as int] - before[from as int]) + spec_paid_out(before, after, from + 1)
    }
}

/// In every state that a contract can be in, the supply counts the units
/// that exist and is within the total supply, and once the chronometer has
/// been started it is the total supply.
pub proof fn law_supply_within_total(minah: &Minah)
    requires
        minah.wf(),
    ensures
        minah@.coherent(),
        minah@.current_supply == minah@.owners.len(),
        minah@.current_supply <= minah@.terms.total_supply,
        minah@.started ==> minah@.current_supply == minah@.terms.total_supply,
        minah@.started <==> minah@.status != InvestmentStatus::BuyingPhase,
{
    minah.lemma_coherent();
}

/// A purchase succeeds exactly when the buyer is the caller and the rules
/// allow it: once they do, the payment cannot fail.
pub proof fn law_mint_succeeds_when_allowed(
    pre: MinahView,
    token: StablecoinView,
    caller: Address,
    user: Address,
    amount: u32,
)
    requires
        pre.coherent(),
    ensures
        spec_mint(pre, token, caller, user, amount).is_ok() <==> caller == user && spec_check_mint(
            pre.terms,
            pre.status,
            pre.registered(user),
            pre.current_supply as int,
            pre.balance(user) as int,
            amount as int,
            token.balances[user],
            token.allowances[(user, pre.address)],
        ).is_ok(),
{
    assert(0 <= pre.terms.price * amount) by (nonlinear_arith)
        requires
            0 <= pre.terms.price,
            0 <= amount,
    ;
    assert(0 <= pre.terms.price * amount * STABLECOIN_SCALE)
        by (nonlinear_arith)
        requires
            0 <= pre.terms.price * amount,
            STABLECOIN_SCALE > 0,
    ;
}

/// A trade succeeds exactly when the party that has to authorize it has
/// done so, the rules allow it, and every unit named is one that the seller
/// owns when its turn comes: once the rules allow it, the payment cannot
/// fail.
pub proof fn law_trade_succeeds_when_allowed(
    pre: MinahView,
    token: StablecoinView,
    authorized: bool,
    from: Address,
    to: Address,
    token_ids: Seq<u32>,
    closing: EventView,
)
    requires
        pre.coherent(),
    ensures
        spec_trade(pre, token, authorized, from, to, token_ids, closing).is_ok() <==> {
            &&& authorized
            &&& spec_check_trade(
                pre.terms,
                pre.status,
                pre.eligible(from),
                pre.eligible(to),
                pre.balance(from) as int,
                token_ids.len() as int,
                token.balances[to],
                token.allowances[(to, pre.address)],
                pre.approvals.contains((from, pre.address)),
            ).is_ok()
            &&& spec_move_units(pre.owners, from, to, token_ids).is_ok()
        },
{
    let count = token_ids.len() as int;
    assert(0 <= pre.terms.price * count) by (nonlinear_arith)
        requires
            0 <= pre.terms.price,
            0 <= count,
    ;
    assert(0 <= pre.terms.price * count * STABLECOIN_SCALE)
        by (nonlinear_arith)
        requires
            0 <= pre.terms.price * count,
            STABLECOIN_SCALE > 0,
    ;
}

/// A purchase that succeeds adds the units bought to the supply, gives them
/// to the buyer, keeps the supply within the total supply, and leaves the
/// contract in a coherent state.
pub proof fn law_mint_accounts_for_supply(
    pre: MinahView,
    token: StablecoinView,
    user: Address,
    amount: u32,
)
    requires
        pre.coherent(),
        spec_mint_for(pre, token, user, amount).is_ok(),
    ensures
        ({
            let post = spec_mint_for(pre, token, user, amount)->Ok_0.0;
            &&& post.coherent()
            &&& post.current_supply == pre.current_supply + amount
            &&& post.current_supply <= post.terms.total_supply
            &&& post.balance(user) == pre.balance(user) + amount
            &&& post.status == pre.status
        }),
{
    lemma_units_held_after_mint(pre.owners, user, amount as nat, user);
}

/// After any run of purchases that succeed, the supply has grown by the sum
/// of the amounts bought and is within the total supply: on a contract that
/// has just been set up, the supply is that sum.
pub proof fn law_supply_is_sum_of_mints(
    pre: MinahView,
    token: StablecoinView,
    purchases: Seq<Purchase>,
)
    requires
        pre.coherent(),
        spec_mint_all(pre, token, purchases).is_ok(),
    ensures
        ({
            let post = spec_mint_all(pre, token, purchases)->Ok_0.0;
            &&& post.coherent()
            &&& post.current_supply == pre.current_supply + spec_units_bought(purchases)
            &&& post.current_supply <= post.terms.total_supply
        }),
    decreases purchases.len(),
{
    if purchases.len() > 0 {
        let first = spec_mint_for(pre, token, purchases[0].user, purchases[0].amount)->Ok_0;
        law_mint_accounts_for_supply(pre, token, purchases[0].user, purchases[0].amount);
        law_supply_is_sum_of_mints(first.0, first.1, purchases.drop_first());
    }
}

/// The start of the chronometer brings the supply to the total supply,
/// whatever was sold before: the units that nobody has bought go to the
/// owner, and nobody else's holding changes. It happens once: on the state
/// that it leaves, no second start succeeds.
pub proof fn law_start_completes_supply(
    pre: MinahView,
    caller: Address,
    now: u64,
    holder: Address,
    again_caller: Address,
    again_now: u64,
)
    requires
        pre.coherent(),
        spec_start_chronometer(pre, caller, now).is_ok(),
    ensures
        ({
            let post = spec_start_chronometer(pre, caller, now)->Ok_0;
            &&& post.coherent()
            &&& post.current_supply == post.terms.total_supply
            &&& post.status == InvestmentStatus::BeforeFirstRelease
            &&& post.begin_date == now
            &&& post.balance(pre.owner) == pre.balance(pre.owner) + (pre.terms.total_supply
                - pre.current_supply)
            &&& holder != pre.owner ==> post.balance(holder) == pre.balance(holder)
            &&& spec_start_chronometer(post, again_caller, again_now).is_err()
            &&& again_caller == post.owner ==> spec_start_chronometer(post, again_caller, again_now)
                == Err::<MinahView, MinahError>(MinahError::AlreadyStarted)
        }),
{
    let remaining = (pre.terms.total_supply - pre.current_supply) as nat;
    lemma_units_held_after_mint(pre.owners, pre.owner, remaining, pre.owner);
    lemma_units_held_after_mint(pre.owners, pre.owner, remaining, holder);
}

/// The amount to release depends on nothing but the price, the percentage
/// and what the registered investors hold: two states that agree on these
/// give the same amount.
pub proof fn law_amount_to_release_is_a_function(a: MinahView, b: MinahView, percent: i128)
    requires
        a.terms.price == b.terms.price,
        a.holdings() == b.holdings(),
    ensures
        spec_calculate_amount_to_release(a, percent) == spec_calculate_amount_to_release(
            b,
            percent,
        ),
{
}

proof fn lemma_pay_investors(
    payroll: Payroll,
    percent: i128,
    claimed: Seq<i128>,
    token: StablecoinView,
    released: i128,
    next: nat,
)
    requires
        claimed.len() == payroll.investors.len(),
        spec_pay_investors(payroll, percent, claimed, token, released, next).is_ok(),
    ensures
        ({
            let (credited, paid, total) = spec_pay_investors(
                payroll,
                percent,
                claimed,
                token,
                released,
                next,
            )->Ok_0;
            &&& credited.len() == claimed.len()
            &&& paid.total_supply == token.total_supply
            &&& total - released == spec_paid_out(claimed, credited, next)
            &&& forall|i: int| 0 <= i < next && i < claimed.len() ==> credited[i] == claimed[i]
            &&& forall|i: int|
                next <= i < claimed.len() ==> spec_investor_amount(
                    payroll.price as int,
                    payroll.holdings[i] as int,
                    percent as int,
                ) == Ok::<int, MinahError>(#[trigger] credited[i] - claimed[i])
        }),
    decreases payroll.investors.len() - next,
{
    if next < payroll.investors.len() {
        let amount = spec_investor_amount(
            payroll.price as int,
            payroll.holdings[next as int] as int,
            percent as int,
        )->Ok_0;
        let updated = claimed.update(next as int, (claimed[next as int] + amount) as i128);
        let paid_one = spec_transfer_from(
            token,
            payroll.spender,
            payroll.payer,
            payroll.investors[next as int],
            amount,
        )->Ok_0;
        lemma_pay_investors(
            payroll,
            percent,
            updated,
            paid_one,
            (released + amount) as i128,
            next + 1,
        );
        let credited = spec_pay_investors(payroll, percent, claimed, token, released, next)->Ok_0.0;
        lemma_paid_out_ignores_earlier(claimed, updated, credited, next + 1);
        assert(credited[next as int] == updated[next as int]);
    }
}

proof fn lemma_paid_out_ignores_earlier(
    a: Seq<i128>,
    b: Seq<i128>,
    after: Seq<i128>,
    from: nat,
)
    requires
        a.len() == b.len(),
        forall|i: int| from <= i < a.len() ==> a[i] == b[i],
    ensures
        spec_paid_out(a, after, from) == spec_paid_out(b, after, from),
    decreases a.len() - from,
{
    if from < a.len() {
        lemma_paid_out_ignores_earlier(a, b, after, from + 1);
    }
}

/// In a release that succeeds, what the investors are paid adds up to the
/// amount to release, exactly; each is paid the share due for what the
/// investor holds, and an investor who holds nothing is paid nothing. Unless
/// the percentage is negative, nobody's claimed amount shrinks. The
/// stablecoin is neither created nor destroyed.
pub proof fn law_distribution_pays_amount_to_release(
    pre: MinahView,
    token: StablecoinView,
    percent: i128,
    investor: int,
)
    requires
        pre.coherent(),
        spec_distribution(pre, token, percent).is_ok(),
        0 <= investor < pre.investors.len(),
    ensures
        ({
            let (post, paid) = spec_distribution(pre, token, percent)->Ok_0;
            &&& post.coherent()
            &&& spec_paid_out(pre.claimed, post.claimed, 0) == post.amount_to_release
            &&& spec_calculate_amount_to_release(pre, percent) == Ok::<int, MinahError>(
                post.amount_to_release as int,
            )
            &&& spec_investor_amount(
                pre.terms.price as int,
                pre.balance(pre.investors[investor]) as int,
                percent as int,
            ) == Ok::<int, MinahError>(post.claimed[investor] - pre.claimed[investor])
            &&& pre.balance(pre.investors[investor]) == 0 ==> post.claimed[investor]
                == pre.claimed[investor]
            &&& percent >= 0 ==> post.claimed[investor] >= pre.claimed[investor]
            &&& paid.total_supply == token.total_supply
            &&& post.status == pre.status
            &&& post.owners == pre.owners
            &&& post.current_supply == pre.current_supply
        }),
{
    lemma_pay_investors(pre.payroll(), percent, pre.claimed, token, 0, 0);
    lemma_units_held_bound(pre.owners, pre.investors[investor]);
    let (post, paid) = spec_distribution(pre, token, percent)->Ok_0;
    let holding = pre.balance(pre.investors[investor]) as int;
    assert(pre.payroll().holdings[investor] == holding);
    let share = post.claimed[investor] - pre.claimed[investor];
    assert(spec_investor_amount(pre.terms.price as int, holding, percent as int) == Ok::<
        int,
        MinahError,
    >(share));
    if holding == 0 {
        assert(0 * (percent as int) == 0) by (nonlinear_arith);
        assert(0 * (pre.terms.price as int) == 0) by (nonlinear_arith);
        assert(share == 0);
    }
    if percent >= 0 {
        let scaled = holding * (percent as int);
        assert(scaled >= 0) by (nonlinear_arith)
            requires
                scaled == holding * (percent as int),
                holding >= 0,
                percent >= 0,
        ;
        assert((scaled / 100) * (pre.terms.price as int) >= 0) by (nonlinear_arith)
            requires
                scaled >= 0,
                pre.terms.price >= 0,
        ;
        assert(share >= 0);
    }
    assert(post.coherent());
    assert(spec_paid_out(pre.claimed, post.claimed, 0) == post.amount_to_release);
    assert(paid.total_supply == token.total_supply);
}

/// The same holds of a release that is made at the contract's present
/// stage: it is refused once the investment has ended, and what it pays
/// otherwise adds up to the amount to release.
pub proof fn law_distribute_pays_amount_to_release(
    pre: MinahView,
    token: StablecoinView,
    percent: i128,
)
    requires
        pre.coherent(),
    ensures
        pre.status == InvestmentStatus::Ended ==> spec_distribute(pre, token, percent) == Err::<
            (MinahView, StablecoinView),
            MinahError,
        >(MinahError::DistributionEnded),
        spec_distribute(pre, token, percent).is_ok() ==> {
            let post = spec_distribute(pre, token, percent)->Ok_0.0;
            spec_paid_out(pre.claimed, post.claimed, 0) == post.amount_to_release
        },
{
    if spec_distribute(pre, token, percent).is_ok() {
        lemma_pay_investors(pre.payroll(), percent, pre.claimed, token, 0, 0);
    }
}

proof fn lemma_release_stages(pre: MinahView, token: StablecoinView, first: nat, count: nat)
    requires
        pre.coherent(),
        spec_release_stages(pre, token, first, count).is_ok(),
    ensures
        ({
            let (post, paid) = spec_release_stages(pre, token, first, count)->Ok_0;
            &&& post.coherent()
            &&& post.status == pre.status
            &&& post.owners == pre.owners
            &&& post.current_supply == pre.current_supply
            &&& post.investors == pre.investors
            &&& post.terms == pre.terms
            &&& post.started == pre.started
            &&& post.begin_date == pre.begin_date
            &&& post.owner == pre.owner
            &&& post.address == pre.address
            &&& post.events == pre.events
            &&& paid.total_supply == token.total_supply
        }),
    decreases count,
{
    if count > 0 {
        let percent = pre.terms.roi_percentages[first as int];
        let (post, paid) = spec_distribution(pre, token, percent)->Ok_0;
        lemma_pay_investors(pre.payroll(), percent, pre.claimed, token, 0, 0);
        lemma_release_stages(post, paid, first + 1, (count - 1) as nat);
    }
}

/// The status never moves back. A release that succeeds moves it forward,
/// by as many stages as had come due or to the end, and changes neither the
/// supply nor who owns which unit.
pub proof fn law_release_moves_forward(
    pre: MinahView,
    token: StablecoinView,
    caller: Address,
    now: u64,
)
    requires
        pre.coherent(),
        spec_release_distribution(pre, token, caller, now).is_ok(),
    ensures
        ({
            let (post, paid) = spec_release_distribution(pre, token, caller, now)->Ok_0;
            &&& post.coherent()
            &&& post.status.rank() > pre.status.rank()
            &&& post.current_supply == pre.current_supply
            &&& post.owners == pre.owners
            &&& paid.total_supply == token.total_supply
        }),
{
    let (first, due) = spec_release_plan(
        pre.terms,
        pre.started,
        pre.begin_date,
        pre.status,
        now,
    )->Ok_0;
    lemma_release_stages(pre, token, first, due);
    lemma_stages_due_bound(pre.terms.distribution_intervals, first, (now - pre.begin_date) as u64);
}

proof fn lemma_stages_due_bound(intervals: Seq<u64>, index: nat, elapsed: u64)
    ensures
        spec_stages_due(intervals, index, elapsed) > 0 ==> index + spec_stages_due(
            intervals,
            index,
            elapsed,
        ) <= intervals.len(),
    decreases intervals.len() - index,
{
    if index < intervals.len() && elapsed >= intervals[index as int] {
        lemma_stages_due_bound(intervals, index + 1, elapsed);
    }
}

/// A release that the owner asks for before the next stage has come due,
/// or after the last stage has been released, is refused as not ready.
pub proof fn law_release_before_due_is_refused(
    pre: MinahView,
    token: StablecoinView,
    now: u64,
)
    requires
        pre.coherent(),
        pre.started,
        now >= pre.begin_date,
        pre.status.rank() > pre.terms.stages() || now - pre.begin_date
            < pre.terms.distribution_intervals[pre.status.rank() - 1],
    ensures
        spec_release_distribution(pre, token, pre.owner, now) == Err::<
            (MinahView, StablecoinView),
            MinahError,
        >(MinahError::DistributionNotReady),
{
}

/// None of the other calls changes the status, but for the start of the
/// chronometer, which ends the buying phase.
pub proof fn law_other_calls_keep_status(
    pre: MinahView,
    token: StablecoinView,
    caller: Address,
    from: Address,
    to: Address,
    token_ids: Seq<u32>,
    now: u64,
)
    requires
        pre.coherent(),
    ensures
        spec_create_investor(pre, caller, to).is_ok() ==> spec_create_investor(
            pre,
            caller,
            to,
        )->Ok_0.status == pre.status,
        spec_buy_tokens(pre, token, caller, from, to, token_ids).is_ok() ==> spec_buy_tokens(
            pre,
            token,
            caller,
            from,
            to,
            token_ids,
        )->Ok_0.0.status == pre.status,
        spec_sell_tokens(pre, token, caller, from, to, token_ids).is_ok() ==> spec_sell_tokens(
            pre,
            token,
            caller,
            from,
            to,
            token_ids,
        )->Ok_0.0.status == pre.status,
        spec_set_stablecoin(pre, caller, to).is_ok() ==> spec_set_stablecoin(
            pre,
            caller,
            to,
        )->Ok_0.status == pre.status,
        spec_set_receiver(pre, caller, to).is_ok() ==> spec_set_receiver(
            pre,
            caller,
            to,
        )->Ok_0.status == pre.status,
        spec_set_payer(pre, caller, to).is_ok() ==> spec_set_payer(pre, caller, to)->Ok_0.status
            == pre.status,
        spec_start_chronometer(pre, caller, now).is_ok() ==> spec_start_chronometer(
            pre,
            caller,
            now,
        )->Ok_0.status.rank() > pre.status.rank(),
{
}

/// A trade that succeeds conserves the units: what the two parties hold
/// together is what they held together before, each unit traded is one less
/// for the seller and one more for the buyer, nobody else's holding changes,
/// and the supply stays as it was. It conserves the stablecoin as well: the
/// buyer pays the seller the price, and what the two own together does not
/// change.
pub proof fn law_trade_conserves_units(
    pre: MinahView,
    token: StablecoinView,
    authorized: bool,
    from: Address,
    to: Address,
    token_ids: Seq<u32>,
    closing: EventView,
    holder: Address,
)
    requires
        pre.coherent(),
        spec_trade(pre, token, authorized, from, to, token_ids, closing).is_ok(),
    ensures
        ({
            let (post, paid) = spec_trade(
                pre,
                token,
                authorized,
                from,
                to,
                token_ids,
                closing,
            )->Ok_0;
            &&& post.coherent()
            &&& post.current_supply == pre.current_supply
            &&& post.owners.len() == pre.owners.len()
            &&& post.balance(from) + post.balance(to) == pre.balance(from) + pre.balance(to)
            &&& from != to ==> post.balance(from) + token_ids.len() == pre.balance(from)
            &&& from != to ==> post.balance(to) == pre.balance(to) + token_ids.len()
            &&& holder != from && holder != to ==> post.balance(holder) == pre.balance(holder)
            &&& post.status == pre.status
            &&& paid.total_supply == token.total_supply
            &&& paid.balances[from] + paid.balances[to] == token.balances[from]
                + token.balances[to]
        }),
{
    lemma_move_units_conserves(pre.owners, from, to, token_ids, from);
    lemma_move_units_conserves(pre.owners, from, to, token_ids, to);
    lemma_move_units_conserves(pre.owners, from, to, token_ids, holder);
}

/// During the buying phase every purchase and every sale on the
/// marketplace is refused because transfers are disabled, whatever the
/// parties own or have approved, as long as the party that has to authorize
/// the call is the caller.
pub proof fn law_no_trade_in_buying_phase(
    pre: MinahView,
    token: StablecoinView,
    from: Address,
    to: Address,
    token_ids: Seq<u32>,
)
    requires
        pre.status == InvestmentStatus::BuyingPhase,
    ensures
        spec_buy_tokens(pre, token, to, from, to, token_ids) == Err::<
            (MinahView, StablecoinView),
            MinahError,
        >(MinahError::TransfersDisabledDuringBuyingPhase),
        spec_sell_tokens(pre, token, from, from, to, token_ids) == Err::<
            (MinahView, StablecoinView),
            MinahError,
        >(MinahError::TransfersDisabledDuringBuyingPhase),
{
}

/// What no call undoes: the terms, the owner and the contract's address
/// stay; every investor stays in the list, at the same place; every unit
/// stays in being; the supply does not shrink; the status does not move
/// back.
pub open spec fn keeps(pre: MinahView, post: MinahView) -> bool {
    &&& post.terms == pre.terms
    &&& post.owner == pre.owner
    &&& post.address == pre.address
    &&& pre.investors.is_prefix_of(post.investors)
    &&& pre.owners.len() <= post.owners.len()
    &&& pre.current_supply <= post.current_supply
    &&& pre.status.rank() <= post.status.rank()
    &&& pre.events.is_prefix_of(post.events)
}

/// Every call that the contract answers with success leaves it in a
/// coherent state and undoes nothing: investors are never removed, units
/// never destroyed, the supply never shrinks, the status never moves back,
/// and what has been made known stays known.
pub proof fn law_calls_undo_nothing(
    pre: MinahView,
    token: StablecoinView,
    caller: Address,
    from: Address,
    to: Address,
    token_ids: Seq<u32>,
    amount: u32,
    percent: i128,
    now: u64,
)
    requires
        pre.coherent(),
    ensures
        spec_create_investor(pre, caller, to) matches Ok(post) ==> post.coherent() && keeps(
            pre,
            post,
        ),
        spec_mint(pre, token, caller, to, amount) matches Ok(done) ==> done.0.coherent() && keeps(
            pre,
            done.0,
        ),
        spec_start_chronometer(pre, caller, now) matches Ok(post) ==> post.coherent() && keeps(
            pre,
            post,
        ),
        spec_distribute(pre, token, percent) matches Ok(done) ==> done.0.coherent() && keeps(
            pre,
            done.0,
        ),
        spec_release_distribution(pre, token, caller, now) matches Ok(done) ==> done.0.coherent()
            && keeps(pre, done.0),
        spec_buy_tokens(pre, token, caller, from, to, token_ids) matches Ok(done)
            ==> done.0.coherent() && keeps(pre, done.0),
        spec_sell_tokens(pre, token, caller, from, to, token_ids) matches Ok(done)
            ==> done.0.coherent() && keeps(pre, done.0),
        spec_approve(pre, caller, from, to, amount) matches Ok(post) ==> post.coherent() && keeps(
            pre,
            post,
        ),
        spec_set_stablecoin(pre, caller, to) matches Ok(post) ==> post.coherent() && keeps(
            pre,
            post,
        ),
        spec_set_receiver(pre, caller, to) matches Ok(post) ==> post.coherent() && keeps(
            pre,
            post,
        ),
        spec_set_payer(pre, caller, to) matches Ok(post) ==> post.coherent() && keeps(pre, post),
{
    match spec_create_investor(pre, caller, to) {
        Ok(post) => {
            assert(pre.investors.is_prefix_of(post.investors));
            assert(pre.events.is_prefix_of(post.events));
        },
        Err(_) => {},
    }
    if spec_mint(pre, token, caller, to, amount).is_ok() {
        law_mint_accounts_for_supply(pre, token, to, amount);
    }
    match spec_start_chronometer(pre, caller, now) {
        Ok(post) => {
            assert(pre.events.is_prefix_of(post.events));
        },
        Err(_) => {},
    }
    if spec_distribute(pre, token, percent).is_ok() {
        lemma_pay_investors(pre.payroll(), percent, pre.claimed, token, 0, 0);
    }
    if spec_release_distribution(pre, token, caller, now).is_ok() {
        law_release_moves_forward(pre, token, caller, now);
        let (first, due) = spec_release_plan(
            pre.terms,
            pre.started,
            pre.begin_date,
            pre.status,
            now,
        )->Ok_0;
        lemma_release_stages(pre, token, first, due);
    }
    match spec_buy_tokens(pre, token, caller, from, to, token_ids) {
        Ok(done) => {
            lemma_move_units_conserves(pre.owners, from, to, token_ids, from);
            assert(pre.events.is_prefix_of(done.0.events));
        },
        Err(_) => {},
    }
    match spec_sell_tokens(pre, token, caller, from, to, token_ids) {
        Ok(done) => {
            lemma_move_units_conserves(pre.owners, from, to, token_ids, from);
            assert(pre.events.is_prefix_of(done.0.events));
        },
        Err(_) => {},
    }
}

} // verus!
