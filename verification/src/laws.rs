//! What holds of the ledger's operations taken together.
//!
//! Each statement is over the values that the operations' contracts speak of:
//! the ledger and the user records as maps, the amounts as numbers.
use vstd::prelude::*;
use crate::address::Address;
use crate::ledger::BitsaveView;
use crate::constants::{BS_SAVING_FEE, MIN_BS_JOIN_FEE};
use crate::errors::BitsaveErrors;
use crate::user_data::UserView;

verus! {

/// An identity joins at most once: after a join that succeeded, every join
/// by the same identity fails with `UserAlreadyExists`, whatever value is
/// attached and whatever name is given.
pub proof fn law_join_at_most_once(
    ledger: BitsaveView,
    caller: Address,
    value: nat,
    user_name: Seq<char>,
    later_value: nat,
    later_name: Seq<char>,
)
    requires
        ledger.join(caller, value, user_name) is Ok,
    ensures
        ledger.join(caller, value, user_name)->Ok_0.join(caller, later_value, later_name) == Err::<
            BitsaveView,
            BitsaveErrors,
        >(BitsaveErrors::UserAlreadyExists),
{
}

/// A user stays a user: no operation that succeeds takes a record away, so a
/// join by an identity that has a record fails however many operations lie
/// between.
pub proof fn law_membership_is_kept(
    ledger: BitsaveView,
    who: Address,
    caller: Address,
    value: nat,
    now: nat,
    name: Seq<char>,
    maturity_time: nat,
    penalty_perc: nat,
    use_safe_mode: bool,
)
    requires
        ledger.user(who).user_exists,
    ensures
        ledger.init(caller).user(who).user_exists,
        ledger.join(caller, value, name) is Ok ==> ledger.join(caller, value, name)->Ok_0.user(
            who,
        ).user_exists,
        ledger.create_saving(caller, value, now, name, maturity_time, penalty_perc, use_safe_mode)
            matches Ok(after) ==> after.user(who).user_exists,
        ledger.increment_saving(caller, value, now, name) matches Ok(after) ==> after.user(
            who,
        ).user_exists,
        ledger.withdraw_savings(caller, now, false, name) matches Ok(after) ==> after.0.user(
            who,
        ).user_exists,
{
}

/// A join by an identity without a record, with less than the joining fee
/// attached, fails with `InsufficientFee`.
pub proof fn law_join_needs_fee(ledger: BitsaveView, caller: Address, value: nat, user_name: Seq<char>)
    requires
        !ledger.user(caller).user_exists,
        value < MIN_BS_JOIN_FEE,
    ensures
        ledger.join(caller, value, user_name) == Err::<BitsaveView, BitsaveErrors>(
            BitsaveErrors::InsufficientFee,
        ),
{
}

/// In a user's record, a name under which a saving was opened is taken:
/// opening another under it fails with `SavingAlreadyExists`, whatever the
/// other arguments are.
pub proof fn law_open_name_is_taken(
    user: UserView,
    name: Seq<char>,
    amount: nat,
    token_id: Address,
    maturity_time: nat,
    penalty_perc: nat,
    use_safe_mode: bool,
    vault_state: nat,
    total_value_locked: nat,
    now: nat,
    later_amount: nat,
    later_token_id: Address,
    later_maturity_time: nat,
    later_penalty_perc: nat,
    later_safe_mode: bool,
    later_vault_state: nat,
    later_total_value_locked: nat,
    later_now: nat,
)
    requires
        user.create_saving(
            name,
            amount,
            token_id,
            maturity_time,
            penalty_perc,
            use_safe_mode,
            vault_state,
            total_value_locked,
            now,
        ) is Ok,
    ensures
        user.create_saving(
            name,
            amount,
            token_id,
            maturity_time,
            penalty_perc,
            use_safe_mode,
            vault_state,
            total_value_locked,
            now,
        )->Ok_0.create_saving(
            name,
            later_amount,
            later_token_id,
            later_maturity_time,
            later_penalty_perc,
            later_safe_mode,
            later_vault_state,
            later_total_value_locked,
            later_now,
        ) == Err::<UserView, BitsaveErrors>(BitsaveErrors::SavingAlreadyExists),
{
}

/// On the ledger, opening a saving twice under one name fails the second
/// time with `SavingAlreadyExists`, where the second call covers the fee and
/// does not ask for safe mode (those two are refused before the name is
/// looked at).
pub proof fn law_create_saving_twice(
    ledger: BitsaveView,
    caller: Address,
    name: Seq<char>,
    value: nat,
    now: nat,
    maturity_time: nat,
    penalty_perc: nat,
    use_safe_mode: bool,
    later_value: nat,
    later_now: nat,
    later_maturity_time: nat,
    later_penalty_perc: nat,
)
    requires
        ledger.create_saving(caller, value, now, name, maturity_time, penalty_perc, use_safe_mode)
            is Ok,
        later_value >= BS_SAVING_FEE,
    ensures
        ledger.create_saving(
            caller,
            value,
            now,
            name,
            maturity_time,
            penalty_perc,
            use_safe_mode,
        )->Ok_0.create_saving(
            caller,
            later_value,
            later_now,
            name,
            later_maturity_time,
            later_penalty_perc,
            false,
        ) == Err::<BitsaveView, BitsaveErrors>(BitsaveErrors::SavingAlreadyExists),
{
}

/// Topping up a saving that was withdrawn fails with `SavingNotFound`.
pub proof fn law_increment_after_withdraw(
    ledger: BitsaveView,
    caller: Address,
    name: Seq<char>,
    now: nat,
    later_value: nat,
    later_now: nat,
)
    requires
        ledger.withdraw_savings(caller, now, false, name) is Ok,
    ensures
        ledger.withdraw_savings(caller, now, false, name)->Ok_0.0.increment_saving(
            caller,
            later_value,
            later_now,
            name,
        ) == Err::<BitsaveView, BitsaveErrors>(BitsaveErrors::SavingNotFound),
{
}

/// A withdrawal pays the stored principal once the saving has matured, and
/// the principal less its penalty, the penalty rounded down, before. The
/// accrued interest is in neither. The penalty of a stored saving is at most
/// one hundred percent.
pub proof fn law_withdraw_pays(ledger: BitsaveView, caller: Address, name: Seq<char>, now: nat)
    requires
        ledger.withdraw_savings(caller, now, false, name) is Ok,
        ledger.user(caller).saving(name).penalty_perc <= 100,
    ensures
        ({
            let saving = ledger.user(caller).saving(name);
            let payout = ledger.withdraw_savings(caller, now, false, name)->Ok_0.1;
            &&& saving.is_valid
            &&& now >= saving.maturity_time ==> payout == saving.amount
            &&& now < saving.maturity_time ==> payout == saving.amount - saving.amount
                * saving.penalty_perc / 100
        }),
{
    let saving = ledger.user(caller).saving(name);
    let a = saving.amount as int;
    let p = saving.penalty_perc as int;
    assert(p <= 100 ==> a * p / 100 <= a) by (nonlinear_arith)
        requires
            0 <= a,
            0 <= p,
    ;
}

/// After a withdrawal the saving is closed and empty: its record stays under
/// the name, it is not valid, and its principal, its interest and its penalty
/// are zero. Its times and its asset stay, and so do the user's points.
pub proof fn law_withdraw_clears(ledger: BitsaveView, caller: Address, name: Seq<char>, now: nat)
    requires
        ledger.withdraw_savings(caller, now, false, name) is Ok,
    ensures
        ({
            let before = ledger.user(caller);
            let after = ledger.withdraw_savings(caller, now, false, name)->Ok_0.0.user(caller);
            &&& after.is_closed(name)
            &&& !after.saving(name).is_valid
            &&& after.saving(name).amount == 0
            &&& after.saving(name).interest_accumulated == 0
            &&& after.saving(name).penalty_perc == 0
            &&& after.saving(name).maturity_time == before.saving(name).maturity_time
            &&& after.saving(name).start_time == before.saving(name).start_time
            &&& after.saving(name).token_id == before.saving(name).token_id
            &&& after.total_point == before.total_point
        }),
{
}

/// In a user's record a name is used once. A name under which a saving was
/// ever opened stays known whatever operation succeeds on the record, and
/// opening a saving under it fails with `SavingAlreadyExists`, be the first
/// saving open still or withdrawn since.
pub proof fn law_name_is_used_once(
    user: UserView,
    used: Seq<char>,
    name: Seq<char>,
    amount: nat,
    token_id: Address,
    maturity_time: nat,
    penalty_perc: nat,
    use_safe_mode: bool,
    vault_state: nat,
    total_value_locked: nat,
    now: nat,
)
    requires
        user.knows(used),
    ensures
        user.create_saving(
            used,
            amount,
            token_id,
            maturity_time,
            penalty_perc,
            use_safe_mode,
            vault_state,
            total_value_locked,
            now,
        ) == Err::<UserView, BitsaveErrors>(BitsaveErrors::SavingAlreadyExists),
        user.create_saving(
            name,
            amount,
            token_id,
            maturity_time,
            penalty_perc,
            use_safe_mode,
            vault_state,
            total_value_locked,
            now,
        ) matches Ok(after) ==> after.knows(used) && after.knows(name),
        user.increment_saving(name, amount, token_id, vault_state, total_value_locked, now)
            matches Ok(after) ==> after.knows(used),
        user.withdraw_saving(name, now) matches Ok(after) ==> after.0.knows(used),
{
}

/// In a user's record a closed name stays closed. Opening a saving under it
/// fails with `SavingAlreadyExists`, topping it up and withdrawing it fail
/// with `SavingNotFound`, and whatever operation succeeds on the record, under
/// whatever name, leaves the name closed and its cleared record as it was.
pub proof fn law_closed_name_stays_closed(
    user: UserView,
    closed: Seq<char>,
    name: Seq<char>,
    amount: nat,
    token_id: Address,
    maturity_time: nat,
    penalty_perc: nat,
    use_safe_mode: bool,
    vault_state: nat,
    total_value_locked: nat,
    now: nat,
)
    requires
        user.is_closed(closed),
    ensures
        user.create_saving(
            closed,
            amount,
            token_id,
            maturity_time,
            penalty_perc,
            use_safe_mode,
            vault_state,
            total_value_locked,
            now,
        ) == Err::<UserView, BitsaveErrors>(BitsaveErrors::SavingAlreadyExists),
        user.increment_saving(closed, amount, token_id, vault_state, total_value_locked, now)
            == Err::<UserView, BitsaveErrors>(BitsaveErrors::SavingNotFound),
        user.withdraw_saving(closed, now) == Err::<(UserView, nat), BitsaveErrors>(
            BitsaveErrors::SavingNotFound,
        ),
        user.create_saving(
            name,
            amount,
            token_id,
            maturity_time,
            penalty_perc,
            use_safe_mode,
            vault_state,
            total_value_locked,
            now,
        ) matches Ok(after) ==> after.is_closed(closed) && after.saving(closed) == user.saving(
            closed,
        ),
        user.increment_saving(name, amount, token_id, vault_state, total_value_locked, now)
            matches Ok(after) ==> after.is_closed(closed) && after.saving(closed) == user.saving(
            closed,
        ),
        user.withdraw_saving(name, now) matches Ok(after) ==> after.0.is_closed(closed)
            && after.0.saving(closed) == user.saving(closed),
{
}

/// On the ledger a closed name of a user stays closed, whoever calls and
/// whatever they call. The user cannot open a saving under it again: the call
/// fails, and with `SavingAlreadyExists` where it covers the fee and does not
/// ask for safe mode.
pub proof fn law_closed_name_stays_closed_on_ledger(
    ledger: BitsaveView,
    who: Address,
    closed: Seq<char>,
    caller: Address,
    value: nat,
    now: nat,
    name: Seq<char>,
    maturity_time: nat,
    penalty_perc: nat,
    use_safe_mode: bool,
)
    requires
        ledger.user(who).user_exists,
        ledger.user(who).is_closed(closed),
    ensures
        ledger.create_saving(who, value, now, closed, maturity_time, penalty_perc, use_safe_mode)
            is Err,
        value >= BS_SAVING_FEE && !use_safe_mode ==> ledger.create_saving(
            who,
            value,
            now,
            closed,
            maturity_time,
            penalty_perc,
            use_safe_mode,
        ) == Err::<BitsaveView, BitsaveErrors>(BitsaveErrors::SavingAlreadyExists),
        ledger.increment_saving(who, value, now, closed) == Err::<BitsaveView, BitsaveErrors>(
            BitsaveErrors::SavingNotFound,
        ),
        ledger.withdraw_savings(who, now, false, closed) == Err::<
            (BitsaveView, nat),
            BitsaveErrors,
        >(BitsaveErrors::SavingNotFound),
        ledger.init(caller).user(who).is_closed(closed),
        ledger.join(caller, value, name) matches Ok(after) ==> after.user(who).is_closed(closed),
        ledger.create_saving(caller, value, now, name, maturity_time, penalty_perc, use_safe_mode)
            matches Ok(after) ==> after.user(who).is_closed(closed),
        ledger.increment_saving(caller, value, now, name) matches Ok(after) ==> after.user(
            who,
        ).is_closed(closed),
        ledger.withdraw_savings(caller, now, false, name) matches Ok(after) ==> after.0.user(
            who,
        ).is_closed(closed),
{
}

/// A user's points never fall: opening a saving and topping one up add the
/// interest to them, and a withdrawal leaves them as they are.
pub proof fn law_points_never_fall(
    user: UserView,
    name: Seq<char>,
    amount: nat,
    token_id: Address,
    maturity_time: nat,
    penalty_perc: nat,
    use_safe_mode: bool,
    vault_state: nat,
    total_value_locked: nat,
    now: nat,
)
    ensures
        user.create_saving(
            name,
            amount,
            token_id,
            maturity_time,
            penalty_perc,
            use_safe_mode,
            vault_state,
            total_value_locked,
            now,
        ) matches Ok(after) ==> after.total_point >= user.total_point && after.total_point
            - user.total_point == after.saving(name).interest_accumulated,
        user.increment_saving(name, amount, token_id, vault_state, total_value_locked, now)
            matches Ok(after) ==> after.total_point >= user.total_point && after.total_point
            - user.total_point == after.saving(name).interest_accumulated - user.saving(
            name,
        ).interest_accumulated,
        user.withdraw_saving(name, now) matches Ok(after) ==> after.0.total_point
            == user.total_point,
{
}

/// An operation by one user leaves every other user's record as it was.
pub proof fn law_other_users_untouched(
    ledger: BitsaveView,
    who: Address,
    caller: Address,
    value: nat,
    now: nat,
    name: Seq<char>,
    maturity_time: nat,
    penalty_perc: nat,
    use_safe_mode: bool,
)
    requires
        who != caller,
    ensures
        ledger.join(caller, value, name) matches Ok(after) ==> after.user(who) == ledger.user(who),
        ledger.create_saving(caller, value, now, name, maturity_time, penalty_perc, use_safe_mode)
            matches Ok(after) ==> after.user(who) == ledger.user(who),
        ledger.increment_saving(caller, value, now, name) matches Ok(after) ==> after.user(who)
            == ledger.user(who),
        ledger.withdraw_savings(caller, now, false, name) matches Ok(after) ==> after.0.user(who)
            == ledger.user(who),
{
}

} // verus!
