//! The interest formula and the early-withdrawal penalty.
use vstd::prelude::*;
use crate::constants::{DIVISOR, HUNDRED, MAX_SUPPLY, TOTAL_SUPPLY, YEARS_IN_SECS};
use crate::errors::BitsaveErrors;
use crate::uint::{checked_mul, checked_sub, u256_limit, U256};

verus! {

/// The whole years from `now` to `end_time`; none where `end_time` is not
/// later than `now`.
pub open spec fn years_to_maturity(end_time: nat, now: nat) -> nat {
    if end_time > now {
        (end_time - now) as nat / (YEARS_IN_SECS as nat)
    } else {
        0
    }
}

/// The pool's ratio figure, in percent, for a vault state that is neither
/// zero nor above the total supply.
pub open spec fn crp_of(vault_state: nat) -> nat {
    ((TOTAL_SUPPLY - vault_state) / (vault_state as int) * HUNDRED) as nat
}

/// The rate for a vault state and a total value locked whose product with
/// the ratio figure is not zero.
pub open spec fn rate_of(vault_state: nat, total_value_locked: nat) -> nat {
    MAX_SUPPLY as nat / (crp_of(vault_state) * total_value_locked)
}

/// Why the pool figures give the formula no rate, if they give none. A vault
/// state or a total value locked of zero is a division by zero, whatever the
/// other figure is. Else a vault state above the total supply is an overflow,
/// a ratio figure of zero a division by zero, and a product of the ratio
/// figure and the total value locked that does not fit in 256 bits an
/// overflow.
pub open spec fn pool_fault(vault_state: nat, total_value_locked: nat) -> Option<BitsaveErrors> {
    if vault_state == 0 || total_value_locked == 0 {
        Some(BitsaveErrors::DivisionByZero)
    } else if vault_state > TOTAL_SUPPLY {
        Some(BitsaveErrors::ArithmeticOverflow)
    } else if crp_of(vault_state) * total_value_locked == 0 {
        Some(BitsaveErrors::DivisionByZero)
    } else if crp_of(vault_state) * total_value_locked >= u256_limit() {
        Some(BitsaveErrors::ArithmeticOverflow)
    } else {
        None
    }
}

/// The interest on `amount` kept until `end_time`, or the reason why the
/// formula has no value. Every division rounds down.
pub open spec fn interest_of(
    amount: nat,
    end_time: nat,
    vault_state: nat,
    total_value_locked: nat,
    now: nat,
) -> Result<nat, BitsaveErrors> {
    match pool_fault(vault_state, total_value_locked) {
        Some(e) => Err(e),
        None => if amount * rate_of(vault_state, total_value_locked) * years_to_maturity(
            end_time,
            now,
        ) >= u256_limit() {
            Err(BitsaveErrors::ArithmeticOverflow)
        } else {
            Ok(
                amount * rate_of(vault_state, total_value_locked) * years_to_maturity(end_time, now)
                    / (HUNDRED as nat * DIVISOR as nat),
            )
        },
    }
}

/// A saving with no whole year left to its maturity, and so every saving
/// whose maturity is not later than `now`, earns no interest, and the formula
/// does not overflow on it: where the pool figures give a rate, the interest
/// is zero whatever the amount.
pub proof fn law_no_interest_at_maturity(
    amount: nat,
    end_time: nat,
    vault_state: nat,
    total_value_locked: nat,
    now: nat,
)
    requires
        years_to_maturity(end_time, now) == 0,
    ensures
        pool_fault(vault_state, total_value_locked) is None ==> interest_of(
            amount,
            end_time,
            vault_state,
            total_value_locked,
            now,
        ) == Ok::<nat, BitsaveErrors>(0),
        pool_fault(vault_state, total_value_locked) is Some ==> interest_of(
            amount,
            end_time,
            vault_state,
            total_value_locked,
            now,
        ) == Err::<nat, BitsaveErrors>(pool_fault(vault_state, total_value_locked)->0),
{
    let r = rate_of(vault_state, total_value_locked);
    assert(amount * r * 0 == 0) by (nonlinear_arith);
}

/// What is left of `amount` after a cut of `penalty_perc` percent, the cut
/// rounded down.
pub open spec fn balance_after_penalty(amount: nat, penalty_perc: nat) -> nat {
    (amount - amount * penalty_perc / 100) as nat
}

/// Whether `r` is the amount, or the failure, that `expected` names.
pub open spec fn amount_matches(r: Result<U256, BitsaveErrors>, expected: Result<nat, BitsaveErrors>) -> bool {
    match expected {
        Ok(n) => r is Ok && r->Ok_0@ == n,
        Err(e) => r is Err && r->Err_0 == e,
    }
}

/// The interest on `amount` kept until `end_time`, for the pool figures
/// `vault_state` and `total_value_locked` at the time `now`.
///
/// Fails with `DivisionByZero` where the vault state, the total value locked
/// or the ratio figure is zero, and with `ArithmeticOverflow` where the vault
/// state exceeds the total supply or a product does not fit in 256 bits.
pub fn calculate_new_interest(
    amount: U256,
    end_time: U256,
    vault_state: U256,
    total_value_locked: U256,
    now: u64,
) -> (r: Result<U256, BitsaveErrors>)
    ensures
        amount_matches(r, interest_of(amount@, end_time@, vault_state@, total_value_locked@, now as nat)),
{
    let total_supply = U256::from_u64(TOTAL_SUPPLY);
    let hundred = U256::from_u64(HUNDRED);
    if vault_state.is_zero() || total_value_locked.is_zero() {
        return Err(BitsaveErrors::DivisionByZero);
    }
    let unlocked = match checked_sub(total_supply, vault_state) {
        Some(d) => d,
        None => {
            return Err(BitsaveErrors::ArithmeticOverflow);
        },
    };
    let ratio = unlocked.over(vault_state);
    proof {
        let u = unlocked@ as int;
        let v = vault_state@ as int;
        assert(0 <= u / v <= u) by (nonlinear_arith)
            requires
                0 <= u,
                0 < v,
        ;
        assert(ratio@ * 100 <= 1_500_000_000);
    }
    let crp = ratio.times(hundred);
    let denominator = match checked_mul(crp, total_value_locked) {
        Some(d) => d,
        None => {
            return Err(BitsaveErrors::ArithmeticOverflow);
        },
    };
    if denominator.is_zero() {
        return Err(BitsaveErrors::DivisionByZero);
    }
    let rate = U256::from_u64(MAX_SUPPLY).over(denominator);
    let years = match checked_sub(end_time, U256::from_u64(now)) {
        Some(d) => d.over(U256::from_u64(YEARS_IN_SECS)),
        None => U256::zero(),
    };
    proof {
        let a = amount@ as int;
        let b = rate@ as int;
        let c = years@ as int;
        assert(a * b * c == a * (b * c)) by (nonlinear_arith);
        assert(a >= 1 ==> a * (b * c) >= b * c) by (nonlinear_arith)
            requires
                0 <= a,
                0 <= b,
                0 <= c,
        ;
        assert(a == 0 ==> a * (b * c) == 0) by (nonlinear_arith);
    }
    let per_unit = match checked_mul(rate, years) {
        Some(p) => p,
        None => {
            if amount.is_zero() {
                return Ok(U256::zero());
            }
            return Err(BitsaveErrors::ArithmeticOverflow);
        },
    };
    let product = match checked_mul(amount, per_unit) {
        Some(p) => p,
        None => {
            return Err(BitsaveErrors::ArithmeticOverflow);
        },
    };
    let scale = U256::from_u64(HUNDRED * DIVISOR);
    Ok(product.over(scale))
}

/// Where `a` is `100 * q + m`, a cut of `p` percent of `a`, rounded down, is
/// `q * p` and the rounded-down cut of `m`.
pub proof fn lemma_percent_by_parts(a: nat, p: nat, q: nat, m: nat)
    requires
        a == 100 * q + m,
    ensures
        a * p / 100 == q * p + m * p / 100,
{
    assert(a * p == 100 * (q * p) + m * p) by (nonlinear_arith)
        requires
            a == 100 * q + m,
    ;
    vstd::arithmetic::div_mod::lemma_hoist_over_denominator((m * p) as int, (q * p) as int, 100);
}

/// What is left of `amount` after a cut of `penalty_perc` percent. The cut is
/// exact for every amount: no product larger than the amount is formed.
pub fn calculate_balance_from_penalty(amount: U256, penalty_perc: u8) -> (r: U256)
    requires
        penalty_perc <= 100,
    ensures
        r@ == balance_after_penalty(amount@, penalty_perc as nat),
{
    let hundred = U256::from_u64(HUNDRED);
    let perc = U256::from_u64(penalty_perc as u64);
    let hundreds = amount.over(hundred);
    proof {
        let a = amount@ as int;
        assert(0 <= (a / 100) * 100 <= a && a - (a / 100) * 100 < 100) by (nonlinear_arith)
            requires
                0 <= a,
        ;
    }
    let rest = amount.minus(hundreds.times(hundred));
    proof {
        let q = hundreds@ as int;
        let m = rest@ as int;
        let p = perc@ as int;
        assert(0 <= q * p <= q * 100 && 0 <= m * p <= 10000) by (nonlinear_arith)
            requires
                0 <= q,
                0 <= m < 100,
                0 <= p <= 100,
        ;
        assert(0 <= (m * p) / 100 <= m) by (nonlinear_arith)
            requires
                0 <= m,
                0 <= p <= 100,
        ;
        lemma_percent_by_parts(amount@, perc@, hundreds@, rest@);
    }
    let cut = hundreds.times(perc).plus(rest.times(perc).over(hundred));
    amount.minus(cut)
}

} // verus!
