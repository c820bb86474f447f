use bitsave::accrual::{calculate_balance_from_penalty, calculate_new_interest};
use bitsave::constants::{BS_SAVING_FEE, MIN_BS_JOIN_FEE, YEARS_IN_SECS};
use bitsave::{Address, Bitsave, BitsaveErrors, SavingData, Transfer, UserData, U256};

const NOW: u64 = 1_700_000_000;

fn who(n: u128) -> Address {
    Address { hi: 0, lo: n }
}

fn amt(n: u64) -> U256 {
    U256::from_u64(n)
}

fn max_amount() -> U256 {
    U256 { l0: u64::MAX, l1: u64::MAX, l2: u64::MAX, l3: u64::MAX }
}

/// A ledger that `who(1)` initialised, with pool figures that give the rate 71428.
fn pool() -> Bitsave {
    let mut ledger = Bitsave::new();
    ledger.init(who(1));
    assert_eq!(ledger.update_vault(who(1), amt(1_000_000), amt(1)), Ok(()));
    ledger
}

/// The pool with `who(7)` as its first user.
fn pool_with_user() -> Bitsave {
    let mut ledger = pool();
    assert_eq!(ledger.join_bitsave(who(7), amt(MIN_BS_JOIN_FEE), "ada".to_string()), Ok(who(7)));
    ledger
}

#[test]
fn amounts_convert() {
    assert_eq!(amt(5).to_u64(), Some(5));
    assert_eq!(U256::zero().to_u64(), Some(0));
    assert_eq!(max_amount().to_u64(), None);
    assert!(U256::zero().is_zero());
    assert!(!amt(1).is_zero());
    assert!(!U256 { l0: 0, l1: 0, l2: 0, l3: 1 }.is_zero());
}

#[test]
fn amounts_compare() {
    assert!(amt(1).lt(&amt(2)));
    assert!(!amt(2).lt(&amt(2)));
    assert!(!amt(3).lt(&amt(2)));
    let high = U256 { l0: 0, l1: 0, l2: 0, l3: 1 };
    let low = U256 { l0: u64::MAX, l1: u64::MAX, l2: u64::MAX, l3: 0 };
    assert!(low.lt(&high));
    assert!(!high.lt(&low));
    assert!(U256 { l0: 9, l1: 1, l2: 0, l3: 0 }.lt(&U256 { l0: 0, l1: 2, l2: 0, l3: 0 }));
}

#[test]
fn amounts_add_subtract_multiply_divide() {
    assert_eq!(amt(40).plus(amt(2)), amt(42));
    assert_eq!(amt(u64::MAX).plus(amt(1)), U256 { l0: 0, l1: 1, l2: 0, l3: 0 });
    assert_eq!(amt(44).minus(amt(2)), amt(42));
    assert_eq!(U256 { l0: 0, l1: 1, l2: 0, l3: 0 }.minus(amt(1)), amt(u64::MAX));
    assert_eq!(amt(6).times(amt(7)), amt(42));
    assert_eq!(amt(1 << 63).times(amt(4)), U256 { l0: 0, l1: 2, l2: 0, l3: 0 });
    assert_eq!(amt(85).over(amt(2)), amt(42));
    assert_eq!(U256 { l0: 0, l1: 2, l2: 0, l3: 0 }.over(amt(4)), amt(1 << 63));
}

#[test]
fn interest_follows_the_formula() {
    // crp = (15_000_000 - 1_000_000) / 1_000_000 * 100 = 1400; rate = 100_000_000 / 1400 = 71428
    let one_year = amt(NOW + YEARS_IN_SECS);
    let r = calculate_new_interest(amt(1_000_000_000), one_year, amt(1_000_000), amt(1), NOW);
    assert_eq!(r, Ok(amt(714)));
    let two_years = amt(NOW + 2 * YEARS_IN_SECS);
    let r = calculate_new_interest(amt(1_000_000_000), two_years, amt(1_000_000), amt(1), NOW);
    assert_eq!(r, Ok(amt(1428)));
    let r = calculate_new_interest(amt(100), one_year, amt(1_000_000), amt(1), NOW);
    assert_eq!(r, Ok(amt(0)));
    // crp = 1400, total value locked 7: rate = 100_000_000 / 9800 = 10204
    let r = calculate_new_interest(amt(1_000_000_000), one_year, amt(1_000_000), amt(7), NOW);
    assert_eq!(r, Ok(amt(102)));
}

#[test]
fn interest_rounds_the_years_down() {
    let almost = amt(NOW + YEARS_IN_SECS - 1);
    let r = calculate_new_interest(amt(1_000_000_000), almost, amt(1_000_000), amt(1), NOW);
    assert_eq!(r, Ok(amt(0)));
}

#[test]
fn interest_is_zero_at_or_after_maturity() {
    let r = calculate_new_interest(amt(1_000_000_000), amt(NOW), amt(1_000_000), amt(1), NOW);
    assert_eq!(r, Ok(amt(0)));
    let r = calculate_new_interest(amt(1_000_000_000), amt(5), amt(1_000_000), amt(1), NOW);
    assert_eq!(r, Ok(amt(0)));
    let r = calculate_new_interest(max_amount(), amt(5), amt(1_000_000), amt(1), NOW);
    assert_eq!(r, Ok(amt(0)));
}

#[test]
fn interest_refuses_a_pool_without_a_rate() {
    let later = amt(NOW + YEARS_IN_SECS);
    let r = calculate_new_interest(amt(100), later, amt(0), amt(1), NOW);
    assert_eq!(r, Err(BitsaveErrors::DivisionByZero));
    let r = calculate_new_interest(amt(100), later, amt(1_000_000), amt(0), NOW);
    assert_eq!(r, Err(BitsaveErrors::DivisionByZero));
    // a vault state above half the supply gives the ratio figure zero
    let r = calculate_new_interest(amt(100), later, amt(8_000_000), amt(1), NOW);
    assert_eq!(r, Err(BitsaveErrors::DivisionByZero));
    let r = calculate_new_interest(amt(100), later, amt(15_000_001), amt(1), NOW);
    assert_eq!(r, Err(BitsaveErrors::ArithmeticOverflow));
    // a total value locked of zero divides by zero whatever the vault state is
    let r = calculate_new_interest(amt(100), later, amt(15_000_001), amt(0), NOW);
    assert_eq!(r, Err(BitsaveErrors::DivisionByZero));
    let r = calculate_new_interest(amt(100), later, amt(0), amt(0), NOW);
    assert_eq!(r, Err(BitsaveErrors::DivisionByZero));
    let r = calculate_new_interest(amt(100), later, amt(1_000_000), max_amount(), NOW);
    assert_eq!(r, Err(BitsaveErrors::ArithmeticOverflow));
}

#[test]
fn interest_refuses_a_product_that_does_not_fit() {
    let later = amt(NOW + YEARS_IN_SECS);
    let r = calculate_new_interest(max_amount(), later, amt(1_000_000), amt(1), NOW);
    assert_eq!(r, Err(BitsaveErrors::ArithmeticOverflow));
    let r = calculate_new_interest(amt(1 << 20), max_amount(), amt(1_000_000), amt(1), NOW);
    assert_eq!(r, Err(BitsaveErrors::ArithmeticOverflow));
    let r = calculate_new_interest(amt(1), max_amount(), amt(1_000_000), amt(1), NOW);
    let expected = U256 {
        l0: 11132489884857551995,
        l1: 10419206904879213636,
        l2: 12356890584635113677,
        l3: 417812,
    };
    assert_eq!(r, Ok(expected));
    let r = calculate_new_interest(amt(0), max_amount(), amt(1_000_000), amt(1), NOW);
    assert_eq!(r, Ok(amt(0)));
}

#[test]
fn penalty_cuts_the_balance() {
    assert_eq!(calculate_balance_from_penalty(amt(100), 10), amt(90));
    assert_eq!(calculate_balance_from_penalty(amt(199), 33), amt(134));
    assert_eq!(calculate_balance_from_penalty(amt(99), 1), amt(99));
    assert_eq!(calculate_balance_from_penalty(amt(100), 0), amt(100));
    assert_eq!(calculate_balance_from_penalty(amt(100), 100), amt(0));
    assert_eq!(calculate_balance_from_penalty(amt(0), 50), amt(0));
}

#[test]
fn penalty_is_exact_on_the_largest_amount() {
    assert_eq!(calculate_balance_from_penalty(max_amount(), 100), amt(0));
    assert_eq!(calculate_balance_from_penalty(max_amount(), 0), max_amount());
    let half = U256 { l0: 0, l1: 0, l2: 0, l3: 1 << 63 };
    assert_eq!(calculate_balance_from_penalty(max_amount(), 50), half);
}

#[test]
fn init_is_done_once() {
    let mut ledger = Bitsave::new();
    assert!(!ledger.initialized());
    ledger.init(who(1));
    assert!(ledger.initialized());
    assert_eq!(ledger.master_address(), who(1));
    assert_eq!(ledger.collector_address(), who(1));
    assert_eq!(ledger.general_fund(), amt(0));
    ledger.init(who(2));
    assert_eq!(ledger.master_address(), who(1));
    assert_eq!(ledger.collector_address(), who(1));
}

#[test]
fn change_data_is_for_the_master() {
    let mut ledger = pool();
    let r = ledger.change_data(who(2), who(3), who(4), who(5));
    assert_eq!(r, Err(BitsaveErrors::Unauthorized));
    assert_eq!(ledger.router_address(), Address::zero());
    assert_eq!(ledger.stablecoin_address(), Address::zero());
    assert_eq!(ledger.collector_address(), who(1));
    assert_eq!(ledger.change_data(who(1), who(3), who(4), who(5)), Ok(()));
    assert_eq!(ledger.router_address(), who(3));
    assert_eq!(ledger.stablecoin_address(), who(4));
    assert_eq!(ledger.collector_address(), who(5));
    assert_eq!(ledger.master_address(), who(1));
}

#[test]
fn update_vault_by_a_stranger_is_refused() {
    let mut ledger = pool();
    let r = ledger.update_vault(who(2), amt(5), amt(6));
    assert_eq!(r, Err(BitsaveErrors::Unauthorized));
    assert_eq!(ledger.vault_state(), amt(1_000_000));
    assert_eq!(ledger.total_value_locked(), amt(1));
}

#[test]
fn update_vault_by_the_master_sets_both() {
    let mut ledger = pool();
    assert_eq!(ledger.update_vault(who(1), amt(5), amt(6)), Ok(()));
    assert_eq!(ledger.vault_state(), amt(5));
    assert_eq!(ledger.total_value_locked(), amt(6));
}

#[test]
fn join_numbers_the_users() {
    let mut ledger = pool();
    assert_eq!(ledger.get_bitsave_user_count(), amt(0));
    assert_eq!(ledger.join_bitsave(who(7), amt(2), "ada".to_string()), Ok(who(7)));
    assert_eq!(ledger.get_bitsave_user_count(), amt(1));
    assert_eq!(ledger.get_user_id(who(7)), amt(1));
    assert_eq!(ledger.join_bitsave(who(8), amt(50), "bob".to_string()), Ok(who(8)));
    assert_eq!(ledger.get_bitsave_user_count(), amt(2));
    assert_eq!(ledger.get_user_id(who(8)), amt(2));
    assert_eq!(ledger.get_user_id(who(7)), amt(1));
    let bob = ledger.get_user(who(8)).unwrap();
    assert_eq!(bob.user_name(), "bob");
    assert!(bob.user_exists());
    assert_eq!(bob.user_address(), who(8));
    assert_eq!(bob.get_user_id(), amt(2));
    assert_eq!(bob.total_point(), amt(0));
    assert!(ledger.get_user(who(9)).is_none());
    assert_eq!(ledger.get_user_points(who(8)), amt(0));
}

#[test]
fn join_twice_is_refused() {
    let mut ledger = pool_with_user();
    let r = ledger.join_bitsave(who(7), amt(2), "ada".to_string());
    assert_eq!(r, Err(BitsaveErrors::UserAlreadyExists));
    let r = ledger.join_bitsave(who(7), amt(0), "eve".to_string());
    assert_eq!(r, Err(BitsaveErrors::UserAlreadyExists));
    let r = ledger.join_bitsave(who(7), max_amount(), "eve".to_string());
    assert_eq!(r, Err(BitsaveErrors::UserAlreadyExists));
    assert_eq!(ledger.get_bitsave_user_count(), amt(1));
    assert_eq!(ledger.get_user(who(7)).unwrap().user_name(), "ada");
}

#[test]
fn join_below_the_fee_is_refused() {
    let mut ledger = pool();
    let r = ledger.join_bitsave(who(7), amt(1), "ada".to_string());
    assert_eq!(r, Err(BitsaveErrors::InsufficientFee));
    assert_eq!(ledger.get_bitsave_user_count(), amt(0));
    assert!(ledger.get_user(who(7)).is_none());
    assert_eq!(ledger.get_user_id(who(7)), amt(0));
}

#[test]
fn points_of_a_stranger_are_zero() {
    let ledger = pool_with_user();
    assert_eq!(ledger.get_user_points(who(99)), amt(0));
    assert_eq!(ledger.get_saving(who(99), &"car".to_string()), SavingData::absent());
    assert_eq!(ledger.get_saving(who(7), &"car".to_string()), SavingData::absent());
}

#[test]
fn join_save_and_withdraw_early() {
    let mut ledger = Bitsave::new();
    ledger.init(who(1));
    assert_eq!(ledger.update_vault(who(1), amt(1_000_000), amt(1)), Ok(()));
    assert_eq!(ledger.join_bitsave(who(7), amt(MIN_BS_JOIN_FEE), "ada".to_string()), Ok(who(7)));
    assert_eq!(ledger.get_user_id(who(7)), amt(1));
    let r = ledger.create_saving(
        who(7),
        amt(BS_SAVING_FEE + 100),
        NOW,
        "car".to_string(),
        amt(NOW + YEARS_IN_SECS),
        10,
        false,
    );
    assert_eq!(r, Ok(Transfer { to: who(1), amount: amt(10) }));
    let saving = ledger.get_saving(who(7), &"car".to_string());
    assert!(saving.is_valid);
    assert_eq!(saving.amount, amt(100));
    assert_eq!(saving.maturity_time, amt(NOW + YEARS_IN_SECS));
    assert_eq!(saving.start_time, amt(NOW));
    assert_eq!(saving.token_id, Address::zero());
    assert!(!saving.is_safe_mode);
    assert_eq!(saving.penalty_perc, 10);
    let r = ledger.withdraw_savings(who(7), NOW, false, "car".to_string());
    assert_eq!(r, Ok(Transfer { to: who(7), amount: amt(90) }));
}

#[test]
fn create_saving_credits_the_interest() {
    let mut ledger = pool_with_user();
    let r = ledger.create_saving(
        who(7),
        amt(1_000_000_010),
        NOW,
        "car".to_string(),
        amt(NOW + YEARS_IN_SECS),
        10,
        false,
    );
    assert!(r.is_ok());
    let saving = ledger.get_saving(who(7), &"car".to_string());
    assert_eq!(saving.amount, amt(1_000_000_000));
    assert_eq!(saving.interest_accumulated, amt(714));
    assert_eq!(ledger.get_user_points(who(7)), amt(714));
}

#[test]
fn create_saving_checks_in_order() {
    let mut ledger = pool_with_user();
    let later = amt(NOW + YEARS_IN_SECS);
    let r = ledger.create_saving(who(9), amt(5), NOW, "car".to_string(), later, 10, true);
    assert_eq!(r, Err(BitsaveErrors::InvalidUser));
    let r = ledger.create_saving(who(7), amt(9), NOW, "car".to_string(), later, 10, true);
    assert_eq!(r, Err(BitsaveErrors::InsufficientFee));
    let r = ledger.create_saving(who(7), amt(10), NOW, "car".to_string(), later, 10, true);
    assert_eq!(r, Err(BitsaveErrors::NotSupported));
    let r = ledger.create_saving(who(7), amt(10), NOW, "car".to_string(), later, 101, false);
    assert_eq!(r, Err(BitsaveErrors::InvalidParameter));
    assert_eq!(ledger.get_saving(who(7), &"car".to_string()), SavingData::absent());
    let r = ledger.create_saving(who(7), amt(10), NOW, "car".to_string(), later, 100, false);
    assert!(r.is_ok());
    assert_eq!(ledger.get_saving(who(7), &"car".to_string()).amount, amt(0));
    assert!(ledger.get_saving(who(7), &"car".to_string()).is_valid);
}

#[test]
fn create_saving_needs_a_pool_with_a_rate() {
    let mut ledger = Bitsave::new();
    ledger.init(who(1));
    assert_eq!(ledger.join_bitsave(who(7), amt(2), "ada".to_string()), Ok(who(7)));
    let later = amt(NOW + YEARS_IN_SECS);
    let r = ledger.create_saving(who(7), amt(110), NOW, "car".to_string(), later, 10, false);
    assert_eq!(r, Err(BitsaveErrors::DivisionByZero));
    assert!(!ledger.get_saving(who(7), &"car".to_string()).is_valid);
    assert_eq!(ledger.update_vault(who(1), amt(1_000_000), max_amount()), Ok(()));
    let r = ledger.create_saving(who(7), amt(110), NOW, "car".to_string(), later, 10, false);
    assert_eq!(r, Err(BitsaveErrors::ArithmeticOverflow));
    assert!(!ledger.get_saving(who(7), &"car".to_string()).is_valid);
}

#[test]
fn create_saving_twice_is_refused() {
    let mut ledger = pool_with_user();
    let later = amt(NOW + YEARS_IN_SECS);
    let r = ledger.create_saving(who(7), amt(110), NOW, "car".to_string(), later, 10, false);
    assert!(r.is_ok());
    let r = ledger.create_saving(who(7), amt(500), NOW + 5, "car".to_string(), later, 20, false);
    assert_eq!(r, Err(BitsaveErrors::SavingAlreadyExists));
    let saving = ledger.get_saving(who(7), &"car".to_string());
    assert_eq!(saving.amount, amt(100));
    assert_eq!(saving.penalty_perc, 10);
    let r = ledger.create_saving(who(7), amt(500), NOW + 5, "house".to_string(), later, 20, false);
    assert!(r.is_ok());
    assert_eq!(ledger.get_saving(who(7), &"house".to_string()).amount, amt(490));
    assert_eq!(ledger.get_saving(who(7), &"car".to_string()).amount, amt(100));
}

#[test]
fn savings_are_per_user() {
    let mut ledger = pool_with_user();
    assert_eq!(ledger.join_bitsave(who(8), amt(2), "bob".to_string()), Ok(who(8)));
    let later = amt(NOW + YEARS_IN_SECS);
    let r = ledger.create_saving(who(7), amt(110), NOW, "car".to_string(), later, 10, false);
    assert!(r.is_ok());
    let r = ledger.create_saving(who(8), amt(210), NOW, "car".to_string(), later, 10, false);
    assert!(r.is_ok());
    assert_eq!(ledger.get_saving(who(7), &"car".to_string()).amount, amt(100));
    assert_eq!(ledger.get_saving(who(8), &"car".to_string()).amount, amt(200));
}

#[test]
fn increment_adds_principal_and_interest() {
    let mut ledger = pool_with_user();
    let later = amt(NOW + 2 * YEARS_IN_SECS);
    let r = ledger.create_saving(who(7), amt(1_000_000_010), NOW, "car".to_string(), later, 10, false);
    assert!(r.is_ok());
    assert_eq!(ledger.get_user_points(who(7)), amt(1428));
    // a year on, one whole year is left
    let r = ledger.increment_saving(who(7), amt(1_000_000_000), NOW + YEARS_IN_SECS, "car".to_string());
    assert_eq!(r, Ok(()));
    let saving = ledger.get_saving(who(7), &"car".to_string());
    assert_eq!(saving.amount, amt(2_000_000_000));
    assert_eq!(saving.interest_accumulated, amt(2142));
    assert_eq!(saving.start_time, amt(NOW));
    assert_eq!(saving.maturity_time, later);
    assert_eq!(saving.penalty_perc, 10);
    assert_eq!(ledger.get_user_points(who(7)), amt(2142));
}

#[test]
fn increment_needs_a_user_and_an_open_saving() {
    let mut ledger = pool_with_user();
    let r = ledger.increment_saving(who(9), amt(5), NOW, "car".to_string());
    assert_eq!(r, Err(BitsaveErrors::InvalidUser));
    let r = ledger.increment_saving(who(7), amt(5), NOW, "car".to_string());
    assert_eq!(r, Err(BitsaveErrors::SavingNotFound));
}

#[test]
fn increment_refuses_a_sum_that_does_not_fit() {
    let mut ledger = pool_with_user();
    let r = ledger.create_saving(who(7), amt(110), NOW, "car".to_string(), amt(NOW), 10, false);
    assert!(r.is_ok());
    let r = ledger.increment_saving(who(7), max_amount(), NOW, "car".to_string());
    assert_eq!(r, Err(BitsaveErrors::ArithmeticOverflow));
    assert_eq!(ledger.get_saving(who(7), &"car".to_string()).amount, amt(100));
}

#[test]
fn increment_after_withdraw_is_refused() {
    let mut ledger = pool_with_user();
    let later = amt(NOW + YEARS_IN_SECS);
    let r = ledger.create_saving(who(7), amt(110), NOW, "car".to_string(), later, 10, false);
    assert!(r.is_ok());
    let paid = ledger.withdraw_savings(who(7), NOW, false, "car".to_string());
    assert_eq!(paid, Ok(Transfer { to: who(7), amount: amt(90) }));
    let r = ledger.increment_saving(who(7), amt(5), NOW, "car".to_string());
    assert_eq!(r, Err(BitsaveErrors::SavingNotFound));
}

#[test]
fn withdraw_at_maturity_pays_the_principal() {
    let mut ledger = pool_with_user();
    let later = amt(NOW + YEARS_IN_SECS);
    let r = ledger.create_saving(who(7), amt(1_000_000_010), NOW, "car".to_string(), later, 10, false);
    assert!(r.is_ok());
    assert_eq!(ledger.get_saving(who(7), &"car".to_string()).interest_accumulated, amt(714));
    let r = ledger.withdraw_savings(who(7), NOW + YEARS_IN_SECS, false, "car".to_string());
    assert_eq!(r, Ok(Transfer { to: who(7), amount: amt(1_000_000_000) }));
}

#[test]
fn withdraw_after_maturity_pays_the_principal() {
    let mut ledger = pool_with_user();
    let later = amt(NOW + YEARS_IN_SECS);
    let r = ledger.create_saving(who(7), amt(110), NOW, "car".to_string(), later, 10, false);
    assert!(r.is_ok());
    let r = ledger.withdraw_savings(who(7), NOW + YEARS_IN_SECS + 1, false, "car".to_string());
    assert_eq!(r, Ok(Transfer { to: who(7), amount: amt(100) }));
}

#[test]
fn withdraw_just_before_maturity_pays_less() {
    let mut ledger = pool_with_user();
    let later = amt(NOW + YEARS_IN_SECS);
    let r = ledger.create_saving(who(7), amt(209), NOW, "car".to_string(), later, 33, false);
    assert!(r.is_ok());
    let r = ledger.withdraw_savings(who(7), NOW + YEARS_IN_SECS - 1, false, "car".to_string());
    assert_eq!(r, Ok(Transfer { to: who(7), amount: amt(134) }));
}

#[test]
fn withdraw_clears_the_saving_and_keeps_the_points() {
    let mut ledger = pool_with_user();
    let later = amt(NOW + YEARS_IN_SECS);
    let r = ledger.create_saving(who(7), amt(1_000_000_010), NOW, "car".to_string(), later, 10, false);
    assert!(r.is_ok());
    let r = ledger.withdraw_savings(who(7), NOW + 5, false, "car".to_string());
    assert_eq!(r, Ok(Transfer { to: who(7), amount: amt(900_000_000) }));
    let saving = ledger.get_saving(who(7), &"car".to_string());
    assert!(!saving.is_valid);
    assert_eq!(saving.amount, amt(0));
    assert_eq!(saving.interest_accumulated, amt(0));
    assert_eq!(saving.penalty_perc, 0);
    assert_eq!(saving.maturity_time, later);
    assert_eq!(saving.start_time, amt(NOW));
    assert_eq!(ledger.get_user_points(who(7)), amt(714));
    let r = ledger.withdraw_savings(who(7), NOW + 5, false, "car".to_string());
    assert_eq!(r, Err(BitsaveErrors::SavingNotFound));
}

#[test]
fn withdraw_checks_in_order() {
    let mut ledger = pool_with_user();
    let later = amt(NOW + YEARS_IN_SECS);
    let r = ledger.create_saving(who(7), amt(110), NOW, "car".to_string(), later, 10, false);
    assert!(r.is_ok());
    let r = ledger.withdraw_savings(who(9), NOW, true, "car".to_string());
    assert_eq!(r, Err(BitsaveErrors::Reentrant));
    let r = ledger.withdraw_savings(who(7), NOW, true, "car".to_string());
    assert_eq!(r, Err(BitsaveErrors::Reentrant));
    assert!(ledger.get_saving(who(7), &"car".to_string()).is_valid);
    let r = ledger.withdraw_savings(who(9), NOW, false, "car".to_string());
    assert_eq!(r, Err(BitsaveErrors::InvalidUser));
    let r = ledger.withdraw_savings(who(7), NOW, false, "boat".to_string());
    assert_eq!(r, Err(BitsaveErrors::SavingNotFound));
    assert_eq!(ledger.get_saving(who(7), &"car".to_string()).amount, amt(100));
}

#[test]
fn a_withdrawn_name_stays_closed() {
    let mut ledger = pool_with_user();
    let later = amt(NOW + YEARS_IN_SECS);
    let r = ledger.create_saving(who(7), amt(110), NOW, "car".to_string(), later, 10, false);
    assert!(r.is_ok());
    let paid = ledger.withdraw_savings(who(7), NOW, false, "car".to_string());
    assert_eq!(paid, Ok(Transfer { to: who(7), amount: amt(90) }));
    let r = ledger.create_saving(who(7), amt(210), NOW + 9, "car".to_string(), later, 20, false);
    assert_eq!(r, Err(BitsaveErrors::SavingAlreadyExists));
    let saving = ledger.get_saving(who(7), &"car".to_string());
    assert!(!saving.is_valid);
    assert_eq!(saving.amount, amt(0));
    assert_eq!(saving.interest_accumulated, amt(0));
    assert_eq!(saving.penalty_perc, 0);
    assert_eq!(saving.start_time, amt(NOW));
    assert_eq!(saving.maturity_time, later);
    assert_eq!(ledger.get_user_points(who(7)), amt(0));
    let r = ledger.increment_saving(who(7), amt(5), NOW, "car".to_string());
    assert_eq!(r, Err(BitsaveErrors::SavingNotFound));
    let r = ledger.withdraw_savings(who(7), NOW, false, "car".to_string());
    assert_eq!(r, Err(BitsaveErrors::SavingNotFound));
    // another name of the same user is free, and opening it leaves the closed one closed
    let r = ledger.create_saving(who(7), amt(210), NOW + 9, "boat".to_string(), later, 20, false);
    assert!(r.is_ok());
    assert_eq!(ledger.get_saving(who(7), &"boat".to_string()).amount, amt(200));
    assert!(!ledger.get_saving(who(7), &"car".to_string()).is_valid);
    let r = ledger.create_saving(who(7), amt(210), NOW + 9, "car".to_string(), later, 20, false);
    assert_eq!(r, Err(BitsaveErrors::SavingAlreadyExists));
}

#[test]
fn a_withdrawn_name_stays_closed_in_the_record() {
    let mut user = UserData::new();
    user.create_user(who(3), amt(1), "cy".to_string());
    let later = amt(NOW + YEARS_IN_SECS);
    let r = user.create_saving_data(
        "car".to_string(),
        amt(1_000_000_000),
        who(40),
        later,
        25,
        false,
        amt(1_000_000),
        amt(1),
        NOW,
    );
    assert_eq!(r, Ok(()));
    assert_eq!(user.total_point(), amt(714));
    assert_eq!(user.withdraw_saving_data("car".to_string(), NOW), Ok(amt(750_000_000)));
    let r = user.create_saving_data(
        "car".to_string(),
        amt(1_000_000_000),
        who(40),
        later,
        25,
        false,
        amt(1_000_000),
        amt(1),
        NOW,
    );
    assert_eq!(r, Err(BitsaveErrors::SavingAlreadyExists));
    assert!(!user.get_saving(&"car".to_string()).is_valid);
    assert_eq!(user.get_saving(&"car".to_string()).amount, amt(0));
    assert_eq!(user.total_point(), amt(714));
}

#[test]
fn a_failed_transfer_takes_the_ledger_back() {
    let mut ledger = pool_with_user();
    let later = amt(NOW + YEARS_IN_SECS);
    let before = ledger.snapshot();
    let r = ledger.create_saving(who(7), amt(110), NOW, "car".to_string(), later, 10, false);
    assert!(r.is_ok());
    assert!(ledger.get_saving(who(7), &"car".to_string()).is_valid);
    assert_eq!(ledger.settle_transfer(before, false), Err(BitsaveErrors::TransferFailed));
    assert!(!ledger.get_saving(who(7), &"car".to_string()).is_valid);
}

#[test]
fn a_delivered_transfer_lets_the_ledger_stand() {
    let mut ledger = pool_with_user();
    let later = amt(NOW + YEARS_IN_SECS);
    let before = ledger.snapshot();
    let r = ledger.create_saving(who(7), amt(110), NOW, "car".to_string(), later, 10, false);
    assert!(r.is_ok());
    assert_eq!(ledger.settle_transfer(before, true), Ok(()));
    assert_eq!(ledger.get_saving(who(7), &"car".to_string()).amount, amt(100));
}

#[test]
fn user_record_is_created() {
    let mut user = UserData::new();
    assert!(!user.user_exists());
    assert!(user.create_user(who(3), amt(4), "cy".to_string()));
    assert!(user.user_exists());
    assert_eq!(user.user_address(), who(3));
    assert_eq!(user.get_user_id(), amt(4));
    assert_eq!(user.user_name(), "cy");
    assert_eq!(user.total_point(), amt(0));
}

#[test]
fn user_record_refuses_another_asset() {
    let mut user = UserData::new();
    user.create_user(who(3), amt(1), "cy".to_string());
    let later = amt(NOW + YEARS_IN_SECS);
    let r = user.create_saving_data(
        "car".to_string(),
        amt(100),
        who(40),
        later,
        10,
        false,
        amt(1_000_000),
        amt(1),
        NOW,
    );
    assert_eq!(r, Ok(()));
    let r = user.increment_saving_data("car".to_string(), amt(5), who(41), amt(1_000_000), amt(1), NOW);
    assert_eq!(r, Err(BitsaveErrors::AssetMismatch));
    assert_eq!(user.get_saving(&"car".to_string()).amount, amt(100));
    let r = user.increment_saving_data("car".to_string(), amt(5), who(40), amt(1_000_000), amt(1), NOW);
    assert_eq!(r, Ok(()));
    assert_eq!(user.get_saving(&"car".to_string()).amount, amt(105));
    assert_eq!(user.get_saving(&"car".to_string()).token_id, who(40));
}

#[test]
fn user_record_withdraws() {
    let mut user = UserData::new();
    user.create_user(who(3), amt(1), "cy".to_string());
    let r = user.withdraw_saving_data("car".to_string(), NOW);
    assert_eq!(r, Err(BitsaveErrors::SavingNotFound));
    let later = amt(NOW + YEARS_IN_SECS);
    let r = user.create_saving_data(
        "car".to_string(),
        amt(1000),
        who(40),
        later,
        25,
        false,
        amt(1_000_000),
        amt(1),
        NOW,
    );
    assert_eq!(r, Ok(()));
    let r = user.create_saving_data(
        "car".to_string(),
        amt(1),
        who(40),
        later,
        25,
        false,
        amt(1_000_000),
        amt(1),
        NOW,
    );
    assert_eq!(r, Err(BitsaveErrors::SavingAlreadyExists));
    assert_eq!(user.withdraw_saving_data("car".to_string(), NOW), Ok(amt(750)));
    let r = user.increment_saving_data("car".to_string(), amt(5), who(40), amt(1_000_000), amt(1), NOW);
    assert_eq!(r, Err(BitsaveErrors::SavingNotFound));
}

#[test]
fn snapshot_is_a_copy() {
    let mut ledger = pool_with_user();
    let later = amt(NOW + YEARS_IN_SECS);
    let r = ledger.create_saving(who(7), amt(110), NOW, "car".to_string(), later, 10, false);
    assert!(r.is_ok());
    let copy = ledger.snapshot();
    let paid = ledger.withdraw_savings(who(7), NOW, false, "car".to_string());
    assert_eq!(paid, Ok(Transfer { to: who(7), amount: amt(90) }));
    assert!(!ledger.get_saving(who(7), &"car".to_string()).is_valid);
    assert_eq!(copy.get_saving(who(7), &"car".to_string()).amount, amt(100));
    assert!(copy.get_saving(who(7), &"car".to_string()).is_valid);
    assert_eq!(copy.get_bitsave_user_count(), amt(1));
    assert_eq!(copy.master_address(), who(1));
    assert_eq!(copy.vault_state(), amt(1_000_000));
    assert_eq!(copy.total_value_locked(), amt(1));
    assert_eq!(copy.get_user(who(7)).unwrap().user_name(), "ada");
    let user = copy.get_user(who(7)).unwrap().snapshot();
    assert_eq!(user.user_address(), who(7));
    assert_eq!(user.get_saving(&"car".to_string()).amount, amt(100));
}
