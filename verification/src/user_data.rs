//! A user's record and the savings it owns.
use vstd::prelude::*;
use crate::accrual::{
    balance_after_penalty, calculate_balance_from_penalty, calculate_new_interest, interest_of,
};
use crate::address::Address;
use crate::assoc::{
    distinct_keys, has_key, lemma_distinct_push, lemma_distinct_update, lemma_to_map_at,
    lemma_to_map_dom, lemma_to_map_push, lemma_to_map_update, to_map,
};
use crate::errors::BitsaveErrors;
use crate::uint::{checked_add, u256_limit, U256};

verus! {

/// One saving as the ledger stores it.
#[derive(Clone, Copy, Debug, PartialEq, Eq, Structural)]
pub struct SavingData {
    pub is_valid: bool,
    pub amount: U256,
    pub maturity_time: U256,
    pub start_time: U256,
    pub token_id: Address,
    pub is_safe_mode: bool,
    pub interest_accumulated: U256,
    pub penalty_perc: u8,
}

/// A saving with its amounts as numbers.
pub struct SavingView {
    pub is_valid: bool,
    pub amount: nat,
    pub maturity_time: nat,
    pub start_time: nat,
    pub token_id: Address,
    pub is_safe_mode: bool,
    pub interest_accumulated: nat,
    pub penalty_perc: nat,
}

impl SavingView {
    /// What a name stands for before a saving was ever opened under it.
    pub open spec fn absent() -> SavingView {
        SavingView {
            is_valid: false,
            amount: 0,
            maturity_time: 0,
            start_time: 0,
            token_id: Address::zero_spec(),
            is_safe_mode: false,
            interest_accumulated: 0,
            penalty_perc: 0,
        }
    }

    /// This saving after its withdrawal: closed, with principal, interest and
    /// penalty at zero, and its times and asset left as they were.
    pub open spec fn cleared(self) -> SavingView {
        SavingView { is_valid: false, amount: 0, interest_accumulated: 0, penalty_perc: 0, ..self }
    }

    /// What a withdrawal at the time `now` pays: the principal once the
    /// saving has matured, the principal after the penalty before.
    pub open spec fn payout(self, now: nat) -> nat {
        if now < self.maturity_time {
            balance_after_penalty(self.amount, self.penalty_perc)
        } else {
            self.amount
        }
    }
}

impl View for SavingData {
    type V = SavingView;

    open spec fn view(&self) -> SavingView {
        SavingView {
            is_valid: self.is_valid,
            amount: self.amount@,
            maturity_time: self.maturity_time@,
            start_time: self.start_time@,
            token_id: self.token_id,
            is_safe_mode: self.is_safe_mode,
            interest_accumulated: self.interest_accumulated@,
            penalty_perc: self.penalty_perc as nat,
        }
    }
}

impl SavingData {
    /// The record of a name under which no saving was ever opened.
    pub fn absent() -> (r: SavingData)
        ensures
            r@ == SavingView::absent(),
    {
        SavingData {
            is_valid: false,
            amount: U256::zero(),
            maturity_time: U256::zero(),
            start_time: U256::zero(),
            token_id: Address::zero(),
            is_safe_mode: false,
            interest_accumulated: U256::zero(),
            penalty_perc: 0,
        }
    }
}

/// A saving under its name.
#[derive(Debug)]
pub struct SavingEntry {
    pub name: String,
    pub data: SavingData,
}

/// A user's record: who they are, their points, and their savings by name.
/// The fields are the record's own: it is read through its view and its
/// getters, and changed through its operations, which keep it well formed.
#[derive(Debug)]
pub struct UserData {
    user_exists: bool,
    user_address: Address,
    user_id: U256,
    user_name: String,
    total_point: U256,
    savings: Vec<SavingEntry>,
}

/// A user's record as a value: the savings as a map from names.
pub struct UserView {
    pub user_exists: bool,
    pub user_address: Address,
    pub user_id: nat,
    pub user_name: Seq<char>,
    pub total_point: nat,
    pub savings: Map<Seq<char>, SavingView>,
}

impl UserView {
    /// The record of an identity that never joined.
    pub open spec fn absent() -> UserView {
        UserView {
            user_exists: false,
            user_address: Address::zero_spec(),
            user_id: 0,
            user_name: Seq::empty(),
            total_point: 0,
            savings: Map::empty(),
        }
    }

    /// The saving under `name`; the absent saving where none was ever opened.
    pub open spec fn saving(self, name: Seq<char>) -> SavingView {
        if self.savings.dom().contains(name) {
            self.savings[name]
        } else {
            SavingView::absent()
        }
    }

    /// Whether a saving was ever opened under `name`, be it open still or
    /// withdrawn since.
    pub open spec fn knows(self, name: Seq<char>) -> bool {
        self.savings.dom().contains(name)
    }

    /// Whether the saving under `name` was opened and has been withdrawn.
    pub open spec fn is_closed(self, name: Seq<char>) -> bool {
        self.knows(name) && !self.saving(name).is_valid
    }

    /// The record after opening a saving, or why it cannot be opened. A name
    /// is used once: a saving that is open blocks it, and so does one that
    /// was withdrawn, whose cleared record stays under the name for good.
    pub open spec fn create_saving(
        self,
        name: Seq<char>,
        amount: nat,
        token_id: Address,
        maturity_time: nat,
        penalty_perc: nat,
        use_safe_mode: bool,
        vault_state: nat,
        total_value_locked: nat,
        now: nat,
    ) -> Result<UserView, BitsaveErrors> {
        if self.knows(name) {
            Err(BitsaveErrors::SavingAlreadyExists)
        } else if penalty_perc > 100 {
            Err(BitsaveErrors::InvalidParameter)
        } else {
            match interest_of(amount, maturity_time, vault_state, total_value_locked, now) {
                Err(e) => Err(e),
                Ok(interest) => if self.total_point + interest >= u256_limit() {
                    Err(BitsaveErrors::ArithmeticOverflow)
                } else {
                    Ok(
                        UserView {
                            total_point: self.total_point + interest,
                            savings: self.savings.insert(
                                name,
                                SavingView {
                                    is_valid: true,
                                    amount,
                                    maturity_time,
                                    start_time: now,
                                    token_id,
                                    is_safe_mode: use_safe_mode,
                                    interest_accumulated: interest,
                                    penalty_perc,
                                },
                            ),
                            ..self
                        },
                    )
                },
            }
        }
    }

    /// The record after topping a saving up, or why it cannot be topped up.
    pub open spec fn increment_saving(
        self,
        name: Seq<char>,
        new_amount: nat,
        token_id: Address,
        vault_state: nat,
        total_value_locked: nat,
        now: nat,
    ) -> Result<UserView, BitsaveErrors> {
        let saving = self.saving(name);
        if !saving.is_valid {
            Err(BitsaveErrors::SavingNotFound)
        } else if saving.token_id != token_id {
            Err(BitsaveErrors::AssetMismatch)
        } else {
            match interest_of(new_amount, saving.maturity_time, vault_state, total_value_locked, now) {
                Err(e) => Err(e),
                Ok(interest) => if self.total_point + interest >= u256_limit()
                    || saving.interest_accumulated + interest >= u256_limit() || saving.amount
                    + new_amount >= u256_limit() {
                    Err(BitsaveErrors::ArithmeticOverflow)
                } else {
                    Ok(
                        UserView {
                            total_point: self.total_point + interest,
                            savings: self.savings.insert(
                                name,
                                SavingView {
                                    amount: saving.amount + new_amount,
                                    interest_accumulated: saving.interest_accumulated + interest,
                                    ..saving
                                },
                            ),
                            ..self
                        },
                    )
                },
            }
        }
    }

    /// The record after withdrawing a saving at the time `now`, with what is
    /// paid out, or why it cannot be withdrawn.
    pub open spec fn withdraw_saving(self, name: Seq<char>, now: nat) -> Result<
        (UserView, nat),
        BitsaveErrors,
    > {
        let saving = self.saving(name);
        if !saving.is_valid {
            Err(BitsaveErrors::SavingNotFound)
        } else {
            Ok(
                (
                    UserView { savings: self.savings.insert(name, saving.cleared()), ..self },
                    saving.payout(now),
                ),
            )
        }
    }
}

/// The entries as pairs of a name and a saving.
pub open spec fn saving_pairs(entries: Seq<SavingEntry>) -> Seq<(Seq<char>, SavingView)> {
    Seq::new(entries.len(), |i: int| (entries[i].name@, entries[i].data@))
}

impl View for UserData {
    type V = UserView;

    closed spec fn view(&self) -> UserView {
        UserView {
            user_exists: self.user_exists,
            user_address: self.user_address,
            user_id: self.user_id@,
            user_name: self.user_name@,
            total_point: self.total_point@,
            savings: to_map(saving_pairs(self.savings@)),
        }
    }
}

impl UserData {
    /// No name occurs twice among the savings, and no penalty exceeds one
    /// hundred percent.
    pub closed spec fn wf(&self) -> bool {
        &&& distinct_keys(saving_pairs(self.savings@))
        &&& forall|i: int|
            0 <= i < self.savings@.len() ==> (#[trigger] self.savings@[i]).data.penalty_perc <= 100
    }

    /// In a well-formed record no saving has a penalty above one hundred
    /// percent, whatever name it is asked under.
    pub proof fn lemma_penalty_in_range(&self, name: Seq<char>)
        requires
            self.wf(),
        ensures
            self@.saving(name).penalty_perc <= 100,
    {
        let pairs = saving_pairs(self.savings@);
        lemma_to_map_dom(pairs, name);
        if has_key(pairs, name) {
            let i = choose|i: int| 0 <= i < pairs.len() && (#[trigger] pairs[i]).0 == name;
            lemma_to_map_at(pairs, i);
            assert(self.savings@[i].data.penalty_perc <= 100);
        }
    }

    /// The record of an identity that has not joined.
    pub fn new() -> (r: UserData)
        ensures
            r.wf(),
            r@ == UserView::absent(),
    {
        let r = UserData {
            user_exists: false,
            user_address: Address::zero(),
            user_id: U256::zero(),
            user_name: String::new(),
            total_point: U256::zero(),
            savings: Vec::new(),
        };
        assert(saving_pairs(r.savings@) =~= Seq::empty());
        r
    }

    /// A copy of the record.
    pub fn snapshot(&self) -> (r: UserData)
        requires
            self.wf(),
        ensures
            r.wf(),
            r@ == self@,
    {
        let mut savings: Vec<SavingEntry> = Vec::new();
        let mut i: usize = 0;
        while i < self.savings.len()
            invariant
                i <= self.savings@.len(),
                savings@.len() == i,
                forall|j: int|
                    0 <= j < i ==> (#[trigger] savings@[j]).name@ == self.savings@[j].name@
                        && savings@[j].data == self.savings@[j].data,
            decreases self.savings@.len() - i,
        {
            let name = self.savings[i].name.clone();
            savings.push(SavingEntry { name, data: self.savings[i].data });
            i += 1;
        }
        assert(saving_pairs(savings@) =~= saving_pairs(self.savings@));
        UserData {
            user_exists: self.user_exists,
            user_address: self.user_address,
            user_id: self.user_id,
            user_name: self.user_name.clone(),
            total_point: self.total_point,
            savings,
        }
    }

    /// Makes this the record of `address`: existing, with the given number
    /// and name and no points. The savings stay as they are.
    pub fn create_user(&mut self, address: Address, user_id: U256, user_name: String) -> (r: bool)
        requires
            old(self).wf(),
        ensures
            r,
            final(self).wf(),
            final(self)@ == (UserView {
                user_exists: true,
                user_address: address,
                user_id: user_id@,
                user_name: user_name@,
                total_point: 0,
                savings: old(self)@.savings,
            }),
    {
        self.user_address = address;
        self.user_exists = true;
        self.user_id = user_id;
        self.user_name = user_name;
        self.total_point = U256::zero();
        self.user_exists
    }

    /// The number the user was given on joining.
    pub fn get_user_id(&self) -> (r: U256)
        ensures
            r@ == self@.user_id,
    {
        self.user_id
    }

    /// Whether this is the record of a user that has joined.
    pub fn user_exists(&self) -> (r: bool)
        ensures
            r == self@.user_exists,
    {
        self.user_exists
    }

    /// The identity that the record belongs to.
    pub fn user_address(&self) -> (r: Address)
        ensures
            r == self@.user_address,
    {
        self.user_address
    }

    /// The name the user gave on joining.
    pub fn user_name(&self) -> (r: &String)
        ensures
            r@ == self@.user_name,
    {
        &self.user_name
    }

    /// The user's points.
    pub fn total_point(&self) -> (r: U256)
        ensures
            r@ == self@.total_point,
    {
        self.total_point
    }

    /// Where the saving under `name` stands among the entries.
    fn find_saving(&self, name: &String) -> (r: Option<usize>)
        requires
            self.wf(),
        ensures
            match r {
                Some(i) => i < self.savings@.len() && self.savings@[i as int].name@ == name@
                    && self@.knows(name@) && self@.saving(name@) == self.savings@[i as int].data@,
                None => !has_key(saving_pairs(self.savings@), name@) && !self@.knows(name@)
                    && self@.saving(name@) == SavingView::absent(),
            },
    {
        let ghost pairs = saving_pairs(self.savings@);
        let mut i: usize = 0;
        while i < self.savings.len()
            invariant
                self.wf(),
                i <= self.savings@.len(),
                pairs == saving_pairs(self.savings@),
                forall|j: int| 0 <= j < i ==> (#[trigger] pairs[j]).0 != name@,
            decreases self.savings@.len() - i,
        {
            if self.savings[i].name == *name {
                proof {
                    lemma_to_map_at(pairs, i as int);
                }
                return Some(i);
            }
            i += 1;
        }
        proof {
            lemma_to_map_dom(pairs, name@);
        }
        None
    }

    /// The saving under `name`: the absent saving where none was ever opened.
    pub fn get_saving(&self, name: &String) -> (r: SavingData)
        requires
            self.wf(),
        ensures
            r@ == self@.saving(name@),
    {
        match self.find_saving(name) {
            Some(i) => self.savings[i].data,
            None => SavingData::absent(),
        }
    }

    /// Puts `data` under `name`, in the place `found` where the name already
    /// stands, else at the end.
    fn put_saving(&mut self, found: Option<usize>, name: String, data: SavingData)
        requires
            old(self).wf(),
            data.penalty_perc <= 100,
            match found {
                Some(i) => i < old(self).savings@.len() && old(self).savings@[i as int].name@
                    == name@,
                None => !has_key(saving_pairs(old(self).savings@), name@),
            },
        ensures
            final(self).wf(),
            final(self)@ == (UserView {
                savings: old(self)@.savings.insert(name@, data@),
                ..old(self)@
            }),
    {
        let ghost before = saving_pairs(self.savings@);
        let ghost key = name@;
        match found {
            Some(i) => {
                proof {
                    lemma_to_map_update(before, i as int, data@);
                    lemma_distinct_update(before, i as int, data@);
                }
                self.savings.set(i, SavingEntry { name, data });
                assert(saving_pairs(self.savings@) =~= before.update(
                    i as int,
                    (before[i as int].0, data@),
                ));
            },
            None => {
                proof {
                    lemma_to_map_push(before, key, data@);
                    lemma_distinct_push(before, key, data@);
                }
                self.savings.push(SavingEntry { name, data });
                assert(saving_pairs(self.savings@) =~= before.push((key, data@)));
            },
        }
    }

    /// Opens a saving under `name_of_saving` with `amount_of_saving` as its
    /// principal, and credits its interest to the user's points.
    ///
    /// Fails, leaving the record as it was: with `SavingAlreadyExists` where
    /// a saving was ever opened under the name, open still or withdrawn
    /// since; else where the penalty exceeds one hundred percent, where the
    /// formula has no value, and where the points would not fit in 256 bits.
    pub fn create_saving_data(
        &mut self,
        name_of_saving: String,
        amount_of_saving: U256,
        token_id: Address,
        maturity_time: U256,
        penalty_perc: u8,
        use_safe_mode: bool,
        vault_state: U256,
        total_value_locked: U256,
        now: u64,
    ) -> (r: Result<(), BitsaveErrors>)
        requires
            old(self).wf(),
        ensures
            final(self).wf(),
            match old(self)@.create_saving(
                name_of_saving@,
                amount_of_saving@,
                token_id,
                maturity_time@,
                penalty_perc as nat,
                use_safe_mode,
                vault_state@,
                total_value_locked@,
                now as nat,
            ) {
                Ok(after) => r is Ok && final(self)@ == after,
                Err(e) => r == Err::<(), BitsaveErrors>(e) && *final(self) == *old(self),
            },
    {
        let found = self.find_saving(&name_of_saving);
        if found.is_some() {
            return Err(BitsaveErrors::SavingAlreadyExists);
        }
        if penalty_perc > 100 {
            return Err(BitsaveErrors::InvalidParameter);
        }
        let new_interest = match calculate_new_interest(
            amount_of_saving,
            maturity_time,
            vault_state,
            total_value_locked,
            now,
        ) {
            Ok(v) => v,
            Err(e) => {
                return Err(e);
            },
        };
        let total = match checked_add(self.total_point, new_interest) {
            Some(t) => t,
            None => {
                return Err(BitsaveErrors::ArithmeticOverflow);
            },
        };
        let data = SavingData {
            is_valid: true,
            amount: amount_of_saving,
            maturity_time,
            start_time: U256::from_u64(now),
            token_id,
            is_safe_mode: use_safe_mode,
            interest_accumulated: new_interest,
            penalty_perc,
        };
        self.put_saving(found, name_of_saving, data);
        self.total_point = total;
        Ok(())
    }

    /// Adds `new_amount` to the principal of the open saving under
    /// `name_of_saving`, and credits the interest on it to the saving and to
    /// the user's points.
    ///
    /// Fails, leaving the record as it was, where no open saving has the
    /// name, where `token_id` is not the saving's asset, where the formula has
    /// no value, and where a sum would not fit in 256 bits.
    pub fn increment_saving_data(
        &mut self,
        name_of_saving: String,
        new_amount: U256,
        token_id: Address,
        vault_state: U256,
        total_value_locked: U256,
        now: u64,
    ) -> (r: Result<(), BitsaveErrors>)
        requires
            old(self).wf(),
        ensures
            final(self).wf(),
            match old(self)@.increment_saving(
                name_of_saving@,
                new_amount@,
                token_id,
                vault_state@,
                total_value_locked@,
                now as nat,
            ) {
                Ok(after) => r is Ok && final(self)@ == after,
                Err(e) => r == Err::<(), BitsaveErrors>(e) && *final(self) == *old(self),
            },
    {
        let found = self.find_saving(&name_of_saving);
        let saving_data = match found {
            Some(i) => self.savings[i].data,
            None => {
                return Err(BitsaveErrors::SavingNotFound);
            },
        };
        if !saving_data.is_valid {
            return Err(BitsaveErrors::SavingNotFound);
        }
        if saving_data.token_id != token_id {
            return Err(BitsaveErrors::AssetMismatch);
        }
        let new_interest = match calculate_new_interest(
            new_amount,
            saving_data.maturity_time,
            vault_state,
            total_value_locked,
            now,
        ) {
            Ok(v) => v,
            Err(e) => {
                return Err(e);
            },
        };
        let total = match checked_add(self.total_point, new_interest) {
            Some(t) => t,
            None => {
                return Err(BitsaveErrors::ArithmeticOverflow);
            },
        };
        let interest = match checked_add(saving_data.interest_accumulated, new_interest) {
            Some(t) => t,
            None => {
                return Err(BitsaveErrors::ArithmeticOverflow);
            },
        };
        let amount = match checked_add(saving_data.amount, new_amount) {
            Some(t) => t,
            None => {
                return Err(BitsaveErrors::ArithmeticOverflow);
            },
        };
        let data = SavingData { amount, interest_accumulated: interest, ..saving_data };
        self.put_saving(found, name_of_saving, data);
        self.total_point = total;
        Ok(())
    }

    /// Closes the open saving under `name_of_saving` and returns what it pays
    /// at the time `now`: the principal once it has matured, the principal
    /// after the penalty before. The interest is not paid, and the points stay.
    /// The cleared record stays under the name, which cannot be used again.
    ///
    /// Fails with `SavingNotFound`, leaving the record as it was, where no
    /// open saving has the name.
    pub fn withdraw_saving_data(&mut self, name_of_saving: String, now: u64) -> (r: Result<
        U256,
        BitsaveErrors,
    >)
        requires
            old(self).wf(),
        ensures
            final(self).wf(),
            match old(self)@.withdraw_saving(name_of_saving@, now as nat) {
                Ok((after, payout)) => r is Ok && r->Ok_0@ == payout && final(self)@ == after,
                Err(e) => r == Err::<U256, BitsaveErrors>(e) && *final(self) == *old(self),
            },
    {
        let found = self.find_saving(&name_of_saving);
        let saving_data = match found {
            Some(i) => self.savings[i].data,
            None => {
                return Err(BitsaveErrors::SavingNotFound);
            },
        };
        if !saving_data.is_valid {
            return Err(BitsaveErrors::SavingNotFound);
        }
        let withdraw_amount = if U256::from_u64(now).lt(&saving_data.maturity_time) {
            calculate_balance_from_penalty(saving_data.amount, saving_data.penalty_perc)
        } else {
            saving_data.amount
        };
        let data = SavingData {
            is_valid: false,
            amount: U256::zero(),
            interest_accumulated: U256::zero(),
            penalty_perc: 0,
            ..saving_data
        };
        self.put_saving(found, name_of_saving, data);
        Ok(withdraw_amount)
    }
}

} // verus!
