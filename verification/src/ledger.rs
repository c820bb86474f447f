//! The ledger: the pool's figures, its users, and the operations on them.
use vstd::prelude::*;
use crate::address::Address;
use crate::assoc::{
    distinct_keys, has_key, lemma_distinct_push, lemma_distinct_update, lemma_to_map_at,
    lemma_to_map_dom, lemma_to_map_len, lemma_to_map_push, lemma_to_map_update, to_map,
};
use crate::constants::{BS_SAVING_FEE, MIN_BS_JOIN_FEE};
use crate::errors::BitsaveErrors;
use crate::uint::U256;
use crate::user_data::{SavingData, UserData, UserView};

verus! {

/// A movement of value that the host must carry out for an operation to stand.
#[derive(Clone, Copy, Debug, PartialEq, Eq, Structural)]
pub struct Transfer {
    pub to: Address,
    pub amount: U256,
}

/// The ledger's state. The fields are the ledger's own: it is read through
/// its view and its getters, and changed through its operations, which keep
/// it well formed.
#[derive(Debug)]
pub struct Bitsave {
    initialized: bool,
    master_address: Address,
    collector_address: Address,
    router_address: Address,
    stablecoin_address: Address,
    vault_state: U256,
    total_value_locked: U256,
    user_count: U256,
    accumulated_pool_balance: U256,
    general_fund: U256,
    users: Vec<UserData>,
}

/// The ledger as a value: the users as a map from identities.
pub struct BitsaveView {
    pub initialized: bool,
    pub master_address: Address,
    pub collector_address: Address,
    pub router_address: Address,
    pub stablecoin_address: Address,
    pub vault_state: nat,
    pub total_value_locked: nat,
    pub user_count: nat,
    pub accumulated_pool_balance: nat,
    pub general_fund: nat,
    pub users: Map<Address, UserView>,
}

impl BitsaveView {
    /// The record of `who`; the absent record where `who` never joined.
    pub open spec fn user(self, who: Address) -> UserView {
        if self.users.dom().contains(who) {
            self.users[who]
        } else {
            UserView::absent()
        }
    }

    /// The ledger after `caller` initialises it: the first call makes the
    /// caller master and collector, a later one changes nothing.
    pub open spec fn init(self, caller: Address) -> BitsaveView {
        if self.initialized {
            self
        } else {
            BitsaveView {
                initialized: true,
                master_address: caller,
                collector_address: caller,
                general_fund: 0,
                ..self
            }
        }
    }

    /// The ledger after `caller` joins with `value` attached, or why they cannot.
    pub open spec fn join(self, caller: Address, value: nat, user_name: Seq<char>) -> Result<
        BitsaveView,
        BitsaveErrors,
    > {
        if self.user(caller).user_exists {
            Err(BitsaveErrors::UserAlreadyExists)
        } else if value < MIN_BS_JOIN_FEE {
            Err(BitsaveErrors::InsufficientFee)
        } else {
            Ok(
                BitsaveView {
                    user_count: self.user_count + 1,
                    users: self.users.insert(
                        caller,
                        UserView {
                            user_exists: true,
                            user_address: caller,
                            user_id: self.user_count + 1,
                            user_name,
                            total_point: 0,
                            savings: Map::empty(),
                        },
                    ),
                    ..self
                },
            )
        }
    }

    /// The ledger after `caller` opens a saving with `value` attached, or why
    /// they cannot. The fee is taken from the value; the rest is the principal.
    /// Only a user can save: a caller who has not joined is refused with
    /// `InvalidUser` before the value is looked at.
    pub open spec fn create_saving(
        self,
        caller: Address,
        value: nat,
        now: nat,
        name: Seq<char>,
        maturity_time: nat,
        penalty_perc: nat,
        use_safe_mode: bool,
    ) -> Result<BitsaveView, BitsaveErrors> {
        if !self.user(caller).user_exists {
            Err(BitsaveErrors::InvalidUser)
        } else if value < BS_SAVING_FEE {
            Err(BitsaveErrors::InsufficientFee)
        } else if use_safe_mode {
            Err(BitsaveErrors::NotSupported)
        } else {
            match self.user(caller).create_saving(
                name,
                (value - BS_SAVING_FEE) as nat,
                Address::zero_spec(),
                maturity_time,
                penalty_perc,
                use_safe_mode,
                self.vault_state,
                self.total_value_locked,
                now,
            ) {
                Err(e) => Err(e),
                Ok(user) => Ok(BitsaveView { users: self.users.insert(caller, user), ..self }),
            }
        }
    }

    /// The ledger after `caller` tops a saving up with `value`, or why they
    /// cannot. A caller who has not joined is refused with `InvalidUser`.
    pub open spec fn increment_saving(self, caller: Address, value: nat, now: nat, name: Seq<char>)
        -> Result<BitsaveView, BitsaveErrors> {
        if !self.user(caller).user_exists {
            Err(BitsaveErrors::InvalidUser)
        } else {
            match self.user(caller).increment_saving(
                name,
                value,
                Address::zero_spec(),
                self.vault_state,
                self.total_value_locked,
                now,
            ) {
                Err(e) => Err(e),
                Ok(user) => Ok(BitsaveView { users: self.users.insert(caller, user), ..self }),
            }
        }
    }

    /// The ledger after `caller` withdraws a saving at the time `now`, with
    /// what is paid out, or why they cannot. A call in flight is refused
    /// first; then a caller who has not joined, with `InvalidUser`.
    pub open spec fn withdraw_savings(self, caller: Address, now: nat, reentrant: bool, name: Seq<char>)
        -> Result<(BitsaveView, nat), BitsaveErrors> {
        if reentrant {
            Err(BitsaveErrors::Reentrant)
        } else if !self.user(caller).user_exists {
            Err(BitsaveErrors::InvalidUser)
        } else {
            match self.user(caller).withdraw_saving(name, now) {
                Err(e) => Err(e),
                Ok((user, payout)) => Ok(
                    (BitsaveView { users: self.users.insert(caller, user), ..self }, payout),
                ),
            }
        }
    }
}

/// The users as pairs of an identity and a record.
pub open spec fn user_pairs(users: Seq<UserData>) -> Seq<(Address, UserView)> {
    Seq::new(users.len(), |i: int| (users[i]@.user_address, users[i]@))
}

/// Where the record at `i` gives way to one of the same identity, the
/// identities stay distinct and the map holds the new record under that
/// identity, all else as before; a record with the same view leaves the map
/// as it was.
proof fn lemma_user_replaced(before: Seq<UserData>, after: Seq<UserData>, i: int)
    requires
        distinct_keys(user_pairs(before)),
        0 <= i < before.len(),
        after == before.update(i, after[i]),
        after[i]@.user_address == before[i]@.user_address,
    ensures
        distinct_keys(user_pairs(after)),
        to_map(user_pairs(before)).dom().contains(before[i]@.user_address),
        to_map(user_pairs(before))[before[i]@.user_address] == before[i]@,
        to_map(user_pairs(after)) == to_map(user_pairs(before)).insert(
            before[i]@.user_address,
            after[i]@,
        ),
        after[i]@ == before[i]@ ==> to_map(user_pairs(after)) == to_map(user_pairs(before)),
{
    let pairs = user_pairs(before);
    let user = after[i]@;
    lemma_to_map_update(pairs, i, user);
    lemma_distinct_update(pairs, i, user);
    lemma_to_map_at(pairs, i);
    assert(user_pairs(after) =~= pairs.update(i, (pairs[i].0, user)));
    assert(to_map(pairs).insert(pairs[i].0, to_map(pairs)[pairs[i].0]) =~= to_map(pairs));
}

impl View for Bitsave {
    type V = BitsaveView;

    closed spec fn view(&self) -> BitsaveView {
        BitsaveView {
            initialized: self.initialized,
            master_address: self.master_address,
            collector_address: self.collector_address,
            router_address: self.router_address,
            stablecoin_address: self.stablecoin_address,
            vault_state: self.vault_state@,
            total_value_locked: self.total_value_locked@,
            user_count: self.user_count@,
            accumulated_pool_balance: self.accumulated_pool_balance@,
            general_fund: self.general_fund@,
            users: to_map(user_pairs(self.users@)),
        }
    }
}

impl Bitsave {
    /// Each identity has one record at most, every record is well formed and
    /// of a user that exists, and the user count is the number of records.
    pub closed spec fn wf(&self) -> bool {
        &&& distinct_keys(user_pairs(self.users@))
        &&& forall|i: int|
            0 <= i < self.users@.len() ==> (#[trigger] self.users@[i]).wf()
                && self.users@[i]@.user_exists
        &&& self.user_count@ == self.users@.len()
    }

    /// The user count is the number of identities that have a record, and
    /// each record is of a user that exists and is kept under that user's
    /// own identity.
    pub proof fn lemma_user_count(&self)
        requires
            self.wf(),
        ensures
            self@.users.dom().finite(),
            self@.users.dom().len() == self@.user_count,
            forall|who: Address| #[trigger]
                self@.users.dom().contains(who) ==> self@.users[who].user_exists
                    && self@.users[who].user_address == who,
            forall|who: Address| self@.users.dom().contains(who) <==> #[trigger] self@.user(
                who,
            ).user_exists,
    {
        let pairs = user_pairs(self.users@);
        lemma_to_map_len(pairs);
        assert forall|who: Address| #[trigger] self@.users.dom().contains(who) implies self@.users[who].user_exists
            && self@.users[who].user_address == who by {
            lemma_to_map_dom(pairs, who);
            let i = choose|i: int| 0 <= i < pairs.len() && (#[trigger] pairs[i]).0 == who;
            lemma_to_map_at(pairs, i);
            assert(self.users@[i]@.user_exists);
        }
    }

    /// In a well-formed ledger no saving of any user has a penalty above one
    /// hundred percent.
    pub proof fn lemma_penalty_in_range(&self, who: Address, name: Seq<char>)
        requires
            self.wf(),
        ensures
            self@.user(who).saving(name).penalty_perc <= 100,
    {
        let pairs = user_pairs(self.users@);
        lemma_to_map_dom(pairs, who);
        if has_key(pairs, who) {
            let i = choose|i: int| 0 <= i < pairs.len() && (#[trigger] pairs[i]).0 == who;
            lemma_to_map_at(pairs, i);
            self.users@[i].lemma_penalty_in_range(name);
        }
    }

    /// A ledger that nobody has initialised or joined, with every figure at zero.
    pub fn new() -> (r: Bitsave)
        ensures
            r.wf(),
            !r@.initialized,
            r@.user_count == 0,
            r@.vault_state == 0,
            r@.total_value_locked == 0,
            r@.accumulated_pool_balance == 0,
            r@.general_fund == 0,
            r@.users == Map::<Address, UserView>::empty(),
            r@.master_address == Address::zero_spec(),
            r@.collector_address == Address::zero_spec(),
            r@.router_address == Address::zero_spec(),
            r@.stablecoin_address == Address::zero_spec(),
    {
        let r = Bitsave {
            initialized: false,
            master_address: Address::zero(),
            collector_address: Address::zero(),
            router_address: Address::zero(),
            stablecoin_address: Address::zero(),
            vault_state: U256::zero(),
            total_value_locked: U256::zero(),
            user_count: U256::zero(),
            accumulated_pool_balance: U256::zero(),
            general_fund: U256::zero(),
            users: Vec::new(),
        };
        assert(user_pairs(r.users@) =~= Seq::empty());
        r
    }

    /// Where the record of `who` stands among the users.
    fn find_user(&self, who: Address) -> (r: Option<usize>)
        requires
            self.wf(),
        ensures
            match r {
                Some(i) => i < self.users@.len() && self.users@[i as int]@.user_address == who
                    && self@.user(who) == self.users@[i as int]@ && self@.user(who).user_exists,
                None => !has_key(user_pairs(self.users@), who) && self@.user(who)
                    == UserView::absent(),
            },
    {
        let ghost pairs = user_pairs(self.users@);
        let mut i: usize = 0;
        while i < self.users.len()
            invariant
                self.wf(),
                i <= self.users@.len(),
                pairs == user_pairs(self.users@),
                forall|j: int| 0 <= j < i ==> (#[trigger] pairs[j]).0 != who,
            decreases self.users@.len() - i,
        {
            if self.users[i].user_address() == who {
                proof {
                    lemma_to_map_at(pairs, i as int);
                }
                return Some(i);
            }
            i += 1;
        }
        proof {
            lemma_to_map_dom(pairs, who);
        }
        None
    }

    /// Whether `sender` is the master.
    fn require_master(&self, sender: Address) -> (r: Result<(), BitsaveErrors>)
        ensures
            sender == self.master_address ==> r is Ok,
            sender != self.master_address ==> r == Err::<(), BitsaveErrors>(
                BitsaveErrors::Unauthorized,
            ),
    {
        if sender != self.master_address {
            return Err(BitsaveErrors::Unauthorized);
        }
        Ok(())
    }

    /// Initialises the ledger: the first caller becomes master and
    /// collector, and the general fund is set to zero. A later call changes
    /// nothing.
    pub fn init(&mut self, caller: Address)
        requires
            old(self).wf(),
        ensures
            final(self).wf(),
            final(self)@ == old(self)@.init(caller),
    {
        if !self.initialized {
            self.master_address = caller;
            self.collector_address = caller;
            self.general_fund = U256::zero();
            self.initialized = true;
        }
    }

    /// Sets the router, the stablecoin and the collector, for the master only.
    pub fn change_data(
        &mut self,
        caller: Address,
        router_address: Address,
        stablecoin_address: Address,
        collector_address: Address,
    ) -> (r: Result<(), BitsaveErrors>)
        requires
            old(self).wf(),
        ensures
            final(self).wf(),
            caller == old(self)@.master_address ==> r is Ok && final(self)@ == (BitsaveView {
                router_address,
                stablecoin_address,
                collector_address,
                ..old(self)@
            }),
            caller != old(self)@.master_address ==> r == Err::<(), BitsaveErrors>(
                BitsaveErrors::Unauthorized,
            ) && final(self)@ == old(self)@,
    {
        match self.require_master(caller) {
            Ok(_) => {},
            Err(e) => {
                return Err(e);
            },
        }
        self.router_address = router_address;
        self.stablecoin_address = stablecoin_address;
        self.collector_address = collector_address;
        Ok(())
    }

    /// Sets the vault state and the total value locked, for the master only.
    pub fn update_vault(&mut self, caller: Address, v_state: U256, total_locked: U256) -> (r: Result<
        (),
        BitsaveErrors,
    >)
        requires
            old(self).wf(),
        ensures
            final(self).wf(),
            caller == old(self)@.master_address ==> r is Ok && final(self)@ == (BitsaveView {
                vault_state: v_state@,
                total_value_locked: total_locked@,
                ..old(self)@
            }),
            caller != old(self)@.master_address ==> r == Err::<(), BitsaveErrors>(
                BitsaveErrors::Unauthorized,
            ) && final(self)@ == old(self)@,
    {
        match self.require_master(caller) {
            Ok(_) => {},
            Err(e) => {
                return Err(e);
            },
        }
        self.vault_state = v_state;
        self.total_value_locked = total_locked;
        Ok(())
    }

    /// Whether the ledger has been initialised.
    pub fn initialized(&self) -> (r: bool)
        ensures
            r == self@.initialized,
    {
        self.initialized
    }

    /// The master's identity.
    pub fn master_address(&self) -> (r: Address)
        ensures
            r == self@.master_address,
    {
        self.master_address
    }

    /// The identity that receives the saving fees.
    pub fn collector_address(&self) -> (r: Address)
        ensures
            r == self@.collector_address,
    {
        self.collector_address
    }

    /// The router's identity.
    pub fn router_address(&self) -> (r: Address)
        ensures
            r == self@.router_address,
    {
        self.router_address
    }

    /// The stablecoin's identity.
    pub fn stablecoin_address(&self) -> (r: Address)
        ensures
            r == self@.stablecoin_address,
    {
        self.stablecoin_address
    }

    /// The vault state that feeds the interest formula.
    pub fn vault_state(&self) -> (r: U256)
        ensures
            r@ == self@.vault_state,
    {
        self.vault_state
    }

    /// The total value locked that feeds the interest formula.
    pub fn total_value_locked(&self) -> (r: U256)
        ensures
            r@ == self@.total_value_locked,
    {
        self.total_value_locked
    }

    /// The general fund.
    pub fn general_fund(&self) -> (r: U256)
        ensures
            r@ == self@.general_fund,
    {
        self.general_fund
    }

    /// The accumulated pool balance.
    pub fn accumulated_pool_balance(&self) -> (r: U256)
        ensures
            r@ == self@.accumulated_pool_balance,
    {
        self.accumulated_pool_balance
    }

    /// The record of `caller`, where they have joined.
    pub fn get_user(&self, caller: Address) -> (r: Option<&UserData>)
        requires
            self.wf(),
        ensures
            r is Some <==> self@.user(caller).user_exists,
            r matches Some(user) ==> user@ == self@.user(caller) && user.wf(),
    {
        match self.find_user(caller) {
            Some(i) => Some(&self.users[i]),
            None => None,
        }
    }

    /// How many users have joined.
    pub fn get_bitsave_user_count(&self) -> (r: U256)
        ensures
            r@ == self@.user_count,
    {
        self.user_count
    }

    /// The points of `caller`; zero where they never joined.
    pub fn get_user_points(&self, caller: Address) -> (r: U256)
        requires
            self.wf(),
        ensures
            r@ == self@.user(caller).total_point,
    {
        match self.find_user(caller) {
            Some(i) => self.users[i].total_point(),
            None => U256::zero(),
        }
    }

    /// The number that `caller` was given on joining; zero where they never joined.
    pub fn get_user_id(&self, caller: Address) -> (r: U256)
        requires
            self.wf(),
        ensures
            r@ == self@.user(caller).user_id,
    {
        match self.find_user(caller) {
            Some(i) => self.users[i].get_user_id(),
            None => U256::zero(),
        }
    }

    /// The saving of `caller` under `name`; the absent saving where there is none.
    pub fn get_saving(&self, caller: Address, name: &String) -> (r: SavingData)
        requires
            self.wf(),
        ensures
            r@ == self@.user(caller).saving(name@),
    {
        match self.find_user(caller) {
            Some(i) => self.users[i].get_saving(name),
            None => SavingData::absent(),
        }
    }

    /// Joins `caller` to the pool with `value` attached, and returns the
    /// caller's identity.
    ///
    /// Fails, leaving the ledger as it was, with `UserAlreadyExists` where
    /// the caller has joined before, else with `InsufficientFee` where the
    /// value is below the joining fee.
    pub fn join_bitsave(&mut self, caller: Address, value: U256, user_name: String) -> (r: Result<
        Address,
        BitsaveErrors,
    >)
        requires
            old(self).wf(),
        ensures
            final(self).wf(),
            match old(self)@.join(caller, value@, user_name@) {
                Ok(after) => r == Ok::<Address, BitsaveErrors>(caller) && final(self)@ == after,
                Err(e) => r == Err::<Address, BitsaveErrors>(e) && final(self)@ == old(self)@,
            },
    {
        if self.find_user(caller).is_some() {
            return Err(BitsaveErrors::UserAlreadyExists);
        }
        if value.lt(&U256::from_u64(MIN_BS_JOIN_FEE)) {
            return Err(BitsaveErrors::InsufficientFee);
        }
        assert(self.user_count@ == self.users.len() && self.users.len() <= u64::MAX);
        let new_user_count = self.user_count.plus(U256::from_u64(1));
        let mut user = UserData::new();
        user.create_user(caller, new_user_count, user_name);
        proof {
            let before = user_pairs(self.users@);
            lemma_to_map_push(before, caller, user@);
            lemma_distinct_push(before, caller, user@);
            assert(user_pairs(self.users@.push(user)) =~= before.push((caller, user@)));
        }
        self.user_count = new_user_count;
        self.users.push(user);
        Ok(caller)
    }

    /// Opens a saving for `caller` under `name_of_saving`. The saving fee is
    /// taken from `value`, the rest is the principal. Returns the transfer of
    /// the fee to the collector, which the host must carry out.
    ///
    /// Fails, leaving the ledger as it was: with `InvalidUser` where the
    /// caller has not joined, else with `InsufficientFee` where the value is
    /// below the fee, else with `NotSupported` where safe mode is asked for,
    /// else as opening the saving in the caller's record fails.
    ///
    /// Two choices are made here. Membership is tested first, before the
    /// fee: a caller without a record has nothing to save into. And the
    /// transfer of the fee is asked for only when every test has passed, so
    /// the host moves no value for an operation that is refused; where the
    /// transfer then fails, `settle_transfer` undoes the opening. A host that
    /// moved the fee before the later tests would report `TransferFailed` on
    /// inputs on which this function reports the later failure; the ledger
    /// is left as it was either way.
    pub fn create_saving(
        &mut self,
        caller: Address,
        value: U256,
        now: u64,
        name_of_saving: String,
        maturity_time: U256,
        penalty_perc: u8,
        use_safe_mode: bool,
    ) -> (r: Result<Transfer, BitsaveErrors>)
        requires
            old(self).wf(),
        ensures
            final(self).wf(),
            match old(self)@.create_saving(
                caller,
                value@,
                now as nat,
                name_of_saving@,
                maturity_time@,
                penalty_perc as nat,
                use_safe_mode,
            ) {
                Ok(after) => r is Ok && r->Ok_0.to == old(self)@.collector_address
                    && r->Ok_0.amount@ == BS_SAVING_FEE && final(self)@ == after,
                Err(e) => r == Err::<Transfer, BitsaveErrors>(e) && final(self)@ == old(self)@,
            },
    {
        let i = match self.find_user(caller) {
            Some(i) => i,
            None => {
                return Err(BitsaveErrors::InvalidUser);
            },
        };
        let saving_fee = U256::from_u64(BS_SAVING_FEE);
        if value.lt(&saving_fee) {
            return Err(BitsaveErrors::InsufficientFee);
        }
        let amount_of_saving = value.minus(saving_fee);
        let token_id = Address::zero();
        if use_safe_mode {
            return Err(BitsaveErrors::NotSupported);
        }
        let vault_state = self.vault_state;
        let total_value_locked = self.total_value_locked;
        let ghost before = self.users@;
        let res = self.users[i].create_saving_data(
            name_of_saving,
            amount_of_saving,
            token_id,
            maturity_time,
            penalty_perc,
            use_safe_mode,
            vault_state,
            total_value_locked,
            now,
        );
        proof {
            lemma_user_replaced(before, self.users@, i as int);
        }
        match res {
            Ok(_) => Ok(Transfer { to: self.collector_address, amount: saving_fee }),
            Err(e) => Err(e),
        }
    }

    /// Adds `value` to the principal of the caller's open saving under
    /// `name_of_saving`. No fee is taken.
    ///
    /// Fails, leaving the ledger as it was: with `InvalidUser` where the
    /// caller has not joined, which is tested first, else as topping the
    /// saving up in the caller's record fails.
    pub fn increment_saving(&mut self, caller: Address, value: U256, now: u64, name_of_saving: String)
        -> (r: Result<(), BitsaveErrors>)
        requires
            old(self).wf(),
        ensures
            final(self).wf(),
            match old(self)@.increment_saving(caller, value@, now as nat, name_of_saving@) {
                Ok(after) => r is Ok && final(self)@ == after,
                Err(e) => r == Err::<(), BitsaveErrors>(e) && final(self)@ == old(self)@,
            },
    {
        let i = match self.find_user(caller) {
            Some(i) => i,
            None => {
                return Err(BitsaveErrors::InvalidUser);
            },
        };
        let token_id = Address::zero();
        let vault_state = self.vault_state;
        let total_value_locked = self.total_value_locked;
        let ghost before = self.users@;
        let res = self.users[i].increment_saving_data(
            name_of_saving,
            value,
            token_id,
            vault_state,
            total_value_locked,
            now,
        );
        proof {
            lemma_user_replaced(before, self.users@, i as int);
        }
        res
    }

    /// Closes the caller's open saving under `name_of_saving` and returns
    /// the transfer that the host must carry out: to the caller, of the
    /// principal once the saving has matured, of the principal after the
    /// penalty before. The record is cleared before the host pays, and its
    /// name cannot be used again.
    ///
    /// Fails, leaving the ledger as it was: with `Reentrant` where the host
    /// reports a call in flight, else with `InvalidUser` where the caller has
    /// not joined, else with `SavingNotFound` where no open saving has the name.
    pub fn withdraw_savings(&mut self, caller: Address, now: u64, reentrant: bool, name_of_saving: String)
        -> (r: Result<Transfer, BitsaveErrors>)
        requires
            old(self).wf(),
        ensures
            final(self).wf(),
            match old(self)@.withdraw_savings(caller, now as nat, reentrant, name_of_saving@) {
                Ok((after, payout)) => r is Ok && r->Ok_0.to == caller && r->Ok_0.amount@
                    == payout && final(self)@ == after,
                Err(e) => r == Err::<Transfer, BitsaveErrors>(e) && final(self)@ == old(self)@,
            },
    {
        if reentrant {
            return Err(BitsaveErrors::Reentrant);
        }
        let i = match self.find_user(caller) {
            Some(i) => i,
            None => {
                return Err(BitsaveErrors::InvalidUser);
            },
        };
        let ghost before = self.users@;
        let res = self.users[i].withdraw_saving_data(name_of_saving, now);
        proof {
            lemma_user_replaced(before, self.users@, i as int);
        }
        match res {
            Ok(amount) => Ok(Transfer { to: caller, amount }),
            Err(e) => Err(e),
        }
    }

    /// A copy of the ledger, for a host to keep while a transfer is under way.
    pub fn snapshot(&self) -> (r: Bitsave)
        requires
            self.wf(),
        ensures
            r.wf(),
            r@ == self@,
    {
        let mut users: Vec<UserData> = Vec::new();
        let mut i: usize = 0;
        while i < self.users.len()
            invariant
                self.wf(),
                i <= self.users@.len(),
                users@.len() == i,
                forall|j: int|
                    0 <= j < i ==> (#[trigger] users@[j]).wf() && users@[j]@ == self.users@[j]@,
            decreases self.users@.len() - i,
        {
            let user = self.users[i].snapshot();
            users.push(user);
            i += 1;
        }
        assert(user_pairs(users@) =~= user_pairs(self.users@));
        Bitsave {
            initialized: self.initialized,
            master_address: self.master_address,
            collector_address: self.collector_address,
            router_address: self.router_address,
            stablecoin_address: self.stablecoin_address,
            vault_state: self.vault_state,
            total_value_locked: self.total_value_locked,
            user_count: self.user_count,
            accumulated_pool_balance: self.accumulated_pool_balance,
            general_fund: self.general_fund,
            users,
        }
    }

    /// Concludes an operation that asked the host for a transfer. Where the
    /// value was delivered the ledger stands as it is; where it was not, the
    /// ledger goes back to `before`, its state when the operation began, and
    /// the operation fails with `TransferFailed`.
    pub fn settle_transfer(&mut self, before: Bitsave, delivered: bool) -> (r: Result<
        (),
        BitsaveErrors,
    >)
        requires
            old(self).wf(),
            before.wf(),
        ensures
            final(self).wf(),
            delivered ==> r is Ok && final(self)@ == old(self)@,
            !delivered ==> r == Err::<(), BitsaveErrors>(BitsaveErrors::TransferFailed)
                && final(self)@ == before@,
    {
        if delivered {
            Ok(())
        } else {
            *self = before;
            Err(BitsaveErrors::TransferFailed)
        }
    }
}

} // verus!
