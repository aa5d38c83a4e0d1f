use std::collections::HashMap;
use vstd::prelude::*;

verus! {

broadcast use vstd::std_specs::hash::group_hash_axioms;

/// Why a balance operation was refused.
#[derive(Debug, Clone, Copy, PartialEq, Eq, Structural)]
pub enum Error {
    /// The requested amount exceeds the balance it would be taken from.
    InsufficientFunds,
    /// The account has been locked by a chargeback.
    LockedAccount,
}

/// One client's balances.
///
/// Amounts are fixed-point: a balance of `n` stands for `n / 10_000` units
/// of currency, so four fractional digits are kept exactly.
#[derive(Debug, Clone, Copy, PartialEq, Eq, Structural)]
pub struct Account {
    pub client_id: u16,
    pub available_balance: u64,
    pub held_balance: u64,
    pub total_balance: u64,
    pub locked: bool,
}

/// Whether an operation did what its outcome says: on `Ok` the account
/// became the new state, on `Err` the error was returned and nothing changed.
pub open spec fn applied(
    before: Account,
    outcome: Result<Account, Error>,
    r: Result<(), Error>,
    after: Account,
) -> bool {
    match outcome {
        Ok(a) => r is Ok && after == a,
        Err(e) => r == Err::<(), Error>(e) && after == before,
    }
}

impl Account {
    /// The balances agree: `total == available + held`.
    pub open spec fn wf(self) -> bool {
        self.total_balance == self.available_balance + self.held_balance
    }

    /// A fresh, empty and unlocked account.
    pub open spec fn empty(client_id: u16) -> Account {
        Account {
            client_id,
            available_balance: 0,
            held_balance: 0,
            total_balance: 0,
            locked: false,
        }
    }

    /// Whether depositing `amount` keeps the total representable.
    pub open spec fn can_hold(self, amount: u64) -> bool {
        self.total_balance + amount <= u64::MAX
    }

    pub open spec fn deposited(self, amount: u64) -> Result<Account, Error> {
        if self.locked {
            Err(Error::LockedAccount)
        } else {
            Ok(
                Account {
                    available_balance: (self.available_balance + amount) as u64,
                    total_balance: (self.total_balance + amount) as u64,
                    ..self
                },
            )
        }
    }

    pub open spec fn withdrawn(self, amount: u64) -> Result<Account, Error> {
        if self.locked {
            Err(Error::LockedAccount)
        } else if amount > self.available_balance {
            Err(Error::InsufficientFunds)
        } else {
            Ok(
                Account {
                    available_balance: (self.available_balance - amount) as u64,
                    total_balance: (self.total_balance - amount) as u64,
                    ..self
                },
            )
        }
    }

    pub open spec fn disputed(self, amount: u64) -> Result<Account, Error> {
        if self.locked {
            Err(Error::LockedAccount)
        } else if amount > self.available_balance {
            Err(Error::InsufficientFunds)
        } else {
            Ok(
                Account {
                    available_balance: (self.available_balance - amount) as u64,
                    held_balance: (self.held_balance + amount) as u64,
                    ..self
                },
            )
        }
    }

    pub open spec fn resolved(self, amount: u64) -> Result<Account, Error> {
        if self.locked {
            Err(Error::LockedAccount)
        } else if amount > self.held_balance {
            Err(Error::InsufficientFunds)
        } else {
            Ok(
                Account {
                    held_balance: (self.held_balance - amount) as u64,
                    available_balance: (self.available_balance + amount) as u64,
                    ..self
                },
            )
        }
    }

    pub open spec fn charged_back(self, amount: u64) -> Result<Account, Error> {
        if self.locked {
            Err(Error::LockedAccount)
        } else if amount > self.held_balance {
            Err(Error::InsufficientFunds)
        } else {
            Ok(
                Account {
                    held_balance: (self.held_balance - amount) as u64,
                    total_balance: (self.total_balance - amount) as u64,
                    locked: true,
                    ..self
                },
            )
        }
    }

    pub fn new(client_id: u16) -> (r: Account)
        ensures
            r == Account::empty(client_id),
            r.wf(),
    {
        Account {
            client_id,
            available_balance: 0,
            held_balance: 0,
            total_balance: 0,
            locked: false,
        }
    }

    pub fn client_id(&self) -> (r: u16)
        ensures
            r == self.client_id,
    {
        self.client_id
    }

    fn is_locked(&self) -> (r: Result<(), Error>)
        ensures
            r == (if self.locked {
                Err(Error::LockedAccount)
            } else {
                Ok(())
            }),
    {
        if self.locked {
            return Err(Error::LockedAccount);
        }
        Ok(())
    }

    fn has_sufficient_funds(&self, amount: u64) -> (r: Result<(), Error>)
        ensures
            r == (if amount > self.available_balance {
                Err(Error::InsufficientFunds)
            } else {
                Ok(())
            }),
    {
        if amount > self.available_balance {
            return Err(Error::InsufficientFunds);
        }
        Ok(())
    }

    fn has_sufficient_held_funds(&self, amount: u64) -> (r: Result<(), Error>)
        ensures
            r == (if amount > self.held_balance {
                Err(Error::InsufficientFunds)
            } else {
                Ok(())
            }),
    {
        if amount > self.held_balance {
            return Err(Error::InsufficientFunds);
        }
        Ok(())
    }

    /// Adds `amount` to the available and total balances.
    pub fn deposit(&mut self, amount: u64) -> (r: Result<(), Error>)
        requires
            old(self).wf(),
            !old(self).locked ==> old(self).can_hold(amount),
        ensures
            applied(*old(self), old(self).deposited(amount), r, *final(self)),
            final(self).wf(),
    {
        if let Err(e) = self.is_locked() {
            return Err(e);
        }
        self.available_balance = self.available_balance + amount;
        self.total_balance = self.total_balance + amount;
        Ok(())
    }

    /// Takes `amount` out of the available and total balances.
    pub fn withdrawal(&mut self, amount: u64) -> (r: Result<(), Error>)
        requires
            old(self).wf(),
        ensures
            applied(*old(self), old(self).withdrawn(amount), r, *final(self)),
            final(self).wf(),
    {
        if let Err(e) = self.is_locked() {
            return Err(e);
        }
        if let Err(e) = self.has_sufficient_funds(amount) {
            return Err(e);
        }
        self.available_balance = self.available_balance - amount;
        self.total_balance = self.total_balance - amount;
        Ok(())
    }

    /// Moves `amount` from the available balance to the held balance.
    pub fn dispute(&mut self, amount: u64) -> (r: Result<(), Error>)
        requires
            old(self).wf(),
        ensures
            applied(*old(self), old(self).disputed(amount), r, *final(self)),
            final(self).wf(),
    {
        if let Err(e) = self.is_locked() {
            return Err(e);
        }
        if let Err(e) = self.has_sufficient_funds(amount) {
            return Err(e);
        }
        self.available_balance = self.available_balance - amount;
        self.held_balance = self.held_balance + amount;
        Ok(())
    }

    /// Moves `amount` from the held balance back to the available balance.
    pub fn resolve(&mut self, amount: u64) -> (r: Result<(), Error>)
        requires
            old(self).wf(),
        ensures
            applied(*old(self), old(self).resolved(amount), r, *final(self)),
            final(self).wf(),
    {
        if let Err(e) = self.is_locked() {
            return Err(e);
        }
        if let Err(e) = self.has_sufficient_held_funds(amount) {
            return Err(e);
        }
        self.held_balance = self.held_balance - amount;
        self.available_balance = self.available_balance + amount;
        Ok(())
    }

    /// Removes `amount` from the held and total balances and locks the account.
    pub fn chargeback(&mut self, amount: u64) -> (r: Result<(), Error>)
        requires
            old(self).wf(),
        ensures
            applied(*old(self), old(self).charged_back(amount), r, *final(self)),
            final(self).wf(),
    {
        if let Err(e) = self.is_locked() {
            return Err(e);
        }
        if let Err(e) = self.has_sufficient_held_funds(amount) {
            return Err(e);
        }
        self.held_balance = self.held_balance - amount;
        self.total_balance = self.total_balance - amount;
        self.locked = true;
        Ok(())
    }

    pub fn locked(&self) -> (r: bool)
        ensures
            r == self.locked,
    {
        self.locked
    }

    pub fn available_balance(&self) -> (r: u64)
        ensures
            r == self.available_balance,
    {
        self.available_balance
    }

    pub fn held_balance(&self) -> (r: u64)
        ensures
            r == self.held_balance,
    {
        self.held_balance
    }

    pub fn total_balance(&self) -> (r: u64)
        ensures
            r == self.total_balance,
    {
        self.total_balance
    }
}

/// Every account ever referenced, keyed by client id.
pub struct AccountsRepository {
    accounts: HashMap<u16, Account>,
}

impl View for AccountsRepository {
    type V = Map<u16, Account>;

    closed spec fn view(&self) -> Map<u16, Account> {
        self.accounts@
    }
}

/// Each account is stored under its own client id and its balances agree.
pub open spec fn accounts_wf(m: Map<u16, Account>) -> bool {
    forall|k: u16| #[trigger] m.contains_key(k) ==> m[k].client_id == k && m[k].wf()
}

/// The account of `id` in `m`, or a fresh one if `m` holds none.
pub open spec fn account_or_empty(m: Map<u16, Account>, id: u16) -> Account {
    if m.contains_key(id) {
        m[id]
    } else {
        Account::empty(id)
    }
}

impl AccountsRepository {
    pub open spec fn wf(&self) -> bool {
        accounts_wf(self@)
    }

    pub fn new() -> (r: AccountsRepository)
        ensures
            r@ == Map::<u16, Account>::empty(),
            r.wf(),
    {
        AccountsRepository { accounts: HashMap::new() }
    }

    /// The account of client `id`, created empty if none exists yet.
    pub fn get_or_create(&mut self, id: u16) -> (r: &mut Account)
        ensures
            *r == account_or_empty(old(self)@, id),
            final(self)@ == old(self)@.insert(id, *final(r)),
    {
        self.accounts.entry(id).or_insert(Account::new(id))
    }

    /// All accounts in ascending order of client id.
    pub fn accounts_by_client_id(&self) -> (r: Vec<Account>)
        requires
            self.wf(),
        ensures
            forall|i: int, j: int|
                0 <= i < j < r@.len() ==> r@[i].client_id < r@[j].client_id,
            forall|i: int|
                0 <= i < r@.len() ==> self@.contains_key(#[trigger] r@[i].client_id) && self@[r@[i].client_id]
                    == r@[i],
            forall|k: u16|
                #[trigger] self@.contains_key(k) ==> exists|i: int|
                    0 <= i < r@.len() && #[trigger] r@[i].client_id == k,
    {
        let mut r: Vec<Account> = Vec::new();
        let mut id: u32 = 0;
        while id <= u16::MAX as u32
            invariant
                id <= u16::MAX + 1,
                self.wf(),
                forall|i: int, j: int|
                    0 <= i < j < r@.len() ==> r@[i].client_id < r@[j].client_id,
                forall|i: int| 0 <= i < r@.len() ==> r@[i].client_id < id,
                forall|i: int|
                    0 <= i < r@.len() ==> self@.contains_key(#[trigger] r@[i].client_id)
                        && self@[r@[i].client_id] == r@[i],
                forall|k: u16|
                    #[trigger] self@.contains_key(k) && k < id ==> exists|i: int|
                        0 <= i < r@.len() && #[trigger] r@[i].client_id == k,
            decreases u16::MAX + 1 - id,
        {
            let k = id as u16;
            let ghost before = r@;
            match self.accounts.get(&k) {
                Some(a) => {
                    r.push(*a);
                    assert forall|c: u16| #[trigger]
                        self@.contains_key(c) && c <= k implies exists|i: int|
                        0 <= i < r@.len() && #[trigger] r@[i].client_id == c by {
                        if c < k {
                            let i = choose|i: int| 0 <= i < before.len() && before[i].client_id == c;
                            assert(r@[i] == before[i]);
                        } else {
                            assert(r@[r@.len() - 1].client_id == c);
                        }
                    }
                },
                None => {},
            }
            id = id + 1;
        }
        r
    }
}

impl Default for AccountsRepository {
    fn default() -> (r: AccountsRepository)
        ensures
            r@ == Map::<u16, Account>::empty(),
            r.wf(),
    {
        AccountsRepository::new()
    }
}

} // verus!
