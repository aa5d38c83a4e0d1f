use crate::account::{account_or_empty, Account, AccountsRepository, Error};
use crate::transaction::{flagged, recorded, Transaction, TransactionLedger, Type};
use vstd::prelude::*;

verus! {

/// What the engine works on: every account, and the history of instructions.
pub type Books = (Map<u16, Account>, Map<u32, Transaction>);

/// The new account on success, the unchanged one on failure.
pub open spec fn or_unchanged(outcome: Result<Account, Error>, acct: Account) -> Account {
    match outcome {
        Ok(a) => a,
        Err(_) => acct,
    }
}

/// A dispute of `tx` may proceed: its target is recorded, not under dispute,
/// and belongs to the client that the dispute names.
pub open spec fn may_dispute(ledger: Map<u32, Transaction>, tx: Transaction) -> bool {
    &&& ledger.contains_key(tx.id)
    &&& !ledger[tx.id].is_dispute
    &&& ledger[tx.id].account_id == tx.account_id
}

/// A resolve or chargeback of `tx` may proceed: its target is recorded,
/// under dispute, and belongs to the client that the instruction names.
pub open spec fn may_settle(ledger: Map<u32, Transaction>, tx: Transaction) -> bool {
    &&& ledger.contains_key(tx.id)
    &&& ledger[tx.id].is_dispute
    &&& ledger[tx.id].account_id == tx.account_id
}

/// The balance operation that `tx` asks of `acct`, given the history before it;
/// `None` where the instruction is skipped without touching the account: a
/// deposit or withdrawal whose id is already recorded, a deposit that would
/// take the total past `u64::MAX`, or a dispute, resolve or chargeback whose
/// target does not qualify.
pub open spec fn requested(acct: Account, ledger: Map<u32, Transaction>, tx: Transaction) -> Option<
    Result<Account, Error>,
> {
    match tx.tx_type {
        Type::Deposit => if ledger.contains_key(tx.id) || !acct.can_hold(tx.amount) {
            None
        } else {
            Some(acct.deposited(tx.amount))
        },
        Type::Withdrawal => if ledger.contains_key(tx.id) {
            None
        } else {
            Some(acct.withdrawn(tx.amount))
        },
        Type::Dispute => if may_dispute(ledger, tx) {
            Some(acct.disputed(ledger[tx.id].amount))
        } else {
            None
        },
        Type::Resolve => if may_settle(ledger, tx) {
            Some(acct.resolved(ledger[tx.id].amount))
        } else {
            None
        },
        Type::Chargeback => if may_settle(ledger, tx) {
            Some(acct.charged_back(ledger[tx.id].amount))
        } else {
            None
        },
    }
}

/// The account of the client that `tx` names, after `tx`.
pub open spec fn account_after(acct: Account, ledger: Map<u32, Transaction>, tx: Transaction) -> Account {
    match requested(acct, ledger, tx) {
        Some(outcome) => or_unchanged(outcome, acct),
        None => acct,
    }
}

/// The history once `tx` has been dispatched: a successful dispute sets its
/// target's flag, a successful resolve clears it.
pub open spec fn marked(acct: Account, ledger: Map<u32, Transaction>, tx: Transaction) -> Map<
    u32,
    Transaction,
> {
    let succeeded = match requested(acct, ledger, tx) {
        Some(outcome) => outcome is Ok,
        None => false,
    };
    if succeeded && tx.tx_type == Type::Dispute {
        flagged(ledger, tx.id, true)
    } else if succeeded && tx.tx_type == Type::Resolve {
        flagged(ledger, tx.id, false)
    } else {
        ledger
    }
}

/// Whether `tx` is kept in the history: deposits and withdrawals are, the
/// instructions that refer to them are not.
pub open spec fn is_recordable(tx: Transaction) -> bool {
    tx.tx_type == Type::Deposit || tx.tx_type == Type::Withdrawal
}

/// The history after `tx`: it is dispatched, then, if it is a deposit or a
/// withdrawal, offered to the history.
pub open spec fn ledger_after(acct: Account, ledger: Map<u32, Transaction>, tx: Transaction) -> Map<
    u32,
    Transaction,
> {
    if is_recordable(tx) {
        recorded(marked(acct, ledger, tx), tx)
    } else {
        marked(acct, ledger, tx)
    }
}

/// The error with which `acct` refused the operation that `tx` asked of it,
/// if it was asked and refused.
pub open spec fn refused(acct: Account, ledger: Map<u32, Transaction>, tx: Transaction) -> Option<
    Error,
> {
    match requested(acct, ledger, tx) {
        Some(Err(e)) => Some(e),
        _ => None,
    }
}

/// The books after applying one instruction.
pub open spec fn step(books: Books, tx: Transaction) -> Books {
    let acct = account_or_empty(books.0, tx.account_id);
    (
        books.0.insert(tx.account_id, account_after(acct, books.1, tx)),
        ledger_after(acct, books.1, tx),
    )
}

/// The error, if any, with which an account refuses `tx` when it is applied to `books`.
pub open spec fn step_refusal(books: Books, tx: Transaction) -> Option<Error> {
    refused(account_or_empty(books.0, tx.account_id), books.1, tx)
}

/// The books after applying `txs` in order.
pub open spec fn run(books: Books, txs: Seq<Transaction>) -> Books
    decreases txs.len(),
{
    if txs.len() == 0 {
        books
    } else {
        step(run(books, txs.drop_last()), txs.last())
    }
}

/// The position in `txs` and the error of each instruction that an account
/// refused, in order, when `txs` is applied to `books`.
pub open spec fn refusals(books: Books, txs: Seq<Transaction>) -> Seq<(usize, Error)>
    decreases txs.len(),
{
    if txs.len() == 0 {
        Seq::empty()
    } else {
        let prev = txs.drop_last();
        match step_refusal(run(books, prev), txs.last()) {
            Some(e) => refusals(books, prev).push((prev.len() as usize, e)),
            None => refusals(books, prev),
        }
    }
}

/// Applies instructions to the accounts, consulting and extending the history.
pub struct Engine<'a> {
    pub tx_ledger: &'a mut TransactionLedger,
    pub accounts: &'a mut AccountsRepository,
}

impl<'a> Engine<'a> {
    pub fn new(tx_ledger: &'a mut TransactionLedger, accounts: &'a mut AccountsRepository) -> (r:
        Engine<'a>)
        ensures
            r.tx_ledger@ == old(tx_ledger)@,
            r.accounts@ == old(accounts)@,
    {
        Engine { tx_ledger, accounts }
    }

    /// The books as the engine sees them.
    pub open spec fn books(&self) -> Books {
        (self.accounts@, self.tx_ledger@)
    }

    /// The account that `tx` addresses, as it stands before `tx`.
    pub open spec fn addressed(&self, tx: Transaction) -> Account {
        account_or_empty(self.accounts@, tx.account_id)
    }

    /// The effect of dispatching `tx`, before it is offered to the history.
    pub open spec fn dispatched(old_engine: Engine, new_engine: Engine, tx: Transaction) -> bool {
        let acct = old_engine.addressed(tx);
        &&& new_engine.accounts@ == old_engine.accounts@.insert(
            tx.account_id,
            account_after(acct, old_engine.tx_ledger@, tx),
        )
        &&& new_engine.tx_ledger@ == marked(acct, old_engine.tx_ledger@, tx)
        &&& new_engine.accounts.wf()
    }

    fn deposit(&mut self, tx: &Transaction) -> (r: Option<Error>)
        requires
            tx.tx_type == Type::Deposit,
            old(self).accounts.wf(),
        ensures
            Engine::dispatched(*old(self), *final(self), *tx),
            r == refused(old(self).addressed(*tx), old(self).tx_ledger@, *tx),
    {
        let account = self.accounts.get_or_create(tx.account_id());
        if self.tx_ledger.get(tx.id()).is_some() {
            return None;
        }
        // A deposit that the total could not hold is dropped, as a refused one is.
        if tx.amount() > u64::MAX - account.total_balance() {
            return None;
        }
        match account.deposit(tx.amount()) {
            Ok(()) => None,
            Err(e) => Some(e),
        }
    }

    fn withdrawal(&mut self, tx: &Transaction) -> (r: Option<Error>)
        requires
            tx.tx_type == Type::Withdrawal,
            old(self).accounts.wf(),
        ensures
            Engine::dispatched(*old(self), *final(self), *tx),
            r == refused(old(self).addressed(*tx), old(self).tx_ledger@, *tx),
    {
        let account = self.accounts.get_or_create(tx.account_id());
        if self.tx_ledger.get(tx.id()).is_some() {
            return None;
        }
        match account.withdrawal(tx.amount()) {
            Ok(()) => None,
            Err(e) => Some(e),
        }
    }

    fn dispute(&mut self, tx: &Transaction) -> (r: Option<Error>)
        requires
            tx.tx_type == Type::Dispute,
            old(self).accounts.wf(),
        ensures
            Engine::dispatched(*old(self), *final(self), *tx),
            r == refused(old(self).addressed(*tx), old(self).tx_ledger@, *tx),
    {
        let account = self.accounts.get_or_create(tx.account_id());
        if let Some(old_tx) = self.tx_ledger.get(tx.id()) {
            if old_tx.is_dispute() || account.client_id() != old_tx.account_id() {
                return None;
            }
            let amount = old_tx.amount();
            if let Err(e) = account.dispute(amount) {
                return Some(e);
            }
            self.tx_ledger.dispute_tx(tx.id());
        }
        None
    }

    fn resolve(&mut self, tx: &Transaction) -> (r: Option<Error>)
        requires
            tx.tx_type == Type::Resolve,
            old(self).accounts.wf(),
        ensures
            Engine::dispatched(*old(self), *final(self), *tx),
            r == refused(old(self).addressed(*tx), old(self).tx_ledger@, *tx),
    {
        let account = self.accounts.get_or_create(tx.account_id());
        if let Some(old_tx) = self.tx_ledger.get(tx.id()) {
            if !old_tx.is_dispute() || account.client_id() != old_tx.account_id() {
                return None;
            }
            let amount = old_tx.amount();
            if let Err(e) = account.resolve(amount) {
                return Some(e);
            }
            self.tx_ledger.undispute_tx(tx.id());
        }
        None
    }

    fn chargeback(&mut self, tx: &Transaction) -> (r: Option<Error>)
        requires
            tx.tx_type == Type::Chargeback,
            old(self).accounts.wf(),
        ensures
            Engine::dispatched(*old(self), *final(self), *tx),
            r == refused(old(self).addressed(*tx), old(self).tx_ledger@, *tx),
    {
        let account = self.accounts.get_or_create(tx.account_id());
        if let Some(old_tx) = self.tx_ledger.get(tx.id()) {
            if !old_tx.is_dispute() || account.client_id() != old_tx.account_id() {
                return None;
            }
            return match account.chargeback(old_tx.amount()) {
                Ok(()) => None,
                Err(e) => Some(e),
            };
        }
        None
    }

    /// Applies `input_tx` in order: each instruction is dispatched by kind,
    /// then deposits and withdrawals are offered to the history. Returns the
    /// position and error of every instruction that an account refused; such
    /// an instruction has no effect, and processing goes on.
    pub fn process(&mut self, input_tx: &[Transaction]) -> (r: Vec<(usize, Error)>)
        requires
            old(self).accounts.wf(),
        ensures
            final(self).books() == run(old(self).books(), input_tx@),
            final(self).accounts.wf(),
            r@ == refusals(old(self).books(), input_tx@),
    {
        let ghost start = self.books();
        let mut refused_at: Vec<(usize, Error)> = Vec::new();
        let mut i: usize = 0;
        while i < input_tx.len()
            invariant
                i <= input_tx@.len(),
                self.books() == run(start, input_tx@.take(i as int)),
                refused_at@ == refusals(start, input_tx@.take(i as int)),
                self.accounts.wf(),
            decreases input_tx@.len() - i,
        {
            let tx = &input_tx[i];
            let outcome = match tx.tx_type() {
                Type::Deposit => self.deposit(tx),
                Type::Withdrawal => self.withdrawal(tx),
                Type::Dispute => self.dispute(tx),
                Type::Resolve => self.resolve(tx),
                Type::Chargeback => self.chargeback(tx),
            };
            match tx.tx_type() {
                Type::Deposit | Type::Withdrawal => self.tx_ledger.append(tx),
                _ => {},
            }
            if let Some(e) = outcome {
                refused_at.push((i, e));
            }
            assert(input_tx@.take(i + 1).drop_last() =~= input_tx@.take(i as int));
            i = i + 1;
        }
        assert(input_tx@.take(i as int) =~= input_tx@);
        refused_at
    }
}

} // verus!
