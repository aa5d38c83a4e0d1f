use std::collections::HashMap;
use vstd::prelude::*;

verus! {

broadcast use vstd::std_specs::hash::group_hash_axioms;

/// The kind of an instruction.
#[derive(Debug, Clone, Copy, PartialEq, Eq, Structural)]
pub enum Type {
    Deposit,
    Withdrawal,
    Dispute,
    Resolve,
    Chargeback,
}

/// One instruction.
///
/// For a deposit or a withdrawal `id` is the instruction's own identity; for
/// a dispute, a resolve or a chargeback it names the deposit or withdrawal
/// that the instruction refers to. `amount` is in ten-thousandths of a unit
/// and only means something for deposits and withdrawals. `is_dispute` marks
/// a recorded instruction that is currently under dispute.
#[derive(Debug, Clone, Copy, PartialEq, Eq, Structural)]
pub struct Transaction {
    pub tx_type: Type,
    pub account_id: u16,
    pub id: u32,
    pub amount: u64,
    pub is_dispute: bool,
}

impl Transaction {
    pub fn new(id: u32, tx_type: Type, account_id: u16, amount: u64) -> (r: Transaction)
        ensures
            r == (Transaction { tx_type, account_id, id, amount, is_dispute: false }),
    {
        Transaction { tx_type, account_id, id, amount, is_dispute: false }
    }

    pub fn tx_type(&self) -> (r: Type)
        ensures
            r == self.tx_type,
    {
        self.tx_type
    }

    pub fn amount(&self) -> (r: u64)
        ensures
            r == self.amount,
    {
        self.amount
    }

    pub fn id(&self) -> (r: u32)
        ensures
            r == self.id,
    {
        self.id
    }

    pub fn account_id(&self) -> (r: u16)
        ensures
            r == self.account_id,
    {
        self.account_id
    }

    pub fn is_dispute(&self) -> (r: bool)
        ensures
            r == self.is_dispute,
    {
        self.is_dispute
    }
}

/// The first instruction seen under each id.
pub struct TransactionLedger {
    transactions: HashMap<u32, Transaction>,
}

impl View for TransactionLedger {
    type V = Map<u32, Transaction>;

    closed spec fn view(&self) -> Map<u32, Transaction> {
        self.transactions@
    }
}

/// The history after `tx` is offered to it: first write wins.
pub open spec fn recorded(m: Map<u32, Transaction>, tx: Transaction) -> Map<u32, Transaction> {
    if m.contains_key(tx.id) {
        m
    } else {
        m.insert(tx.id, tx)
    }
}

/// The history with the disputed flag of record `id` set to `flag`, if there is one.
pub open spec fn flagged(m: Map<u32, Transaction>, id: u32, flag: bool) -> Map<u32, Transaction> {
    if m.contains_key(id) {
        m.insert(id, Transaction { is_dispute: flag, ..m[id] })
    } else {
        m
    }
}

impl TransactionLedger {
    pub fn new() -> (r: TransactionLedger)
        ensures
            r@ == Map::<u32, Transaction>::empty(),
    {
        TransactionLedger { transactions: HashMap::new() }
    }

    /// Records `tx` unless an instruction with its id is already recorded.
    pub fn append(&mut self, tx: &Transaction)
        ensures
            final(self)@ == recorded(old(self)@, *tx),
    {
        if !self.transactions.contains_key(&tx.id) {
            self.transactions.insert(tx.id, *tx);
        }
    }

    pub fn get(&self, tx_id: u32) -> (r: Option<&Transaction>)
        ensures
            match r {
                Some(t) => self@.contains_key(tx_id) && *t == self@[tx_id],
                None => !self@.contains_key(tx_id),
            },
    {
        self.transactions.get(&tx_id)
    }

    fn set_dispute_flag(&mut self, tx_id: u32, flag: bool) -> (r: bool)
        ensures
            r == old(self)@.contains_key(tx_id),
            final(self)@ == flagged(old(self)@, tx_id, flag),
    {
        match self.transactions.get(&tx_id) {
            Some(t) => {
                let mut updated = *t;
                updated.is_dispute = flag;
                self.transactions.insert(tx_id, updated);
                true
            },
            None => false,
        }
    }

    /// Marks record `tx_id` as disputed; returns whether such a record exists.
    pub fn dispute_tx(&mut self, tx_id: u32) -> (r: bool)
        ensures
            r == old(self)@.contains_key(tx_id),
            final(self)@ == flagged(old(self)@, tx_id, true),
    {
        self.set_dispute_flag(tx_id, true)
    }

    /// Clears the disputed mark of record `tx_id`; returns whether such a record exists.
    pub fn undispute_tx(&mut self, tx_id: u32) -> (r: bool)
        ensures
            r == old(self)@.contains_key(tx_id),
            final(self)@ == flagged(old(self)@, tx_id, false),
    {
        self.set_dispute_flag(tx_id, false)
    }
}

impl Default for TransactionLedger {
    fn default() -> (r: TransactionLedger)
        ensures
            r@ == Map::<u32, Transaction>::empty(),
    {
        TransactionLedger::new()
    }
}

} // verus!
