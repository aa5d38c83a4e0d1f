use crate::amount::{amount_of, parse_amount};
use crate::transaction::{Transaction, Type};
use vstd::prelude::*;

verus! {

/// The instruction that a record with these fields describes, where it is
/// well formed: a deposit or withdrawal needs an amount; for the other kinds
/// the amount is ignored. A missing amount is zero.
pub open spec fn record_of(tx_type: Type, client: u16, id: u32, amount: Option<Seq<u8>>) -> Option<
    Transaction,
> {
    let needs_amount = tx_type == Type::Deposit || tx_type == Type::Withdrawal;
    let value = match amount {
        None => if needs_amount {
            None
        } else {
            Some(0u64)
        },
        Some(text) => if needs_amount {
            amount_of(text)
        } else {
            Some(0u64)
        },
    };
    match value {
        Some(v) => Some(
            Transaction { tx_type, account_id: client, id, amount: v, is_dispute: false },
        ),
        None => None,
    }
}

/// Turns the fields of input records into instructions.
pub struct Parser {}

impl Parser {
    /// Builds an instruction from the fields of an input record; `None` for a
    /// malformed record, which is to be dropped.
    pub fn parse_record(tx_type: Type, client: u16, id: u32, amount: Option<&[u8]>) -> (r: Option<
        Transaction,
    >)
        ensures
            r == record_of(
                tx_type,
                client,
                id,
                match amount {
                    Some(text) => Some(text@),
                    None => None,
                },
            ),
    {
        let needs_amount = match tx_type {
            Type::Deposit | Type::Withdrawal => true,
            _ => false,
        };
        if !needs_amount {
            return Some(Transaction::new(id, tx_type, client, 0));
        }
        match amount {
            Some(text) => match parse_amount(text) {
                Some(v) => Some(Transaction::new(id, tx_type, client, v)),
                None => None,
            },
            None => None,
        }
    }
}

} // verus!
