use crate::account::{account_or_empty, accounts_wf, Account, Error};
use crate::engine::{account_after, is_recordable, requested, run, step, Books};
use crate::transaction::{Transaction, Type};
use vstd::prelude::*;

verus! {

/// The accounts with client `id`'s account created, empty, if it was missing.
pub open spec fn with_account(m: Map<u16, Account>, id: u16) -> Map<u16, Account> {
    m.insert(id, account_or_empty(m, id))
}

/// The instructions before `txs[n]`, then `txs[n]` itself, make up the first `n + 1`.
proof fn lemma_take_last(txs: Seq<Transaction>, n: int)
    requires
        0 <= n < txs.len(),
    ensures
        txs.take(n + 1).drop_last() == txs.take(n),
        txs.take(n + 1).last() == txs[n],
{
    assert(txs.take(n + 1).drop_last() =~= txs.take(n));
}

/// One instruction keeps every account consistent.
pub proof fn lemma_step_keeps_accounts_wf(books: Books, tx: Transaction)
    requires
        accounts_wf(books.0),
    ensures
        accounts_wf(step(books, tx).0),
{
    let acct = account_or_empty(books.0, tx.account_id);
    assert(acct.wf() && acct.client_id == tx.account_id);
    let after = step(books, tx).0;
    assert forall|k: u16| #[trigger] after.contains_key(k) implies after[k].client_id == k
        && after[k].wf() by {
        if k != tx.account_id {
            assert(books.0.contains_key(k));
        }
    }
}

/// After any sequence of instructions every account is stored under its own
/// client id, and its total is its available plus its held balance; both of
/// those are unsigned, so never negative.
pub proof fn lemma_run_keeps_accounts_wf(books: Books, txs: Seq<Transaction>)
    requires
        accounts_wf(books.0),
    ensures
        accounts_wf(run(books, txs).0),
    decreases txs.len(),
{
    if txs.len() > 0 {
        lemma_run_keeps_accounts_wf(books, txs.drop_last());
        lemma_step_keeps_accounts_wf(run(books, txs.drop_last()), txs.last());
    }
}

/// Once recorded, an id stays recorded, and every deposit or withdrawal
/// applied is recorded under its id.
pub proof fn lemma_run_keeps_records(books: Books, txs: Seq<Transaction>)
    ensures
        forall|id: u32| books.1.contains_key(id) ==> #[trigger] run(books, txs).1.contains_key(id),
        forall|i: int|
            0 <= i < txs.len() && is_recordable(txs[i]) ==> run(books, txs).1.contains_key(
                #[trigger] txs[i].id,
            ),
    decreases txs.len(),
{
    if txs.len() > 0 {
        let prev = txs.drop_last();
        lemma_run_keeps_records(books, prev);
        assert forall|i: int| 0 <= i < txs.len() && is_recordable(txs[i]) implies run(
            books,
            txs,
        ).1.contains_key(
            #[trigger] txs[i].id,
        ) by {
            if i < txs.len() - 1 {
                assert(prev[i] == txs[i]);
                assert(run(books, prev).1.contains_key(prev[i].id));
            }
        }
    }
}

/// A deposit or withdrawal whose id is already recorded changes no balance
/// and leaves the history as it is.
pub proof fn lemma_duplicate_ignored(books: Books, tx: Transaction)
    requires
        tx.tx_type == Type::Deposit || tx.tx_type == Type::Withdrawal,
        books.1.contains_key(tx.id),
    ensures
        step(books, tx) == (with_account(books.0, tx.account_id), books.1),
{
}

/// Of several deposits or withdrawals under one id, only the first can have
/// an effect: when `txs[j]` repeats the id of an earlier deposit or
/// withdrawal `txs[i]`, applying it changes no balance and leaves the history
/// as it is.
pub proof fn lemma_applied_at_most_once(books: Books, txs: Seq<Transaction>, i: int, j: int)
    requires
        0 <= i < j < txs.len(),
        txs[i].id == txs[j].id,
        is_recordable(txs[i]),
        txs[j].tx_type == Type::Deposit || txs[j].tx_type == Type::Withdrawal,
    ensures
        run(books, txs.take(j + 1)) == (
            with_account(run(books, txs.take(j)).0, txs[j].account_id),
            run(books, txs.take(j)).1,
        ),
{
    lemma_take_last(txs, j);
    let before = txs.take(j);
    lemma_run_keeps_records(books, before);
    assert(before[i] == txs[i]);
    assert(run(books, before).1.contains_key(before[i].id));
    lemma_duplicate_ignored(run(books, before), txs[j]);
}

/// A dispute whose target id was never recorded changes no balance and
/// leaves the history as it is.
pub proof fn lemma_dispute_of_unknown_id(books: Books, tx: Transaction)
    requires
        tx.tx_type == Type::Dispute,
        !books.1.contains_key(tx.id),
    ensures
        step(books, tx) == (with_account(books.0, tx.account_id), books.1),
{
}

/// Disputing an id a second time in a row has no effect: the hold is applied
/// at most once.
pub proof fn lemma_dispute_twice(books: Books, tx: Transaction)
    requires
        tx.tx_type == Type::Dispute,
    ensures
        step(step(books, tx), tx) == step(books, tx),
{
    let once = step(books, tx);
    let twice = step(once, tx);
    assert(once.0.contains_key(tx.account_id));
    assert(twice.0 =~= once.0);
}

/// Whether `tx` changes the balances of the account it addresses.
pub open spec fn takes_effect(books: Books, tx: Transaction) -> bool {
    match requested(account_or_empty(books.0, tx.account_id), books.1, tx) {
        Some(outcome) => outcome is Ok,
        None => false,
    }
}

/// Of two disputes of the same id in a row, at most one places a hold.
pub proof fn lemma_dispute_holds_once(books: Books, tx: Transaction)
    requires
        tx.tx_type == Type::Dispute,
    ensures
        !(takes_effect(books, tx) && takes_effect(step(books, tx), tx)),
{
}

/// A resolve whose target is unknown or not under dispute changes no balance
/// and leaves the history as it is.
pub proof fn lemma_resolve_without_dispute(books: Books, tx: Transaction)
    requires
        tx.tx_type == Type::Resolve,
        !(books.1.contains_key(tx.id) && books.1[tx.id].is_dispute),
    ensures
        step(books, tx) == (with_account(books.0, tx.account_id), books.1),
{
}

/// A resolve or chargeback naming another client than the disputed
/// instruction's is refused: no balance changes, the history stays as it is.
pub proof fn lemma_settle_other_client(books: Books, tx: Transaction)
    requires
        tx.tx_type == Type::Resolve || tx.tx_type == Type::Chargeback,
        books.1.contains_key(tx.id),
        books.1[tx.id].account_id != tx.account_id,
    ensures
        step(books, tx) == (with_account(books.0, tx.account_id), books.1),
{
}

/// A successful chargeback locks the account.
pub proof fn lemma_chargeback_locks(acct: Account, amount: u64)
    requires
        acct.charged_back(amount) is Ok,
    ensures
        acct.charged_back(amount)->Ok_0.locked,
{
}

/// A locked account refuses every operation with `LockedAccount`.
pub proof fn lemma_locked_refuses_all(acct: Account, amount: u64)
    requires
        acct.locked,
    ensures
        acct.deposited(amount) == Err::<Account, Error>(Error::LockedAccount),
        acct.withdrawn(amount) == Err::<Account, Error>(Error::LockedAccount),
        acct.disputed(amount) == Err::<Account, Error>(Error::LockedAccount),
        acct.resolved(amount) == Err::<Account, Error>(Error::LockedAccount),
        acct.charged_back(amount) == Err::<Account, Error>(Error::LockedAccount),
{
}

/// Every operation that an instruction forwards to a locked account is
/// refused with `LockedAccount`, and the account stays as it was.
pub proof fn lemma_locked_account_unchanged_by_step(
    acct: Account,
    ledger: Map<u32, Transaction>,
    tx: Transaction,
)
    requires
        acct.locked,
    ensures
        requested(acct, ledger, tx) is Some ==> requested(acct, ledger, tx) == Some(
            Err::<Account, Error>(Error::LockedAccount),
        ),
        account_after(acct, ledger, tx) == acct,
{
}

/// A locked account never changes again, whatever instructions follow.
pub proof fn lemma_locked_is_permanent(books: Books, txs: Seq<Transaction>, client: u16)
    requires
        books.0.contains_key(client),
        books.0[client].locked,
    ensures
        run(books, txs).0.contains_key(client),
        run(books, txs).0[client] == books.0[client],
    decreases txs.len(),
{
    if txs.len() > 0 {
        lemma_locked_is_permanent(books, txs.drop_last(), client);
    }
}

/// Whether an instruction with id `id` occurs in `txs`.
pub open spec fn has_id(txs: Seq<Transaction>, id: u32) -> bool {
    exists|i: int| 0 <= i < txs.len() && txs[i].id == id
}

/// Every instruction of `txs` is a deposit.
pub open spec fn all_deposits(txs: Seq<Transaction>) -> bool {
    forall|i: int| 0 <= i < txs.len() ==> (#[trigger] txs[i]).tx_type == Type::Deposit
}

/// The sum of the amounts in `txs`.
pub open spec fn amounts_sum(txs: Seq<Transaction>) -> int
    decreases txs.len(),
{
    if txs.len() == 0 {
        0
    } else {
        amounts_sum(txs.drop_last()) + txs.last().amount
    }
}

/// The sum of the amounts in `txs` addressed to `client`, each id counted at
/// its first occurrence only.
pub open spec fn first_amounts(txs: Seq<Transaction>, client: u16) -> int
    decreases txs.len(),
{
    if txs.len() == 0 {
        0
    } else {
        let prev = txs.drop_last();
        let t = txs.last();
        first_amounts(prev, client) + if t.account_id == client && !has_id(prev, t.id) {
            t.amount as int
        } else {
            0int
        }
    }
}

/// Deposits alone, applied to empty books: the history holds exactly their
/// ids, and each client's available and total balances are the sum of its
/// deposits with each id counted once, however often it recurs; nothing is
/// held or locked. The amounts must sum to no more than `u64::MAX`, so that
/// no deposit is dropped for want of room.
pub proof fn lemma_repeated_ids_count_once(txs: Seq<Transaction>)
    requires
        all_deposits(txs),
        amounts_sum(txs) <= u64::MAX,
    ensures
        forall|id: u32|
            #[trigger] run((Map::empty(), Map::empty()), txs).1.contains_key(id) <==> has_id(
                txs,
                id,
            ),
        forall|c: u16| #[trigger]
            run((Map::empty(), Map::empty()), txs).0.contains_key(c) ==> {
                let a = run((Map::empty(), Map::empty()), txs).0[c];
                &&& a.held_balance == 0
                &&& !a.locked
                &&& a.available_balance == first_amounts(txs, c)
                &&& a.total_balance == first_amounts(txs, c)
            },
        forall|c: u16|
            !run((Map::empty(), Map::empty()), txs).0.contains_key(c) ==> #[trigger] first_amounts(
                txs,
                c,
            ) == 0,
        forall|c: u16| 0 <= #[trigger] first_amounts(txs, c) <= amounts_sum(txs),
    decreases txs.len(),
{
    if txs.len() > 0 {
        let prev = txs.drop_last();
        let t = txs.last();
        assert(all_deposits(prev)) by {
            assert forall|i: int| 0 <= i < prev.len() implies (#[trigger] prev[i]).tx_type
                == Type::Deposit by {
                assert(prev[i] == txs[i]);
            }
        }
        assert(t.tx_type == Type::Deposit) by {
            assert(txs[txs.len() - 1] == t);
        }
        lemma_repeated_ids_count_once(prev);
        assert(amounts_sum(prev) >= 0) by {
            assert(first_amounts(prev, 0) >= 0);
        }
        assert forall|id: u32| has_id(txs, id) <==> (has_id(prev, id) || t.id == id) by {
            if has_id(txs, id) {
                let i = choose|i: int| 0 <= i < txs.len() && txs[i].id == id;
                if i < prev.len() {
                    assert(prev[i] == txs[i]);
                }
            }
            if has_id(prev, id) {
                let i = choose|i: int| 0 <= i < prev.len() && prev[i].id == id;
                assert(prev[i] == txs[i]);
            }
            if t.id == id {
                assert(txs[txs.len() - 1].id == id);
            }
        }
        let b = run((Map::empty(), Map::empty()), prev);
        assert(b.1.contains_key(t.id) == has_id(prev, t.id));
        let acct = account_or_empty(b.0, t.account_id);
        assert(acct.total_balance == first_amounts(prev, t.account_id));
        assert forall|c: u16| 0 <= #[trigger] first_amounts(txs, c) <= amounts_sum(txs) by {
            assert(0 <= first_amounts(prev, c) <= amounts_sum(prev));
        }
        assert forall|c: u16|
            !run((Map::empty(), Map::empty()), txs).0.contains_key(c) implies #[trigger] first_amounts(
            txs,
            c,
        ) == 0 by {
            assert(c != t.account_id);
            assert(!b.0.contains_key(c));
            assert(first_amounts(prev, c) == 0);
        }
    }
}

} // verus!
