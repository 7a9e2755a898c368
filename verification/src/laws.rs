//! The engine's financial laws, proved of the state machine itself: balance
//! conservation, frozen accounts, no overdraft, and settlement on unknown
//! disputes being a no-op.

use vstd::prelude::*;

use crate::account::Account;
use crate::ledger::{account_of, accounts_view, open_dispute, run, step, LedgerState};
use crate::transaction::{Transaction, TxKind};

verus! {

/// Every account of `s` — stored or still implicit — has
/// `total == available + held`.
pub open spec fn all_balanced(s: LedgerState) -> bool {
    forall|c: u16| #[trigger] account_of(s, c).balanced()
}

/// One step keeps every account balanced: `total == available + held` is
/// preserved by each of the five kinds, and by every silent no-op.
pub proof fn lemma_step_balanced(s: LedgerState, t: Transaction)
    requires
        all_balanced(s),
    ensures
        all_balanced(step(s, t)),
{
    assert forall|c: u16| #[trigger] account_of(step(s, t), c).balanced() by {
        assert(account_of(s, c).balanced());
        assert(account_of(s, t.client).balanced());
    }
}

/// At every point in processing — after any prefix of the input — every
/// account satisfies `total == available + held`.
pub proof fn lemma_run_balanced(ts: Seq<Transaction>)
    ensures
        all_balanced(run(ts)),
    decreases ts.len(),
{
    if ts.len() > 0 {
        lemma_run_balanced(ts.drop_last());
        lemma_step_balanced(run(ts.drop_last()), ts.last());
    }
}

/// A step changes no account but its own client's.
pub proof fn lemma_step_untouched(s: LedgerState, t: Transaction, c: u16)
    requires
        c != t.client,
    ensures
        account_of(step(s, t), c) == account_of(s, c),
{
}

/// A locked account is frozen for good: one more transaction — whatever it
/// is, whoever it targets — leaves every field of that account as it was.
pub proof fn lemma_step_locked_frozen(s: LedgerState, t: Transaction, c: u16)
    requires
        account_of(s, c).locked,
    ensures
        account_of(step(s, t), c) == account_of(s, c),
{
}

/// Once an account is locked after some prefix of the input, the whole rest
/// of the input changes none of its fields.
pub proof fn lemma_run_locked_frozen(prefix: Seq<Transaction>, rest: Seq<Transaction>, c: u16)
    requires
        account_of(run(prefix), c).locked,
    ensures
        account_of(run(prefix + rest), c) == account_of(run(prefix), c),
    decreases rest.len(),
{
    if rest.len() == 0 {
        assert(prefix + rest =~= prefix);
    } else {
        let butlast = rest.drop_last();
        lemma_run_locked_frozen(prefix, butlast, c);
        assert((prefix + rest).drop_last() =~= prefix + butlast);
        assert((prefix + rest).last() == rest.last());
        assert(run(prefix + rest) == step(run(prefix + butlast), rest.last()));
        lemma_step_locked_frozen(run(prefix + butlast), rest.last(), c);
    }
}

/// A withdrawal never overdraws: it either leaves `available` exactly as it
/// was (the silent no-op on short funds, a missing amount, or a locked
/// account) or takes effect and leaves `available` non-negative.
pub proof fn lemma_withdrawal_no_overdraft(s: LedgerState, t: Transaction)
    requires
        t.tx_type == TxKind::Withdrawal,
    ensures
        account_of(step(s, t), t.client).available == account_of(s, t.client).available
            || account_of(step(s, t), t.client).available >= 0,
{
}

/// A resolve or chargeback that refers to an unknown transaction, to one
/// with no open dispute, or to another client's transaction is a complete
/// no-op: every account keeps every field, and the records are untouched.
pub proof fn lemma_settle_without_dispute_noop(s: LedgerState, t: Transaction)
    requires
        t.tx_type == TxKind::Resolve || t.tx_type == TxKind::Chargeback,
        !open_dispute(s, t.client, t.tx),
    ensures
        forall|c: u16| #[trigger] account_of(step(s, t), c) == account_of(s, c),
        step(s, t).records == s.records,
{
    assert forall|c: u16| #[trigger] account_of(step(s, t), c) == account_of(s, c) by {
        if c != t.client {
            lemma_step_untouched(s, t, c);
        }
    }
}

/// The balance invariant carried down to an executable account table: every
/// account a table holds after a run — such as the one
/// `process_transactions` returns — has `total == available + held` in its
/// stored fields.
pub proof fn lemma_output_balanced(am: Map<u16, Account>, ts: Seq<Transaction>, c: u16)
    requires
        accounts_view(am) == run(ts).accounts,
        am.dom().contains(c),
    ensures
        am[c].total == am[c].available + am[c].held,
{
    lemma_run_balanced(ts);
    assert(accounts_view(am).dom().contains(c));
    assert(account_of(run(ts), c) == am[c]@);
    assert(account_of(run(ts), c).balanced());
}

} // verus!
