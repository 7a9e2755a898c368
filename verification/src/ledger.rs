use vstd::prelude::*;

use std::collections::HashMap;

use crate::account::{Account, AccountView};
use crate::transaction::{Transaction, TxKind};

verus! {

broadcast use vstd::std_specs::hash::group_hash_axioms;

/// Largest amount a single transaction can carry.
pub const AMOUNT_LIMIT: u32 = 0xffff_ffff;

/// Headroom kept in every balance so that applying one more transaction can
/// never overflow the balance type.
pub const BALANCE_LIMIT: i128 = i128::MAX - 0xffff_ffff;

/// What the engine retains for every applied deposit or withdrawal, keyed by
/// transaction id, so that a later dispute can find the client and amount.
/// `disputed` marks an open dispute; resolve and chargeback clear it, and the
/// record itself is kept for the lifetime of the run.
#[derive(Clone, Copy, Debug, PartialEq, Eq, Structural)]
pub struct TxRecord {
    /// The client whose account the recorded transaction touched.
    pub client: u16,
    /// The recorded fixed-point amount, in minor units.
    pub amount: u32,
    /// Whether a dispute on this transaction is currently open.
    pub disputed: bool,
}

/// The engine's whole state, as the contracts speak of it: every account
/// seen so far, and the dispute-eligible records.
#[verifier::ext_equal]
pub struct LedgerState {
    pub accounts: Map<u16, AccountView>,
    pub records: Map<u32, TxRecord>,
}

/// The state before any transaction has been processed.
pub open spec fn init_state() -> LedgerState {
    LedgerState { accounts: Map::empty(), records: Map::empty() }
}

/// The account `client` has in `s`: the stored one, or the all-zero unlocked
/// account a client starts with before any transaction names it.
pub open spec fn account_of(s: LedgerState, client: u16) -> AccountView {
    if s.accounts.dom().contains(client) {
        s.accounts[client]
    } else {
        AccountView::initial(client)
    }
}

/// `s` with the account for `client` created if it was absent, and nothing
/// else changed: what processing a transaction leaves behind when the
/// transaction itself applies no change.
pub open spec fn with_account(s: LedgerState, client: u16) -> LedgerState {
    LedgerState { accounts: s.accounts.insert(client, account_of(s, client)), ..s }
}

/// Whether `s` holds an open dispute on `tx` raised for `client`: the record
/// exists, belongs to that client, and its dispute is open.
pub open spec fn open_dispute(s: LedgerState, client: u16, tx: u32) -> bool {
    &&& s.records.dom().contains(tx)
    &&& s.records[tx].client == client
    &&& s.records[tx].disputed
}

/// How one transaction transforms the engine state. This is the reference
/// the executable engine is proved against.
///
/// The account for `t.client` is created on first sight whatever the
/// transaction asks for. A locked account ignores everything. A deposit or
/// withdrawal without an amount, a withdrawal short of funds, a dispute on
/// an unknown or foreign transaction, a resolve or chargeback without a
/// matching open dispute, and an unrecognized kind all leave the state as it
/// was (but for the created account): the engine degrades inapplicable
/// records to silent no-ops rather than failing the run.
pub open spec fn step(s: LedgerState, t: Transaction) -> LedgerState {
    let a = account_of(s, t.client);
    let created = with_account(s, t.client);
    if a.locked {
        created
    } else {
        match t.tx_type {
            TxKind::Deposit => match t.amount {
                Some(x) => LedgerState {
                    accounts: s.accounts.insert(
                        t.client,
                        AccountView { available: a.available + x, total: a.total + x, ..a },
                    ),
                    records: s.records.insert(
                        t.tx,
                        TxRecord { client: t.client, amount: x, disputed: false },
                    ),
                },
                None => created,
            },
            TxKind::Withdrawal => match t.amount {
                Some(x) => if a.available >= x {
                    LedgerState {
                        accounts: s.accounts.insert(
                            t.client,
                            AccountView { available: a.available - x, total: a.total - x, ..a },
                        ),
                        records: s.records.insert(
                            t.tx,
                            TxRecord { client: t.client, amount: x, disputed: false },
                        ),
                    }
                } else {
                    created
                },
                None => created,
            },
            TxKind::Dispute => if s.records.dom().contains(t.tx) && s.records[t.tx].client
                == t.client {
                let r = s.records[t.tx];
                LedgerState {
                    accounts: s.accounts.insert(
                        t.client,
                        AccountView { available: a.available - r.amount, held: a.held + r.amount, ..a },
                    ),
                    records: s.records.insert(t.tx, TxRecord { disputed: true, ..r }),
                }
            } else {
                created
            },
            TxKind::Resolve => if open_dispute(s, t.client, t.tx) {
                let r = s.records[t.tx];
                LedgerState {
                    accounts: s.accounts.insert(
                        t.client,
                        AccountView { available: a.available + r.amount, held: a.held - r.amount, ..a },
                    ),
                    records: s.records.insert(t.tx, TxRecord { disputed: false, ..r }),
                }
            } else {
                created
            },
            TxKind::Chargeback => if open_dispute(s, t.client, t.tx) {
                let r = s.records[t.tx];
                LedgerState {
                    accounts: s.accounts.insert(
                        t.client,
                        AccountView {
                            held: a.held - r.amount,
                            total: a.total - r.amount,
                            locked: true,
                            ..a
                        },
                    ),
                    records: s.records.insert(t.tx, TxRecord { disputed: false, ..r }),
                }
            } else {
                created
            },
            TxKind::Unrecognized => created,
        }
    }
}

/// The state after folding a whole sequence of transactions, in order, over
/// the initial state.
pub open spec fn run(ts: Seq<Transaction>) -> LedgerState
    decreases ts.len(),
{
    if ts.len() == 0 {
        init_state()
    } else {
        step(run(ts.drop_last()), ts.last())
    }
}

/// The model of an executable account table: each stored account, viewed.
pub open spec fn accounts_view(m: Map<u16, Account>) -> Map<u16, AccountView> {
    m.map_values(|a: Account| a@)
}

/// The model of the engine's executable state.
pub open spec fn state_of(am: Map<u16, Account>, rm: Map<u32, TxRecord>) -> LedgerState {
    LedgerState { accounts: accounts_view(am), records: rm }
}

/// Every account of `s` — stored or still implicit — has all balances within
/// `bound` of zero.
pub open spec fn state_bounded(s: LedgerState, bound: int) -> bool {
    forall|c: u16| #[trigger] account_of(s, c).bounded(bound)
}

/// A bound on every balance stays a bound when widened.
pub proof fn lemma_bounded_mono(s: LedgerState, b1: int, b2: int)
    requires
        state_bounded(s, b1),
        b1 <= b2,
    ensures
        state_bounded(s, b2),
{
    assert forall|c: u16| #[trigger] account_of(s, c).bounded(b2) by {
        assert(account_of(s, c).bounded(b1));
    }
}

/// One step moves every balance by at most the amount limit: from a state
/// bounded by `b`, the next state is bounded by `b` plus that limit.
pub proof fn lemma_step_bounded(s: LedgerState, t: Transaction, b: int)
    requires
        0 <= b,
        state_bounded(s, b),
    ensures
        state_bounded(step(s, t), b + AMOUNT_LIMIT),
{
    assert forall|c: u16| #[trigger] account_of(step(s, t), c).bounded(b + AMOUNT_LIMIT) by {
        assert(account_of(s, c).bounded(b));
        assert(account_of(s, t.client).bounded(b));
    }
}

/// Storing an account is, in the model, inserting its view.
proof fn lemma_view_insert(m: Map<u16, Account>, c: u16, a: Account)
    ensures
        accounts_view(m.insert(c, a)) == accounts_view(m).insert(c, a@),
{
    assert(accounts_view(m.insert(c, a)) =~= accounts_view(m).insert(c, a@));
}

/// Applies one transaction to the engine's tables, exactly as `step` says:
/// afterwards the tables model `step` of the state they modelled before.
///
/// The bound asked of the incoming state is the machine limit that keeps
/// every balance update inside the balance type; the engine's fold maintains
/// a far stronger bound at all times.
pub fn apply_transaction(
    accounts: &mut HashMap<u16, Account>,
    records: &mut HashMap<u32, TxRecord>,
    t: &Transaction,
)
    requires
        state_bounded(state_of(old(accounts)@, old(records)@), BALANCE_LIMIT as int),
    ensures
        state_of(final(accounts)@, final(records)@) == step(
            state_of(old(accounts)@, old(records)@),
            *t,
        ),
{
    let ghost s0 = state_of(old(accounts)@, old(records)@);
    let client = t.client;
    let a: Account = match accounts.get(&client) {
        Some(acc) => *acc,
        None => Account::new(client),
    };
    proof {
        assert(account_of(s0, client).bounded(BALANCE_LIMIT as int));
        assert(a@ == account_of(s0, client));
    }
    accounts.insert(client, a);
    proof {
        lemma_view_insert(old(accounts)@, client, a);
        assert(accounts_view(accounts@) == with_account(s0, client).accounts);
    }
    if a.locked {
        proof {
            assert(state_of(accounts@, records@) =~= step(s0, *t));
        }
        return ;
    }
    match t.tx_type {
        TxKind::Deposit => {
            if let Some(x) = t.amount {
                let updated = Account {
                    available: a.available + x as i128,
                    total: a.total + x as i128,
                    ..a
                };
                accounts.insert(client, updated);
                records.insert(t.tx, TxRecord { client, amount: x, disputed: false });
                proof {
                    lemma_view_insert(old(accounts)@.insert(client, a), client, updated);
                    assert(accounts_view(accounts@) =~= step(s0, *t).accounts);
                    assert(state_of(accounts@, records@) =~= step(s0, *t));
                }
            }
        },
        TxKind::Withdrawal => {
            if let Some(x) = t.amount {
                if a.available >= x as i128 {
                    let updated = Account {
                        available: a.available - x as i128,
                        total: a.total - x as i128,
                        ..a
                    };
                    accounts.insert(client, updated);
                    records.insert(t.tx, TxRecord { client, amount: x, disputed: false });
                    proof {
                        lemma_view_insert(old(accounts)@.insert(client, a), client, updated);
                        assert(accounts_view(accounts@) =~= step(s0, *t).accounts);
                        assert(state_of(accounts@, records@) =~= step(s0, *t));
                    }
                }
            }
        },
        TxKind::Dispute => {
            let rec: Option<TxRecord> = match records.get(&t.tx) {
                Some(r) => Some(*r),
                None => None,
            };
            if let Some(r) = rec {
                if r.client == client {
                    let updated = Account {
                        available: a.available - r.amount as i128,
                        held: a.held + r.amount as i128,
                        ..a
                    };
                    accounts.insert(client, updated);
                    records.insert(t.tx, TxRecord { disputed: true, ..r });
                    proof {
                        lemma_view_insert(old(accounts)@.insert(client, a), client, updated);
                        assert(accounts_view(accounts@) =~= step(s0, *t).accounts);
                        assert(state_of(accounts@, records@) =~= step(s0, *t));
                    }
                }
            }
        },
        TxKind::Resolve => {
            let rec: Option<TxRecord> = match records.get(&t.tx) {
                Some(r) => Some(*r),
                None => None,
            };
            if let Some(r) = rec {
                if r.client == client && r.disputed {
                    let updated = Account {
                        available: a.available + r.amount as i128,
                        held: a.held - r.amount as i128,
                        ..a
                    };
                    accounts.insert(client, updated);
                    records.insert(t.tx, TxRecord { disputed: false, ..r });
                    proof {
                        lemma_view_insert(old(accounts)@.insert(client, a), client, updated);
                        assert(accounts_view(accounts@) =~= step(s0, *t).accounts);
                        assert(state_of(accounts@, records@) =~= step(s0, *t));
                    }
                }
            }
        },
        TxKind::Chargeback => {
            let rec: Option<TxRecord> = match records.get(&t.tx) {
                Some(r) => Some(*r),
                None => None,
            };
            if let Some(r) = rec {
                if r.client == client && r.disputed {
                    let updated = Account {
                        held: a.held - r.amount as i128,
                        total: a.total - r.amount as i128,
                        locked: true,
                        ..a
                    };
                    accounts.insert(client, updated);
                    records.insert(t.tx, TxRecord { disputed: false, ..r });
                    proof {
                        lemma_view_insert(old(accounts)@.insert(client, a), client, updated);
                        assert(accounts_view(accounts@) =~= step(s0, *t).accounts);
                        assert(state_of(accounts@, records@) =~= step(s0, *t));
                    }
                }
            }
        },
        TxKind::Unrecognized => {},
    }
    proof {
        assert(state_of(accounts@, records@) =~= step(s0, *t));
    }
}

/// Folds a whole stream of transactions, in input order, into the final
/// account table: the returned table models exactly the accounts of
/// `run` over the input sequence. Inapplicable records degrade to silent
/// no-ops inside `step`; the engine itself never fails.
pub fn process_transactions(transactions: Vec<Transaction>) -> (accounts: HashMap<u16, Account>)
    ensures
        accounts_view(accounts@) == run(transactions@).accounts,
{
    let ghost ts = transactions@;
    let mut accounts: HashMap<u16, Account> = HashMap::new();
    let mut records: HashMap<u32, TxRecord> = HashMap::new();
    proof {
        assert(ts.take(0) =~= Seq::<Transaction>::empty());
        assert(accounts_view(accounts@) =~= init_state().accounts);
        assert(state_of(accounts@, records@) =~= run(ts.take(0)));
    }
    let n: usize = transactions.len();
    let mut i: usize = 0;
    while i < n
        invariant
            ts == transactions@,
            n == ts.len(),
            i <= n,
            state_of(accounts@, records@) == run(ts.take(i as int)),
            state_bounded(run(ts.take(i as int)), i as int * (AMOUNT_LIMIT as int)),
        decreases n - i,
    {
        let t = transactions[i];
        proof {
            lemma_bounded_mono(
                run(ts.take(i as int)),
                i as int * (AMOUNT_LIMIT as int),
                BALANCE_LIMIT as int,
            );
        }
        apply_transaction(&mut accounts, &mut records, &t);
        proof {
            lemma_step_bounded(run(ts.take(i as int)), t, i as int * (AMOUNT_LIMIT as int));
            assert(ts.take(i as int + 1).drop_last() =~= ts.take(i as int));
            assert(ts.take(i as int + 1).last() == ts[i as int]);
            assert(run(ts.take(i as int + 1)) == step(run(ts.take(i as int)), t));
        }
        i = i + 1;
    }
    proof {
        assert(ts.take(n as int) =~= ts);
    }
    accounts
}

} // verus!
