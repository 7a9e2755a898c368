//! A ledger engine: folds an ordered stream of transactions (deposits,
//! withdrawals, disputes, resolutions, chargebacks) into per-client account
//! state, enforcing the financial invariants of the scheme: a withdrawal
//! never overdraws, a chargeback freezes the account for good, and
//! `total == available + held` at every point.
//!
//! Amounts are fixed-point integers (minor units); callers choose the scale.

mod account;
mod laws;
mod ledger;
mod transaction;

pub use account::Account;
pub use account::AccountView;
pub use laws::all_balanced;
pub use laws::lemma_output_balanced;
pub use laws::lemma_run_balanced;
pub use laws::lemma_run_locked_frozen;
pub use laws::lemma_settle_without_dispute_noop;
pub use laws::lemma_step_balanced;
pub use laws::lemma_step_locked_frozen;
pub use laws::lemma_step_untouched;
pub use laws::lemma_withdrawal_no_overdraft;
pub use ledger::apply_transaction;
pub use ledger::lemma_bounded_mono;
pub use ledger::lemma_step_bounded;
pub use ledger::process_transactions;
pub use ledger::state_bounded;
pub use ledger::AMOUNT_LIMIT;
pub use ledger::BALANCE_LIMIT;
pub use ledger::LedgerState;
pub use ledger::TxRecord;
pub use ledger::account_of;
pub use ledger::accounts_view;
pub use ledger::init_state;
pub use ledger::open_dispute;
pub use ledger::run;
pub use ledger::state_of;
pub use ledger::step;
pub use ledger::with_account;
pub use transaction::Transaction;
pub use transaction::TxKind;
pub use transaction::kind_of_name;
pub use transaction::spec_kind_of_name;
