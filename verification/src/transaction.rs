use vstd::prelude::*;

verus! {

/// The kind of a ledger event, one variant per recognized type string of the
/// input format, plus an explicit catch-all for anything else.
#[derive(Clone, Copy, Debug, PartialEq, Eq, Structural)]
pub enum TxKind {
    /// Credits the client's available funds.
    Deposit,
    /// Debits the client's available funds, if they suffice.
    Withdrawal,
    /// Claims a prior deposit or withdrawal should be reversed; freezes its
    /// amount in `held`.
    Dispute,
    /// Settles a dispute in the client's favour, releasing the held amount.
    Resolve,
    /// Settles a dispute against the client: the held amount is withdrawn
    /// and the account is locked for good.
    Chargeback,
    /// A record whose type matched none of the five known kinds; processing
    /// it changes no balance.
    Unrecognized,
}

/// Which transaction kind a type string of the input format names: exactly
/// one of the five known strings, case-sensitively, and anything else is
/// the catch-all kind.
pub open spec fn spec_kind_of_name(s: Seq<char>) -> TxKind {
    if s == "deposit"@ {
        TxKind::Deposit
    } else if s == "withdrawal"@ {
        TxKind::Withdrawal
    } else if s == "dispute"@ {
        TxKind::Dispute
    } else if s == "resolve"@ {
        TxKind::Resolve
    } else if s == "chargeback"@ {
        TxKind::Chargeback
    } else {
        TxKind::Unrecognized
    }
}

/// Reads a type string of the input format into its kind: case-sensitive
/// exact match, with every unknown string mapped to the catch-all kind.
pub fn kind_of_name(name: &String) -> (k: TxKind)
    ensures
        k == spec_kind_of_name(name@),
{
    let deposit: String = "deposit".to_owned();
    let withdrawal: String = "withdrawal".to_owned();
    let dispute: String = "dispute".to_owned();
    let resolve: String = "resolve".to_owned();
    let chargeback: String = "chargeback".to_owned();
    if *name == deposit {
        TxKind::Deposit
    } else if *name == withdrawal {
        TxKind::Withdrawal
    } else if *name == dispute {
        TxKind::Dispute
    } else if *name == resolve {
        TxKind::Resolve
    } else if *name == chargeback {
        TxKind::Chargeback
    } else {
        TxKind::Unrecognized
    }
}

/// A single input event. Immutable once read: the engine only folds a
/// sequence of these into its own state.
#[derive(Clone, Copy, Debug)]
pub struct Transaction {
    /// What the event asks for.
    pub tx_type: TxKind,
    /// The client whose account it targets.
    pub client: u16,
    /// Transaction identifier: unique among deposits and withdrawals, and
    /// how later disputes, resolves and chargebacks refer back to them.
    pub tx: u32,
    /// Fixed-point amount in minor units. Meaningful for deposits and
    /// withdrawals; a deposit or withdrawal without one is ignored. The
    /// other kinds take their amount from the referenced transaction.
    pub amount: Option<u32>,
}

} // verus!
