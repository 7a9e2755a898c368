use vstd::prelude::*;

verus! {

/// One client's balance sheet.
///
/// Balances are signed fixed-point minor units: dispute bookkeeping may
/// legitimately drive `available` or `total` below zero, and the engine
/// deliberately does not clamp. The balance type is wide enough that no
/// sequence of transactions the engine can be handed ever overflows it.
#[derive(Clone, Copy, Debug, PartialEq, Eq, Structural)]
pub struct Account {
    /// Client identifier this account belongs to.
    pub client: u16,
    /// Funds the client can withdraw or use for new transactions.
    pub available: i128,
    /// Funds frozen pending dispute resolution.
    pub held: i128,
    /// Sum of available and held funds.
    pub total: i128,
    /// Once true the account is frozen: every later transaction for this
    /// client is ignored.
    pub locked: bool,
}

/// The mathematical model of an [`Account`]: the same fields with unbounded
/// balances, which the engine's specification is stated over.
pub struct AccountView {
    pub client: u16,
    pub available: int,
    pub held: int,
    pub total: int,
    pub locked: bool,
}

impl View for Account {
    type V = AccountView;

    open spec fn view(&self) -> AccountView {
        AccountView {
            client: self.client,
            available: self.available as int,
            held: self.held as int,
            total: self.total as int,
            locked: self.locked,
        }
    }
}

impl AccountView {
    /// The all-zero, unlocked account a client starts with.
    pub open spec fn initial(client: u16) -> AccountView {
        AccountView { client, available: 0, held: 0, total: 0, locked: false }
    }

    /// `total` accounts exactly for the available and held funds.
    pub open spec fn balanced(self) -> bool {
        self.total == self.available + self.held
    }

    /// Every balance lies within `bound` of zero.
    pub open spec fn bounded(self, bound: int) -> bool {
        &&& -bound <= self.available <= bound
        &&& -bound <= self.held <= bound
        &&& -bound <= self.total <= bound
    }
}

impl Account {
    /// Creates the fresh account for `client`.
    pub fn new(client: u16) -> (a: Account)
        ensures
            a@ == AccountView::initial(client),
    {
        Account { client, available: 0, held: 0, total: 0, locked: false }
    }
}

} // verus!
