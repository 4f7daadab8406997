use vstd::prelude::*;

verus! {

/// Version tag of the persisted document schema.
#[derive(Clone, Copy, Debug, PartialEq, Eq, Structural)]
pub enum SchemaVersion {
    V1,
    V2,
}

/// Kind of an account in the wallet.
#[derive(Clone, Copy, Debug, PartialEq, Eq, Structural)]
pub enum AccountType {
    Cash,
    OnlineWallet,
    BankAccount,
    CreditCard,
}

/// Currency an account is denominated in.
#[derive(Clone, Copy, Debug, PartialEq, Eq, Structural)]
pub enum Currency {
    USD,
    ARS,
}

/// Direction of a transaction with respect to the ledger totals.
#[derive(Clone, Copy, Debug, PartialEq, Eq, Structural)]
pub enum TransactionType {
    Income,
    Expense,
}

/// Window over which an item's spending-leak limits are evaluated.
#[derive(Clone, Copy, Debug, PartialEq, Eq, Structural)]
pub enum LeakDateRange {
    Week,
    Month,
    Year,
}

} // verus!
