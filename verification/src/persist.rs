use vstd::prelude::*;

use crate::items::ItemsDB;
use crate::transaction::TransactionDB;
use crate::wallet::WalletDB;

verus! {

/// A store that lives in one whole JSON document: it names its file and can
/// stand up empty when the file is not there yet.
pub trait Persistable: Sized {
    /// The file the store is persisted in.
    fn filename() -> (r: &'static str);

    /// A fresh, empty store.
    fn empty() -> (r: Self);
}

impl Persistable for WalletDB {
    fn filename() -> (r: &'static str) {
        "wallet.json"
    }

    fn empty() -> (r: Self) {
        WalletDB::empty()
    }
}

impl Persistable for TransactionDB {
    fn filename() -> (r: &'static str) {
        "transactions.json"
    }

    fn empty() -> (r: Self) {
        TransactionDB::empty()
    }
}

impl Persistable for ItemsDB {
    fn filename() -> (r: &'static str) {
        "items.json"
    }

    fn empty() -> (r: Self) {
        ItemsDB::empty()
    }
}

} // verus!
