use vstd::prelude::*;

use crate::enums::TransactionType;
use crate::items::ItemsDB;
use crate::strnum::str_eq;
use crate::sync_models::{ConflictResolution, ConflictResolutionV, PendingSyncData};
use crate::sync_state::SyncServerState;
use crate::transaction::{
    has_transaction, transaction_index, tx_refs, RequestCreateTransaction, RequestEditTransaction,
    Transaction, TransactionDB, TransactionItemRef, TransactionV,
};
use crate::transaction_items::items_synced;
use crate::trusted::{fresh_uuid, now_millis};
use crate::views::{str_views, within_i64};
use crate::wallet::{account_index, has_account, WalletDB};
use crate::wallet_sync::{update_wallet_on_edit, wallet_edit_bounds, wallet_move_bounds};

verus! {

/// Whether a 128-bit sum fits back into 64 bits.
fn fits_i64(x: i128) -> (r: bool)
    ensures
        r == within_i64(x as int),
{
    x <= i64::MAX as i128 && x >= i64::MIN as i128
}

/// The overflow bounds one booking asks of the ledger totals.
pub open spec fn totals_add_bounds(db: crate::transaction::TransactionDBV, amount: int) -> bool {
    &&& within_i64(db.total_income + amount)
    &&& within_i64(db.total_expenses + amount)
    &&& within_i64(db.total_income + amount - db.total_expenses)
    &&& within_i64(db.total_income - db.total_expenses - amount)
}

/// The overflow bounds removing one booking asks of the ledger totals.
pub open spec fn totals_remove_bounds(db: crate::transaction::TransactionDBV, amount: int) -> bool {
    &&& within_i64(db.total_income - amount)
    &&& within_i64(db.total_expenses - amount)
    &&& within_i64(db.total_income - amount - db.total_expenses)
    &&& within_i64(db.total_income - (db.total_expenses - amount))
}

/// The overflow bounds swapping one amount asks of the ledger totals.
pub open spec fn totals_edit_bounds(
    db: crate::transaction::TransactionDBV,
    amount: int,
    new_amount: int,
) -> bool {
    &&& within_i64(db.total_income - amount)
    &&& within_i64(db.total_expenses - amount)
    &&& within_i64(db.total_income - amount + new_amount)
    &&& within_i64(db.total_expenses - amount + new_amount)
    &&& within_i64(db.total_income - amount + new_amount - db.total_expenses)
    &&& within_i64(db.total_income - (db.total_expenses - amount + new_amount))
}

/// Whether the ledger totals can take on `amount` without overflow.
fn totals_add_ok(db: &TransactionDB, amount: i64) -> (r: bool)
    ensures
        r == totals_add_bounds(db@, amount as int),
{
    let ti = db.total_income as i128;
    let te = db.total_expenses as i128;
    let a = amount as i128;
    fits_i64(ti + a) && fits_i64(te + a) && fits_i64(ti + a - te) && fits_i64(ti - te - a)
}

/// Whether the ledger totals can give `amount` back without overflow.
fn totals_remove_ok(db: &TransactionDB, amount: i64) -> (r: bool)
    ensures
        r == totals_remove_bounds(db@, amount as int),
{
    let ti = db.total_income as i128;
    let te = db.total_expenses as i128;
    let a = amount as i128;
    fits_i64(ti - a) && fits_i64(te - a) && fits_i64(ti - a - te) && fits_i64(ti - (te - a))
}

/// Whether the ledger totals can swap `amount` for `new_amount` without
/// overflow.
fn totals_edit_ok(db: &TransactionDB, amount: i64, new_amount: i64) -> (r: bool)
    ensures
        r == totals_edit_bounds(db@, amount as int, new_amount as int),
{
    let ti = db.total_income as i128;
    let te = db.total_expenses as i128;
    let a = amount as i128;
    let n = new_amount as i128;
    fits_i64(ti - a) && fits_i64(te - a) && fits_i64(ti - a + n) && fits_i64(te - a + n)
        && fits_i64(ti - a + n - te) && fits_i64(ti - (te - a + n))
}

/// Whether every balance of `w` can move by `amount` in either direction
/// without overflow, with room in every transaction counter.
fn wallet_move_ok(w: &WalletDB, amount: i64) -> (r: bool)
    ensures
        r == wallet_move_bounds(w@, amount as int),
{
    let t = w.total_balance as i128;
    let a = amount as i128;
    if !(fits_i64(t + a) && fits_i64(t - a)) {
        return false;
    }
    let mut i: usize = 0;
    while i < w.accounts.len()
        invariant
            i <= w.accounts.len(),
            w@.accounts.len() == w.accounts.len(),
            a == amount as i128,
            within_i64(w@.total_balance + amount),
            within_i64(w@.total_balance - amount),
            forall|k: int|
                0 <= k < i ==> within_i64(#[trigger] w@.accounts[k].balance + amount) && within_i64(
                    w@.accounts[k].balance - amount,
                ) && w@.accounts[k].transactions_count < i32::MAX,
        decreases w.accounts.len() - i,
    {
        let b = w.accounts[i].balance as i128;
        proof {
            assert(w.accounts@[i as int]@ == w@.accounts[i as int]);
            assert(b == w@.accounts[i as int].balance);
        }
        if !fits_i64(b + a) || !fits_i64(b - a) || w.accounts[i].transactions_count == i32::MAX {
            proof {
                assert(!(within_i64(w@.accounts[i as int].balance + amount) && within_i64(
                    w@.accounts[i as int].balance - amount,
                ) && w@.accounts[i as int].transactions_count < i32::MAX));
                assert(!wallet_move_bounds(w@, amount as int)) by {
                    if wallet_move_bounds(w@, amount as int) {
                        assert(within_i64(w@.accounts[i as int].balance + amount) && within_i64(
                            w@.accounts[i as int].balance - amount,
                        ) && w@.accounts[i as int].transactions_count < i32::MAX);
                    }
                }
            }
            return false;
        }
        proof {
            assert forall|k: int|
                0 <= k < i + 1 implies within_i64(#[trigger] w@.accounts[k].balance + amount)
                && within_i64(w@.accounts[k].balance - amount) && w@.accounts[k].transactions_count
                < i32::MAX by {
                if k == i as int {
                    assert(w@.accounts[k].balance == b as int);
                    assert(w@.accounts[k].transactions_count
                        == w.accounts@[i as int].transactions_count as int);
                }
            }
        }
        i = i + 1;
    }
    true
}

/// Whether every balance of `w` can swap `amount` for `new_amount` without
/// overflow at any step.
fn wallet_edit_ok(w: &WalletDB, amount: i64, new_amount: i64) -> (r: bool)
    ensures
        r == wallet_edit_bounds(w@, amount as int, new_amount as int),
{
    let t = w.total_balance as i128;
    let a = amount as i128;
    let n = new_amount as i128;
    if !(fits_i64(t + a) && fits_i64(t - a) && fits_i64(t + a - n) && fits_i64(t - a + n)) {
        return false;
    }
    let mut i: usize = 0;
    while i < w.accounts.len()
        invariant
            i <= w.accounts.len(),
            w@.accounts.len() == w.accounts.len(),
            a == amount as i128,
            n == new_amount as i128,
            within_i64(w@.total_balance + amount),
            within_i64(w@.total_balance - amount),
            within_i64(w@.total_balance + amount - new_amount),
            within_i64(w@.total_balance - amount + new_amount),
            forall|k: int|
                0 <= k < i ==> within_i64(#[trigger] w@.accounts[k].balance + amount) && within_i64(
                    w@.accounts[k].balance - amount,
                ) && within_i64(w@.accounts[k].balance + amount - new_amount) && within_i64(
                    w@.accounts[k].balance - amount + new_amount,
                ),
        decreases w.accounts.len() - i,
    {
        let b = w.accounts[i].balance as i128;
        proof {
            assert(w.accounts@[i as int]@ == w@.accounts[i as int]);
            assert(b == w@.accounts[i as int].balance);
        }
        if !fits_i64(b + a) || !fits_i64(b - a) || !fits_i64(b + a - n) || !fits_i64(b - a + n) {
            proof {
                assert(!(within_i64(w@.accounts[i as int].balance + amount) && within_i64(
                    w@.accounts[i as int].balance - amount,
                ) && within_i64(w@.accounts[i as int].balance + amount - new_amount) && within_i64(
                    w@.accounts[i as int].balance - amount + new_amount,
                )));
                assert(!wallet_edit_bounds(w@, amount as int, new_amount as int)) by {
                    if wallet_edit_bounds(w@, amount as int, new_amount as int) {
                        assert(within_i64(w@.accounts[i as int].balance + amount) && within_i64(
                            w@.accounts[i as int].balance - amount,
                        ) && within_i64(w@.accounts[i as int].balance + amount - new_amount)
                            && within_i64(w@.accounts[i as int].balance - amount + new_amount));
                    }
                }
            }
            return false;
        }
        proof {
            assert forall|k: int|
                0 <= k < i + 1 implies within_i64(#[trigger] w@.accounts[k].balance + amount)
                && within_i64(w@.accounts[k].balance - amount) && within_i64(
                w@.accounts[k].balance + amount - new_amount,
            ) && within_i64(w@.accounts[k].balance - amount + new_amount) by {
                if k == i as int {
                    assert(w@.accounts[k].balance == b as int);
                }
            }
        }
        i = i + 1;
    }
    true
}

/// The conditions under which booking the transaction `entry` describes
/// under the identifier `id` is rejected up front: a balance-affecting
/// transaction against an unknown account, an expense larger than the
/// account's balance, amounts the machine word cannot take, or a taken
/// identifier.
pub open spec fn add_rejected(
    txs: crate::transaction::TransactionDBV,
    w: crate::wallet::WalletV,
    entry: RequestCreateTransaction,
    id: Seq<char>,
) -> bool {
    ||| (entry.affects_balance && !has_account(w.accounts, entry.account_id@))
    ||| (entry.affects_balance && has_account(w.accounts, entry.account_id@) && entry.kind
        == TransactionType::Expense && entry.amount as int > w.accounts[account_index(
        w.accounts,
        entry.account_id@,
    )].balance)
    ||| (entry.affects_balance && !wallet_move_bounds(w, entry.amount as int))
    ||| !totals_add_bounds(txs, entry.amount as int)
    ||| has_transaction(txs.data, id)
}

/// The conditions under which removing the transaction carrying `id` is
/// rejected up front: an unknown transaction, a balance-affecting one whose
/// account is gone, or amounts the machine word cannot take.
pub open spec fn delete_rejected(
    txs: crate::transaction::TransactionDBV,
    w: crate::wallet::WalletV,
    id: Seq<char>,
) -> bool {
    if !has_transaction(txs.data, id) {
        true
    } else {
        let t = txs.data[transaction_index(txs.data, id)];
        ||| (t.affects_balance && !has_account(w.accounts, t.account_id))
        ||| (t.affects_balance && !wallet_move_bounds(w, t.amount))
        ||| !totals_remove_bounds(txs, t.amount)
    }
}

/// The conditions under which editing the transaction carrying `id` to the
/// amount `new_amount` is rejected up front.
pub open spec fn edit_rejected(
    txs: crate::transaction::TransactionDBV,
    w: crate::wallet::WalletV,
    id: Seq<char>,
    new_amount: int,
) -> bool {
    if !has_transaction(txs.data, id) {
        true
    } else {
        let t = txs.data[transaction_index(txs.data, id)];
        ||| (t.affects_balance && !has_account(w.accounts, t.account_id))
        ||| (t.affects_balance && !wallet_edit_bounds(w, t.amount, new_amount))
        ||| !totals_edit_bounds(txs, t.amount, new_amount)
    }
}

/// The three in-memory stores one logical mutation runs against. Every
/// mutation path — local create, edit and delete, and batch approval — goes
/// through the same functions on this value, so the store invariants hold
/// everywhere by construction.
pub struct Ledger {
    pub transactions: TransactionDB,
    pub wallet: WalletDB,
    pub items: ItemsDB,
}

impl Ledger {
    /// All three stores hold their invariants.
    pub open spec fn wf(&self) -> bool {
        &&& self.transactions.wf()
        &&& self.wallet.wf()
        &&& self.items.wf()
    }

    /// Applies one new transaction under the given identifier and time. The
    /// up-front checks reject, before anything is touched: a
    /// balance-affecting transaction against an unknown account, an expense
    /// larger than the account's balance, amounts the machine word cannot
    /// take, and a taken identifier. Then the item lines are synced, the
    /// transaction is booked, and the wallet moves. On any failure the
    /// transaction store and the wallet are left exactly as they were.
    pub fn add_transaction_with(&mut self, entry: RequestCreateTransaction, id: String, now: u64)
        -> (r: Result<Transaction, String>)
        requires
            old(self).wf(),
        ensures
            final(self).wf(),
            add_rejected(old(self).transactions@, old(self).wallet@, entry, id@) ==> r is Err,
            r is Err ==> add_rejected(old(self).transactions@, old(self).wallet@, entry, id@)
                || tx_refs(entry.transaction_view(id@, now as int)).len() > 0,
            (!add_rejected(old(self).transactions@, old(self).wallet@, entry, id@) && tx_refs(
                entry.transaction_view(id@, now as int),
            ).len() == 0) ==> r is Ok,
            r is Err ==> final(self).transactions@ == old(self).transactions@ && final(self).wallet@
                == old(self).wallet@,
            match r {
                Ok(t) => {
                    &&& t@ == entry.transaction_view(id@, now as int)
                    &&& items_synced(tx_refs(t@), t@, old(self).items@, final(self).items@)
                    &&& !has_transaction(old(self).transactions@.data, id@)
                    &&& final(self).transactions@.data == old(self).transactions@.data.push(t@)
                    &&& final(self).transactions@.total_income == old(self).transactions@.total_income + (if t@.is_income() {
                        t@.amount
                    } else {
                        0
                    })
                    &&& final(self).transactions@.total_expenses == old(self).transactions@.total_expenses + (if t@.is_income() {
                        0
                    } else {
                        t@.amount
                    })
                    &&& (t@.affects_balance ==> has_account(
                        old(self).wallet@.accounts,
                        t@.account_id,
                    ) && {
                        let i = account_index(old(self).wallet@.accounts, t@.account_id);
                        final(self).wallet@.accounts == old(self).wallet@.accounts.update(
                            i,
                            crate::wallet_sync::applied_account(old(self).wallet@.accounts[i], t@),
                        ) && final(self).wallet@.total_balance == old(self).wallet@.total_balance
                            + (if t@.is_income() {
                            t@.amount
                        } else {
                            -t@.amount
                        })
                    })
                    &&& (!t@.affects_balance ==> final(self).wallet@ == old(self).wallet@)
                },
                Err(_) => true,
            },
    {
        if entry.affects_balance {
            match self.wallet.find_account(entry.account_id.as_str()) {
                None => {
                    return Err("Account not found in wallet".to_owned());
                },
                Some(i) => {
                    proof {
                        let j = account_index(self.wallet@.accounts, entry.account_id@);
                        assert(self.wallet@.accounts[j].id == entry.account_id@);
                        assert(j == i as int);
                    }
                    if entry.kind == TransactionType::Expense && entry.amount
                        > self.wallet.accounts[i].balance {
                        return Err(
                            "The transaction's amount exceeds the current balance".to_owned(),
                        );
                    }
                },
            }
            if !wallet_move_ok(&self.wallet, entry.amount) {
                return Err("Amount out of range for the wallet".to_owned());
            }
        }
        if !totals_add_ok(&self.transactions, entry.amount) {
            return Err("Amount out of range for the ledger totals".to_owned());
        }
        if self.transactions.find_transaction(id.as_str()).is_some() {
            return Err("Transaction identifier already taken".to_owned());
        }

        let transaction = entry.into_transaction_with(id, now);
        // Sync the item lines first: the only step left that can fail, and
        // it touches only the catalog.
        match transaction.sync_items_to_db(&mut self.items) {
            Ok(_) => {},
            Err(e) => {
                return Err(e);
            },
        }
        let result = transaction.clone();
        self.transactions.insert_transaction(transaction);
        if result.affects_balance {
            let applied = result.apply_to_wallet(&mut self.wallet);
            proof {
                assert(applied is Ok);
            }
        }
        Ok(result)
    }

    /// Applies one new transaction under a fresh random identifier and the
    /// current time.
    pub fn add_transaction(&mut self, entry: RequestCreateTransaction) -> (r: Result<
        Transaction,
        String,
    >)
        requires
            old(self).wf(),
        ensures
            final(self).wf(),
            entry.affects_balance && !has_account(old(self).wallet@.accounts, entry.account_id@)
                ==> r is Err,
            (entry.affects_balance && has_account(old(self).wallet@.accounts, entry.account_id@)
                && entry.kind == TransactionType::Expense && entry.amount as int > old(self).wallet@.accounts[account_index(old(self).wallet@.accounts, entry.account_id@)].balance)
                ==> r is Err,
            r is Err ==> final(self).transactions@ == old(self).transactions@ && final(self).wallet@
                == old(self).wallet@,
            match r {
                Ok(t) => {
                    &&& (exists|id: Seq<char>, now: int| t@ == entry.transaction_view(id, now))
                    &&& final(self).transactions@.data == old(self).transactions@.data.push(t@)
                    &&& final(self).transactions@.total_income == old(
                        self,
                    ).transactions@.total_income + (if t@.is_income() {
                        t@.amount
                    } else {
                        0
                    })
                    &&& final(self).transactions@.total_expenses == old(
                        self,
                    ).transactions@.total_expenses + (if t@.is_income() {
                        0
                    } else {
                        t@.amount
                    })
                    &&& items_synced(tx_refs(t@), t@, old(self).items@, final(self).items@)
                    &&& (t@.affects_balance ==> has_account(
                        old(self).wallet@.accounts,
                        t@.account_id,
                    ) && {
                        let i = account_index(old(self).wallet@.accounts, t@.account_id);
                        final(self).wallet@.accounts == old(self).wallet@.accounts.update(
                            i,
                            crate::wallet_sync::applied_account(old(self).wallet@.accounts[i], t@),
                        ) && final(self).wallet@.total_balance == old(self).wallet@.total_balance
                            + (if t@.is_income() {
                            t@.amount
                        } else {
                            -t@.amount
                        })
                    })
                    &&& (!t@.affects_balance ==> final(self).wallet@ == old(self).wallet@)
                },
                Err(_) => true,
            },
    {
        let id = fresh_uuid();
        let now = now_millis();
        let ghost gid = id@;
        let r = self.add_transaction_with(entry, id, now);
        proof {
            if r is Ok {
                assert(r->Ok_0@ == entry.transaction_view(gid, now as int));
            }
        }
        r
    }

    /// Removes the transaction carrying `id`, reverting its effect from the
    /// wallet when it affected the balance. Rejected up front, with every
    /// store unchanged: an unknown transaction, a balance-affecting
    /// transaction whose account is gone, and amounts the machine word
    /// cannot take.
    pub fn delete_transaction(&mut self, id: &str) -> (r: Result<Transaction, String>)
        requires
            old(self).wf(),
        ensures
            final(self).wf(),
            final(self).items@ == old(self).items@,
            r is Err ==> final(self).transactions@ == old(self).transactions@ && final(self).wallet@
                == old(self).wallet@,
            r is Err <==> delete_rejected(old(self).transactions@, old(self).wallet@, id@),
            match r {
                Ok(t) => {
                    let i = transaction_index(old(self).transactions@.data, id@);
                    &&& has_transaction(old(self).transactions@.data, id@)
                    &&& t@ == old(self).transactions@.data[i]
                    &&& final(self).transactions@.data == old(self).transactions@.data.remove(i)
                    &&& final(self).transactions@.total_income == old(self).transactions@.total_income - (if t@.is_income() {
                        t@.amount
                    } else {
                        0
                    })
                    &&& final(self).transactions@.total_expenses == old(self).transactions@.total_expenses - (if t@.is_income() {
                        0
                    } else {
                        t@.amount
                    })
                    &&& (t@.affects_balance ==> has_account(
                        old(self).wallet@.accounts,
                        t@.account_id,
                    ) && {
                        let k = account_index(old(self).wallet@.accounts, t@.account_id);
                        final(self).wallet@.accounts == old(self).wallet@.accounts.update(
                            k,
                            crate::wallet_sync::reverted_account(old(self).wallet@.accounts[k], t@),
                        ) && final(self).wallet@.total_balance == old(self).wallet@.total_balance
                            - (if t@.is_income() {
                            t@.amount
                        } else {
                            -t@.amount
                        })
                    })
                    &&& (!t@.affects_balance ==> final(self).wallet@ == old(self).wallet@)
                },
                Err(_) => true,
            },
    {
        let idx = match self.transactions.find_transaction(id) {
            None => {
                return Err("Transaction not found".to_owned());
            },
            Some(i) => i,
        };
        proof {
            let j = transaction_index(self.transactions@.data, id@);
            assert(self.transactions@.data[j].id == id@);
            assert(j == idx as int);
        }
        let affects = self.transactions.data[idx].affects_balance;
        let amount = self.transactions.data[idx].amount;
        if affects {
            let account_hit = {
                let target = &self.transactions.data[idx];
                self.wallet.find_account(target.account_id.as_str())
            };
            if account_hit.is_none() {
                return Err("Account not found in wallet".to_owned());
            }
            if !wallet_move_ok(&self.wallet, amount) {
                return Err("Amount out of range for the wallet".to_owned());
            }
        }
        if !totals_remove_ok(&self.transactions, amount) {
            return Err("Amount out of range for the ledger totals".to_owned());
        }
        let removed = match self.transactions.remove_transaction(id) {
            Ok(t) => t,
            Err(e) => {
                proof {
                    assert(false);
                }
                return Err(e);
            },
        };
        if affects {
            let reverted = removed.revert_from_wallet(&mut self.wallet);
            proof {
                assert(reverted is Ok);
            }
        }
        Ok(removed)
    }

    /// Replaces the editable fields of the transaction carrying `id` at the
    /// given time, rebooking the wallet from the old amount to the new one
    /// when the transaction affects the balance. Rejected up front, with
    /// every store unchanged: an unknown transaction, a gone account, and
    /// amounts the machine word cannot take.
    pub fn edit_transaction_at(&mut self, id: &str, new_values: RequestEditTransaction, now: u64)
        -> (r: Result<Transaction, String>)
        requires
            old(self).wf(),
        ensures
            final(self).wf(),
            final(self).items@ == old(self).items@,
            r is Err ==> final(self).transactions@ == old(self).transactions@ && final(self).wallet@
                == old(self).wallet@,
            r is Err <==> edit_rejected(
                old(self).transactions@,
                old(self).wallet@,
                id@,
                new_values.amount as int,
            ),
            match r {
                Ok(t) => {
                    let i = transaction_index(old(self).transactions@.data, id@);
                    let before = old(self).transactions@.data[i];
                    &&& has_transaction(old(self).transactions@.data, id@)
                    &&& t@ == new_values.edited_view(before, now as int)
                    &&& final(self).transactions@.data == old(self).transactions@.data.update(i, t@)
                    &&& final(self).transactions@.net_balance == final(self).transactions@.total_income - final(self).transactions@.total_expenses
                    &&& (before.affects_balance ==> has_account(
                        old(self).wallet@.accounts,
                        before.account_id,
                    ) && {
                        let k = account_index(old(self).wallet@.accounts, before.account_id);
                        final(self).wallet@.accounts == old(self).wallet@.accounts.update(
                            k,
                            crate::wallet_sync::reamounted_account(
                                old(self).wallet@.accounts[k],
                                before,
                                new_values.amount as int,
                            ),
                        )
                    })
                    &&& (!before.affects_balance ==> final(self).wallet@ == old(self).wallet@)
                },
                Err(_) => true,
            },
    {
        let idx = match self.transactions.find_transaction(id) {
            None => {
                return Err("Transaction not found".to_owned());
            },
            Some(i) => i,
        };
        proof {
            let j = transaction_index(self.transactions@.data, id@);
            assert(self.transactions@.data[j].id == id@);
            assert(j == idx as int);
        }
        let original = self.transactions.data[idx].clone();
        if original.affects_balance {
            if self.wallet.find_account(original.account_id.as_str()).is_none() {
                return Err("Account not found in wallet".to_owned());
            }
            if !wallet_edit_ok(&self.wallet, original.amount, new_values.amount) {
                return Err("Amount out of range for the wallet".to_owned());
            }
        }
        if !totals_edit_ok(&self.transactions, original.amount, new_values.amount) {
            return Err("Amount out of range for the ledger totals".to_owned());
        }
        if original.affects_balance {
            let rebooked = update_wallet_on_edit(&original, new_values.amount, &mut self.wallet);
            proof {
                assert(rebooked is Ok);
            }
        }
        match self.transactions.edit_transaction_at(id, new_values, now) {
            Ok(t) => Ok(t),
            Err(e) => {
                proof {
                    assert(false);
                }
                Err(e)
            },
        }
    }

    /// Replaces the editable fields of the transaction carrying `id`,
    /// stamping the current time.
    pub fn edit_transaction(&mut self, id: &str, new_values: RequestEditTransaction) -> (r: Result<
        Transaction,
        String,
    >)
        requires
            old(self).wf(),
        ensures
            final(self).wf(),
            final(self).items@ == old(self).items@,
            r is Err ==> final(self).transactions@ == old(self).transactions@ && final(self).wallet@
                == old(self).wallet@,
            r is Err <==> edit_rejected(
                old(self).transactions@,
                old(self).wallet@,
                id@,
                new_values.amount as int,
            ),
            r is Ok ==> has_transaction(old(self).transactions@.data, id@) && (exists|now: int|
                r->Ok_0@ == new_values.edited_view(
                    old(self).transactions@.data[transaction_index(
                        old(self).transactions@.data,
                        id@,
                    )],
                    now,
                )),
    {
        let now = now_millis();
        let r = self.edit_transaction_at(id, new_values, now);
        proof {
            if r is Ok {
                let i = transaction_index(old(self).transactions@.data, id@);
                assert(r->Ok_0@ == new_values.edited_view(
                    old(self).transactions@.data[i],
                    now as int,
                ));
            }
        }
        r
    }
}

/// The transactions among `data` that the identifiers `ids` name, in the
/// order of `ids`; an identifier that names nothing is passed over.
pub open spec fn history_of(ids: Seq<Seq<char>>, data: Seq<TransactionV>) -> Seq<TransactionV>
    decreases ids.len(),
{
    if ids.len() == 0 {
        Seq::empty()
    } else {
        history_of(ids.drop_last(), data) + if has_transaction(data, ids.last()) {
            seq![data[transaction_index(data, ids.last())]]
        } else {
            Seq::empty()
        }
    }
}

impl Ledger {
    /// The transactions recorded on the account carrying `id`, in the order
    /// the account recorded them; fails if no account carries it.
    pub fn get_account_history(&self, id: &str) -> (r: Result<Vec<Transaction>, String>)
        requires
            self.transactions.wf(),
            self.wallet.wf(),
        ensures
            match r {
                Ok(v) => has_account(self.wallet@.accounts, id@)
                    && crate::transaction::transaction_views(v@) == history_of(
                    self.wallet@.accounts[account_index(self.wallet@.accounts, id@)].transactions_id,
                    self.transactions@.data,
                ),
                Err(_) => !has_account(self.wallet@.accounts, id@),
            },
    {
        let idx = match self.wallet.find_account(id) {
            None => {
                return Err("Account not found".to_owned());
            },
            Some(i) => i,
        };
        proof {
            let j = account_index(self.wallet@.accounts, id@);
            assert(self.wallet@.accounts[j].id == id@);
            assert(j == idx as int);
        }
        let ghost ids_v = self.wallet@.accounts[idx as int].transactions_id;
        let ghost data_v = self.transactions@.data;
        let account = &self.wallet.accounts[idx];
        let mut out: Vec<Transaction> = Vec::new();
        let mut i: usize = 0;
        proof {
            assert(ids_v == str_views(account.transactions_id@));
            assert(crate::transaction::transaction_views(out@) =~= Seq::<TransactionV>::empty());
            assert(history_of(ids_v.take(0), data_v) =~= Seq::<TransactionV>::empty());
        }
        while i < account.transactions_id.len()
            invariant
                i <= account.transactions_id@.len(),
                ids_v == str_views(account.transactions_id@),
                ids_v.len() == account.transactions_id@.len(),
                data_v == self.transactions@.data,
                self.transactions.wf(),
                crate::transaction::transaction_views(out@) == history_of(
                    ids_v.take(i as int),
                    data_v,
                ),
            decreases account.transactions_id@.len() - i,
        {
            proof {
                assert(ids_v.take(i as int + 1).drop_last() =~= ids_v.take(i as int));
                assert(ids_v.take(i as int + 1).last() == ids_v[i as int]);
                assert(ids_v[i as int] == account.transactions_id@[i as int]@);
            }
            match self.transactions.find_transaction(account.transactions_id[i].as_str()) {
                Some(k) => {
                    proof {
                        let j = transaction_index(data_v, ids_v[i as int]);
                        assert(data_v[j].id == ids_v[i as int]);
                        assert(j == k as int);
                    }
                    let x = self.transactions.data[k].clone();
                    let ghost xv = x@;
                    let ghost prev = out@;
                    out.push(x);
                    proof {
                        crate::transaction::lemma_transaction_views_push(prev, out@, xv);
                        assert(history_of(ids_v.take(i as int + 1), data_v) =~= history_of(
                            ids_v.take(i as int),
                            data_v,
                        ).push(data_v[k as int]));
                    }
                },
                None => {
                    proof {
                        assert(history_of(ids_v.take(i as int + 1), data_v) =~= history_of(
                            ids_v.take(i as int),
                            data_v,
                        ));
                    }
                },
            }
            i = i + 1;
        }
        proof {
            assert(ids_v.take(ids_v.len() as int) =~= ids_v);
        }
        Ok(out)
    }
}

/// The resolution chosen for the transaction carrying `id`: the first entry
/// under that identifier, if any.
pub open spec fn res_lookup(rs: Seq<(String, ConflictResolution)>, id: Seq<char>) -> Option<
    ConflictResolutionV,
>
    decreases rs.len(),
{
    if rs.len() == 0 {
        None
    } else if rs.first().0@ == id {
        Some(rs.first().1@)
    } else {
        res_lookup(rs.drop_first(), id)
    }
}

/// Whether the transaction carrying `id` is resolved as skipped.
pub open spec fn is_skipped(rs: Seq<(String, ConflictResolution)>, id: Seq<char>) -> bool {
    res_lookup(rs, id) == Some(ConflictResolutionV::SkipTransaction)
}

/// The identifiers of the transactions of `txs` not resolved as skipped, in
/// order.
pub open spec fn nonskipped_ids(
    txs: Seq<TransactionV>,
    rs: Seq<(String, ConflictResolution)>,
) -> Seq<Seq<char>>
    decreases txs.len(),
{
    if txs.len() == 0 {
        Seq::empty()
    } else {
        nonskipped_ids(txs.drop_last(), rs) + if is_skipped(rs, txs.last().id) {
            Seq::empty()
        } else {
            seq![txs.last().id]
        }
    }
}

/// The transactions of `txs` not resolved as skipped, in order.
pub open spec fn nonskipped_txs(
    txs: Seq<TransactionV>,
    rs: Seq<(String, ConflictResolution)>,
) -> Seq<TransactionV>
    decreases txs.len(),
{
    if txs.len() == 0 {
        Seq::empty()
    } else {
        nonskipped_txs(txs.drop_last(), rs) + if is_skipped(rs, txs.last().id) {
            Seq::empty()
        } else {
            seq![txs.last()]
        }
    }
}

/// The amount a batch entry is booked at: its own, unless its resolution
/// adjusts it.
pub open spec fn resolved_amount(t: TransactionV, rs: Seq<(String, ConflictResolution)>) -> int {
    match res_lookup(rs, t.id) {
        Some(c) => match c {
            ConflictResolutionV::AdjustAmount { new_amount } => new_amount,
            _ => t.amount,
        },
        None => t.amount,
    }
}

/// Whether the booked transaction `bt` is the batch entry `src` as its
/// resolution directs: the resolved amount, and the entry's own date, kind,
/// balance flag, account, details and category. The identifier and the
/// timestamps are freshly drawn at booking time, so they stay open.
pub open spec fn booked_matches(
    bt: TransactionV,
    src: TransactionV,
    rs: Seq<(String, ConflictResolution)>,
) -> bool {
    &&& bt.amount == resolved_amount(src, rs)
    &&& bt.date == src.date
    &&& bt.kind == src.kind
    &&& bt.affects_balance == src.affects_balance
    &&& bt.account_id == src.account_id
    &&& bt.details == src.details
    &&& bt.category == src.category
}

/// Whether the report `r` and the transaction store's move from `pre` to
/// `post` describe one lawful application of the batch entries `txs` under
/// the resolutions `rs`: the prior bookings are untouched; every non-skipped
/// entry up to the end — or up to the first failure, which commits nothing —
/// was booked in order through the single-transaction pipeline; and the
/// report names exactly those entries.
pub open spec fn report_matches_batch(
    r: BatchApplyReport,
    txs: Seq<TransactionV>,
    rs: Seq<(String, ConflictResolution)>,
    pre: Seq<TransactionV>,
    post: Seq<TransactionV>,
) -> bool {
    &&& post.len() == pre.len() + r.applied@.len()
    &&& (forall|k: int| 0 <= k < pre.len() ==> post[k] == pre[k])
    &&& match r.failed {
        None => {
            &&& str_views(r.applied@) == nonskipped_ids(txs, rs)
            &&& r.applied@.len() == nonskipped_txs(txs, rs).len()
            &&& forall|k: int|
                0 <= k < r.applied@.len() ==> booked_matches(
                    #[trigger] post[pre.len() + k],
                    nonskipped_txs(txs, rs)[k],
                    rs,
                )
        },
        Some(f) => exists|k: int|
            #![auto]
            {
                &&& 0 <= k < txs.len()
                &&& !is_skipped(rs, txs[k].id)
                &&& f.0@ == txs[k].id
                &&& str_views(r.applied@) == nonskipped_ids(txs.take(k), rs)
                &&& r.applied@.len() == nonskipped_txs(txs.take(k), rs).len()
                &&& forall|j: int|
                    0 <= j < r.applied@.len() ==> booked_matches(
                        post[pre.len() + j],
                        nonskipped_txs(txs.take(k), rs)[j],
                        rs,
                    )
            },
    }
}

/// Finds the resolution chosen for the transaction carrying `id`.
fn find_resolution(rs: &Vec<(String, ConflictResolution)>, id: &str) -> (r: Option<
    ConflictResolution,
>)
    ensures
        match r {
            Some(c) => res_lookup(rs@, id@) == Some(c@),
            None => res_lookup(rs@, id@) is None,
        },
{
    let mut j: usize = 0;
    proof {
        assert(rs@.skip(0) =~= rs@);
    }
    while j < rs.len()
        invariant
            j <= rs@.len(),
            res_lookup(rs@, id@) == res_lookup(rs@.skip(j as int), id@),
        decreases rs@.len() - j,
    {
        proof {
            assert(rs@.skip(j as int).first() == rs@[j as int]);
            assert(rs@.skip(j as int).drop_first() =~= rs@.skip(j as int + 1));
        }
        if str_eq(rs[j].0.as_str(), id) {
            return Some(rs[j].1.clone());
        }
        j = j + 1;
    }
    proof {
        assert(rs@.skip(rs@.len() as int) =~= Seq::<(String, ConflictResolution)>::empty());
    }
    None
}

/// What one attempt to apply a received batch reports: the identifiers of
/// the transactions that were committed, in order, and the first failure if
/// one stopped the batch — a partially applied batch is a defined outcome,
/// and the committed prefix stays committed.
pub struct BatchApplyReport {
    pub applied: Vec<String>,
    pub failed: Option<(String, String)>,
}

/// Builds the concrete transaction request one batch entry resolves to:
/// `AdjustAmount` overrides the amount, `MapItem` resolves every unresolved
/// item line to the chosen catalog item, `CreateNewItem` leaves the lines
/// unresolved so the sync step creates the item.
fn resolved_request(tx: &Transaction, resolution: &Option<ConflictResolution>) -> (r:
    RequestCreateTransaction)
    ensures
        r.amount as int == (match resolution {
            Some(c) => match c@ {
                ConflictResolutionV::AdjustAmount { new_amount } => new_amount,
                _ => tx@.amount,
            },
            None => tx@.amount,
        }),
        r.date == tx.date,
        r.kind == tx.kind,
        r.affects_balance == tx.affects_balance,
        r.account_id@ == tx@.account_id,
        r.details@ == tx@.details,
        r.category@ == tx@.category,
{
    let amount = match resolution {
        Some(ConflictResolution::AdjustAmount { new_amount }) => *new_amount,
        _ => tx.amount,
    };
    let items: Option<Vec<TransactionItemRef>> = match &tx.items {
        None => None,
        Some(lines) => {
            let mut mapped: Vec<TransactionItemRef> = Vec::new();
            let mut k: usize = 0;
            while k < lines.len()
                decreases lines@.len() - k,
            {
                let line = &lines[k];
                let item_id = match (&line.item_id, resolution) {
                    (None, Some(ConflictResolution::MapItem { item_id })) => Some(item_id.clone()),
                    (None, _) => None,
                    (Some(existing), _) => Some(existing.clone()),
                };
                mapped.push(
                    TransactionItemRef {
                        item_id,
                        name: line.name.clone(),
                        quantity: line.quantity,
                        price: line.price,
                    },
                );
                k = k + 1;
            }
            Some(mapped)
        },
    };
    RequestCreateTransaction {
        amount,
        date: tx.date,
        details: tx.details.clone(),
        kind: tx.kind,
        affects_balance: tx.affects_balance,
        account_id: tx.account_id.clone(),
        category: tx.category.clone(),
        store_name: crate::transaction::clone_opt_string(&tx.store_name),
        items,
        job: crate::transaction::clone_opt_string(&tx.job),
        employer: crate::transaction::clone_opt_string(&tx.employer),
        extra_details: crate::transaction::clone_opt_string(&tx.extra_details),
        client: crate::transaction::clone_opt_string(&tx.client),
        project: crate::transaction::clone_opt_string(&tx.project),
    }
}

/// Applies an approved batch through the single-transaction pipeline, one
/// entry at a time and in order. An entry resolved as skipped is passed
/// over; any other entry is booked exactly as a locally created transaction
/// would be. Processing stops at the first entry that fails to apply;
/// entries committed before it remain committed. The contract pins the
/// store's move and the report for both outcomes; only *whether* an entry
/// fails stays open, because a booking can fail on a fresh-identifier
/// collision, which no contract over the arguments can exclude.
pub fn apply_batch(
    ledger: &mut Ledger,
    batch: &PendingSyncData,
    resolutions: &Vec<(String, ConflictResolution)>,
) -> (r: BatchApplyReport)
    requires
        old(ledger).wf(),
    ensures
        final(ledger).wf(),
        report_matches_batch(
            r,
            batch@.payload.transactions,
            resolutions@,
            old(ledger).transactions@.data,
            final(ledger).transactions@.data,
        ),
{
    let ghost txv = batch@.payload.transactions;
    let ghost pre0 = ledger.transactions@.data;
    let mut applied: Vec<String> = Vec::new();
    let mut i: usize = 0;
    proof {
        assert(str_views(applied@) =~= Seq::<Seq<char>>::empty());
        assert(nonskipped_ids(txv.take(0), resolutions@) =~= Seq::<Seq<char>>::empty());
        assert(nonskipped_txs(txv.take(0), resolutions@) =~= Seq::<TransactionV>::empty());
    }
    while i < batch.payload.transactions.len()
        invariant
            i <= batch@.payload.transactions.len(),
            txv == batch@.payload.transactions,
            txv.len() == batch.payload.transactions@.len(),
            ledger.wf(),
            pre0 == old(ledger).transactions@.data,
            ledger.transactions@.data.len() == pre0.len() + applied@.len(),
            forall|k: int| 0 <= k < pre0.len() ==> ledger.transactions@.data[k] == pre0[k],
            str_views(applied@) == nonskipped_ids(txv.take(i as int), resolutions@),
            applied@.len() == nonskipped_txs(txv.take(i as int), resolutions@).len(),
            forall|k: int|
                0 <= k < applied@.len() ==> booked_matches(
                    #[trigger] ledger.transactions@.data[pre0.len() + k],
                    nonskipped_txs(txv.take(i as int), resolutions@)[k],
                    resolutions@,
                ),
        decreases batch.payload.transactions@.len() - i,
    {
        let tx = &batch.payload.transactions[i];
        proof {
            assert(tx@ == txv[i as int]);
            assert(txv.take(i as int + 1).drop_last() =~= txv.take(i as int));
            assert(txv.take(i as int + 1).last() == txv[i as int]);
        }
        let resolution = find_resolution(resolutions, tx.id.as_str());
        let skip = match &resolution {
            Some(ConflictResolution::SkipTransaction) => true,
            _ => false,
        };
        if skip {
            proof {
                assert(is_skipped(resolutions@, txv[i as int].id));
                assert(nonskipped_ids(txv.take(i as int + 1), resolutions@) =~= nonskipped_ids(
                    txv.take(i as int),
                    resolutions@,
                ));
                assert(nonskipped_txs(txv.take(i as int + 1), resolutions@) =~= nonskipped_txs(
                    txv.take(i as int),
                    resolutions@,
                ));
            }
        } else {
            proof {
                assert(!is_skipped(resolutions@, txv[i as int].id));
            }
            let request = resolved_request(tx, &resolution);
            let ghost req_amount = request.amount as int;
            match ledger.add_transaction(request) {
                Ok(t) => {
                    let ghost bt = t@;
                    let ghost data_pre = nonskipped_txs(txv.take(i as int), resolutions@);
                    let ghost prev = applied@;
                    applied.push(tx.id.clone());
                    proof {
                        crate::views::lemma_str_views_push(prev, applied@, txv[i as int].id);
                        assert(nonskipped_ids(txv.take(i as int + 1), resolutions@)
                            =~= nonskipped_ids(txv.take(i as int), resolutions@).push(
                            txv[i as int].id,
                        ));
                        assert(nonskipped_txs(txv.take(i as int + 1), resolutions@)
                            =~= nonskipped_txs(txv.take(i as int), resolutions@).push(
                            txv[i as int],
                        ));
                        assert(bt.amount == req_amount);
                        assert(bt.amount == resolved_amount(txv[i as int], resolutions@)) by {
                            match resolution {
                                Some(c) => {
                                    assert(res_lookup(resolutions@, txv[i as int].id) == Some(c@));
                                },
                                None => {
                                    assert(res_lookup(resolutions@, txv[i as int].id) is None);
                                },
                            }
                        }
                        assert(booked_matches(bt, txv[i as int], resolutions@));
                        assert forall|k: int|
                            0 <= k < applied@.len() implies booked_matches(
                            #[trigger] ledger.transactions@.data[pre0.len() + k],
                            nonskipped_txs(txv.take(i as int + 1), resolutions@)[k],
                            resolutions@,
                        ) by {
                            if k < prev.len() {
                                assert(nonskipped_txs(txv.take(i as int + 1), resolutions@)[k]
                                    == data_pre[k]);
                            } else {
                                assert(ledger.transactions@.data[pre0.len() + k] == bt);
                            }
                        }
                    }
                },
                Err(e) => {
                    proof {
                        assert((i as int) < txv.len());
                        assert(!is_skipped(resolutions@, txv[i as int].id));
                        assert(tx@.id == txv[i as int].id);
                    }
                    return BatchApplyReport { applied, failed: Some((tx.id.clone(), e)) };
                },
            }
        }
        i = i + 1;
    }
    proof {
        assert(txv.take(txv.len() as int) =~= txv);
    }
    BatchApplyReport { applied, failed: None }
}

/// Decides one pending batch: the batch named by `sync_id` is removed
/// unconditionally — approval and rejection both consume it. A rejection
/// touches no store; an approval runs the batch through the
/// single-transaction pipeline and reports what was committed.
pub fn approve_sync_data(
    state: &mut SyncServerState,
    ledger: &mut Ledger,
    sync_id: &str,
    approved: bool,
    resolutions: &Vec<(String, ConflictResolution)>,
) -> (r: Result<Option<BatchApplyReport>, String>)
    requires
        old(state).wf(),
        old(ledger).wf(),
    ensures
        final(state).wf(),
        final(ledger).wf(),
        final(state)@.sessions == old(state)@.sessions,
        final(state)@.server_running == old(state)@.server_running,
        final(state)@.started_at == old(state)@.started_at,
        match r {
            Ok(report) => {
                let i = crate::sync_state::pending_index(old(state)@.pending, sync_id@);
                &&& crate::sync_state::has_pending(old(state)@.pending, sync_id@)
                &&& final(state)@.pending == old(state)@.pending.remove(i)
                &&& (!approved ==> report is None && final(ledger).transactions@ == old(ledger).transactions@ && final(ledger).wallet@ == old(ledger).wallet@ && final(ledger).items@ == old(ledger).items@)
                &&& (approved ==> (report matches Some(rep) && report_matches_batch(
                    rep,
                    old(state)@.pending[i].payload.transactions,
                    resolutions@,
                    old(ledger).transactions@.data,
                    final(ledger).transactions@.data,
                )))
            },
            Err(_) => !crate::sync_state::has_pending(old(state)@.pending, sync_id@) && final(state)@ == old(state)@ && final(ledger).transactions@ == old(ledger).transactions@ && final(ledger).wallet@ == old(ledger).wallet@ && final(ledger).items@ == old(ledger).items@,
        },
{
    let batch = match state.take_pending(sync_id) {
        Ok(b) => b,
        Err(e) => {
            return Err(e);
        },
    };
    if !approved {
        return Ok(None);
    }
    proof {
        let i = crate::sync_state::pending_index(old(state)@.pending, sync_id@);
        assert(batch@ == old(state)@.pending[i]);
    }
    let report = apply_batch(ledger, &batch, resolutions);
    Ok(Some(report))
}

} // verus!
