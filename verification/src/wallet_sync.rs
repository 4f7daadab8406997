use vstd::prelude::*;

use crate::transaction::{Transaction, TransactionV};
use crate::views::{str_views, lemma_str_views_push, within_i64};
use crate::wallet::{
    account_index, account_views, has_account, lemma_sum_update, AccountV, WalletDB, WalletV,
};

verus! {

/// `ids` without every occurrence of `id`.
pub open spec fn without_id(ids: Seq<Seq<char>>, id: Seq<char>) -> Seq<Seq<char>> {
    ids.filter(|x: Seq<char>| x != id)
}

/// The account `a` after the balance-affecting transaction `t` is applied to
/// it: the balance moves by the amount, the transaction is recorded.
pub open spec fn applied_account(a: AccountV, t: TransactionV) -> AccountV {
    AccountV {
        balance: if t.is_income() {
            a.balance + t.amount
        } else {
            a.balance - t.amount
        },
        transactions_count: a.transactions_count + 1,
        transactions_id: a.transactions_id.push(t.id),
        ..a
    }
}

/// The account `a` after the balance-affecting transaction `t` is reverted
/// from it: the balance moves back, the record of the transaction is dropped.
pub open spec fn reverted_account(a: AccountV, t: TransactionV) -> AccountV {
    AccountV {
        balance: if t.is_income() {
            a.balance - t.amount
        } else {
            a.balance + t.amount
        },
        transactions_count: if a.transactions_count > 0 {
            a.transactions_count - 1
        } else {
            a.transactions_count
        },
        transactions_id: without_id(a.transactions_id, t.id),
        ..a
    }
}

/// The account `a` after the amount of the balance-affecting transaction `t`
/// booked against it is replaced by `new_amount`.
pub open spec fn reamounted_account(a: AccountV, t: TransactionV, new_amount: int) -> AccountV {
    AccountV {
        balance: if t.is_income() {
            a.balance - t.amount + new_amount
        } else {
            a.balance + t.amount - new_amount
        },
        ..a
    }
}

/// Machine bounds under which moving any one balance of `w` by `amount` in
/// either direction stays within 64 bits, and every transaction counter can
/// still grow.
pub open spec fn wallet_move_bounds(w: WalletV, amount: int) -> bool {
    &&& within_i64(w.total_balance + amount)
    &&& within_i64(w.total_balance - amount)
    &&& forall|k: int|
        0 <= k < w.accounts.len() ==> within_i64(#[trigger] w.accounts[k].balance + amount)
            && within_i64(w.accounts[k].balance - amount) && w.accounts[k].transactions_count
            < i32::MAX
}

/// Drops from `ids` every entry equal to `id`.
fn retain_without_id(ids: &Vec<String>, id: &str) -> (r: Vec<String>)
    ensures
        str_views(r@) == without_id(str_views(ids@), id@),
{
    let mut out: Vec<String> = Vec::new();
    let mut i: usize = 0;
    proof {
        reveal(Seq::filter);
        assert(str_views(ids@).take(0) =~= Seq::<Seq<char>>::empty());
        assert(str_views(out@) =~= Seq::<Seq<char>>::empty());
    }
    while i < ids.len()
        invariant
            i <= ids@.len(),
            str_views(out@) =~= without_id(str_views(ids@).take(i as int), id@),
        decreases ids@.len() - i,
    {
        proof {
            reveal(Seq::filter);
            assert(str_views(ids@).take(i as int + 1).drop_last() =~= str_views(ids@).take(i as int));
            assert(str_views(ids@).take(i as int + 1).last() == ids@[i as int]@);
        }
        if !crate::strnum::str_eq(ids[i].as_str(), id) {
            let x = ids[i].clone();
            let ghost xv = x@;
            let ghost prev = out@;
            out.push(x);
            proof {
                lemma_str_views_push(prev, out@, xv);
            }
        }
        i = i + 1;
    }
    proof {
        assert(str_views(ids@).take(ids@.len() as int) =~= str_views(ids@));
    }
    out
}

impl Transaction {
    /// Applies this transaction to the wallet. A transaction that does not
    /// affect the balance leaves the wallet alone; one against an unknown
    /// account fails; an expense larger than the account's balance fails;
    /// otherwise the account and the cached total move by the amount and the
    /// transaction is recorded on the account.
    pub fn apply_to_wallet(&self, wallet: &mut WalletDB) -> (r: Result<(), String>)
        requires
            old(wallet).wf(),
            wallet_move_bounds(old(wallet)@, self@.amount),
        ensures
            final(wallet).wf(),
            final(wallet)@.schema_version == old(wallet)@.schema_version,
            !self@.affects_balance ==> r is Ok && final(wallet)@ == old(wallet)@,
            self@.affects_balance && !has_account(old(wallet)@.accounts, self@.account_id) ==> r
                is Err && final(wallet)@ == old(wallet)@,
            (self@.affects_balance && has_account(old(wallet)@.accounts, self@.account_id)
                && !self@.is_income() && self@.amount > old(wallet)@.accounts[account_index(
                old(wallet)@.accounts,
                self@.account_id,
            )].balance) ==> r is Err && final(wallet)@ == old(wallet)@,
            (self@.affects_balance && has_account(old(wallet)@.accounts, self@.account_id) && (
            self@.is_income() || self@.amount <= old(wallet)@.accounts[account_index(
                old(wallet)@.accounts,
                self@.account_id,
            )].balance)) ==> {
                let i = account_index(old(wallet)@.accounts, self@.account_id);
                &&& r is Ok
                &&& final(wallet)@.accounts == old(wallet)@.accounts.update(
                    i,
                    applied_account(old(wallet)@.accounts[i], self@),
                )
                &&& final(wallet)@.total_balance == old(wallet)@.total_balance + (
                if self@.is_income() {
                    self@.amount
                } else {
                    -self@.amount
                })
            },
    {
        if !self.affects_balance {
            return Ok(());
        }
        match wallet.find_account(self.account_id.as_str()) {
            None => Err("Account not found in wallet".to_owned()),
            Some(i) => {
                proof {
                    let j = account_index(old(wallet)@.accounts, self@.account_id);
                    assert(old(wallet)@.accounts[j].id == self@.account_id);
                    assert(j == i as int);
                }
                if !self.is_income() && self.amount > wallet.accounts[i].balance {
                    return Err("The transaction's amount exceeds the current balance".to_owned());
                }
                let mut account = wallet.accounts.remove(i);
                let ghost before = account@;
                if self.is_income() {
                    account.balance = account.balance + self.amount;
                    wallet.total_balance = wallet.total_balance + self.amount;
                } else {
                    account.balance = account.balance - self.amount;
                    wallet.total_balance = wallet.total_balance - self.amount;
                }
                account.transactions_count = account.transactions_count + 1;
                let ghost prev_ids = account.transactions_id@;
                account.transactions_id.push(self.id.clone());
                proof {
                    lemma_str_views_push(prev_ids, account.transactions_id@, self@.id);
                    assert(account@ == applied_account(before, self@));
                }
                wallet.accounts.insert(i, account);
                proof {
                    assert(account_views(wallet.accounts@) =~= account_views(
                        old(wallet).accounts@,
                    ).update(i as int, applied_account(before, self@)));
                    lemma_sum_update(old(wallet)@.accounts, i as int, applied_account(before, self@));
                    assert forall|x: int, y: int|
                        0 <= x < y < wallet@.accounts.len() implies wallet@.accounts[x].id
                        != wallet@.accounts[y].id by {
                        assert(old(wallet)@.accounts[x].id != old(wallet)@.accounts[y].id);
                    }
                }
                Ok(())
            },
        }
    }

    /// Reverts this transaction from the wallet: the mirror image of
    /// `apply_to_wallet`, without the balance check.
    pub fn revert_from_wallet(&self, wallet: &mut WalletDB) -> (r: Result<(), String>)
        requires
            old(wallet).wf(),
            wallet_move_bounds(old(wallet)@, self@.amount),
        ensures
            final(wallet).wf(),
            final(wallet)@.schema_version == old(wallet)@.schema_version,
            !self@.affects_balance ==> r is Ok && final(wallet)@ == old(wallet)@,
            self@.affects_balance && !has_account(old(wallet)@.accounts, self@.account_id) ==> r
                is Err && final(wallet)@ == old(wallet)@,
            (self@.affects_balance && has_account(old(wallet)@.accounts, self@.account_id)) ==> {
                let i = account_index(old(wallet)@.accounts, self@.account_id);
                &&& r is Ok
                &&& final(wallet)@.accounts == old(wallet)@.accounts.update(
                    i,
                    reverted_account(old(wallet)@.accounts[i], self@),
                )
                &&& final(wallet)@.total_balance == old(wallet)@.total_balance - (
                if self@.is_income() {
                    self@.amount
                } else {
                    -self@.amount
                })
            },
    {
        if !self.affects_balance {
            return Ok(());
        }
        match wallet.find_account(self.account_id.as_str()) {
            None => Err("Account not found in wallet".to_owned()),
            Some(i) => {
                proof {
                    let j = account_index(old(wallet)@.accounts, self@.account_id);
                    assert(old(wallet)@.accounts[j].id == self@.account_id);
                    assert(j == i as int);
                }
                let mut account = wallet.accounts.remove(i);
                let ghost before = account@;
                if self.is_income() {
                    account.balance = account.balance - self.amount;
                    wallet.total_balance = wallet.total_balance - self.amount;
                } else {
                    account.balance = account.balance + self.amount;
                    wallet.total_balance = wallet.total_balance + self.amount;
                }
                if account.transactions_count > 0 {
                    account.transactions_count = account.transactions_count - 1;
                }
                let new_ids = retain_without_id(&account.transactions_id, self.id.as_str());
                account.transactions_id = new_ids;
                proof {
                    assert(account@ == reverted_account(before, self@));
                }
                wallet.accounts.insert(i, account);
                proof {
                    assert(account_views(wallet.accounts@) =~= account_views(
                        old(wallet).accounts@,
                    ).update(i as int, reverted_account(before, self@)));
                    lemma_sum_update(
                        old(wallet)@.accounts,
                        i as int,
                        reverted_account(before, self@),
                    );
                    assert forall|x: int, y: int|
                        0 <= x < y < wallet@.accounts.len() implies wallet@.accounts[x].id
                        != wallet@.accounts[y].id by {
                        assert(old(wallet)@.accounts[x].id != old(wallet)@.accounts[y].id);
                    }
                }
                Ok(())
            },
        }
    }
}

/// Machine bounds under which an edit from `amount` to `new_amount` stays
/// within 64 bits at every step.
pub open spec fn wallet_edit_bounds(w: WalletV, amount: int, new_amount: int) -> bool {
    &&& within_i64(w.total_balance + amount)
    &&& within_i64(w.total_balance - amount)
    &&& within_i64(w.total_balance + amount - new_amount)
    &&& within_i64(w.total_balance - amount + new_amount)
    &&& forall|k: int|
        0 <= k < w.accounts.len() ==> within_i64(#[trigger] w.accounts[k].balance + amount)
            && within_i64(w.accounts[k].balance - amount) && within_i64(
            w.accounts[k].balance + amount - new_amount,
        ) && within_i64(w.accounts[k].balance - amount + new_amount)
}

/// Rebooks the balance effect of `old_transaction` at `new_amount`: the old
/// amount is reverted and the new one applied, on the account and on the
/// cached total alike. A transaction that does not affect the balance leaves
/// the wallet alone; an unknown account fails.
pub fn update_wallet_on_edit(
    old_transaction: &Transaction,
    new_amount: i64,
    wallet: &mut WalletDB,
) -> (r: Result<(), String>)
    requires
        old(wallet).wf(),
        wallet_edit_bounds(old(wallet)@, old_transaction@.amount, new_amount as int),
    ensures
        final(wallet).wf(),
        final(wallet)@.schema_version == old(wallet)@.schema_version,
        !old_transaction@.affects_balance ==> r is Ok && final(wallet)@ == old(wallet)@,
        old_transaction@.affects_balance && !has_account(
            old(wallet)@.accounts,
            old_transaction@.account_id,
        ) ==> r is Err && final(wallet)@ == old(wallet)@,
        (old_transaction@.affects_balance && has_account(
            old(wallet)@.accounts,
            old_transaction@.account_id,
        )) ==> {
            let i = account_index(old(wallet)@.accounts, old_transaction@.account_id);
            &&& r is Ok
            &&& final(wallet)@.accounts == old(wallet)@.accounts.update(
                i,
                reamounted_account(old(wallet)@.accounts[i], old_transaction@, new_amount as int),
            )
            &&& final(wallet)@.total_balance == old(wallet)@.total_balance + (
            if old_transaction@.is_income() {
                new_amount - old_transaction@.amount
            } else {
                old_transaction@.amount - new_amount
            })
        },
{
    if !old_transaction.affects_balance {
        return Ok(());
    }
    match wallet.find_account(old_transaction.account_id.as_str()) {
        None => Err("Account not found in wallet".to_owned()),
        Some(i) => {
            proof {
                let j = account_index(old(wallet)@.accounts, old_transaction@.account_id);
                assert(old(wallet)@.accounts[j].id == old_transaction@.account_id);
                assert(j == i as int);
            }
            let mut account = wallet.accounts.remove(i);
            let ghost before = account@;
            if old_transaction.is_income() {
                account.balance = account.balance - old_transaction.amount;
                wallet.total_balance = wallet.total_balance - old_transaction.amount;
                account.balance = account.balance + new_amount;
                wallet.total_balance = wallet.total_balance + new_amount;
            } else {
                account.balance = account.balance + old_transaction.amount;
                wallet.total_balance = wallet.total_balance + old_transaction.amount;
                account.balance = account.balance - new_amount;
                wallet.total_balance = wallet.total_balance - new_amount;
            }
            proof {
                assert(account@ == reamounted_account(
                    before,
                    old_transaction@,
                    new_amount as int,
                ));
            }
            wallet.accounts.insert(i, account);
            proof {
                assert(account_views(wallet.accounts@) =~= account_views(
                    old(wallet).accounts@,
                ).update(
                    i as int,
                    reamounted_account(before, old_transaction@, new_amount as int),
                ));
                lemma_sum_update(
                    old(wallet)@.accounts,
                    i as int,
                    reamounted_account(before, old_transaction@, new_amount as int),
                );
                assert forall|x: int, y: int|
                    0 <= x < y < wallet@.accounts.len() implies wallet@.accounts[x].id
                    != wallet@.accounts[y].id by {
                    assert(old(wallet)@.accounts[x].id != old(wallet)@.accounts[y].id);
                }
            }
            Ok(())
        },
    }
}

} // verus!
