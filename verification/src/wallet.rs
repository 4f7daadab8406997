use vstd::prelude::*;

use crate::enums::{AccountType, Currency, SchemaVersion};
use crate::strnum::str_eq;
use crate::trusted::{fresh_uuid, now_millis};
use crate::views::str_views;

verus! {

/// Mathematical model of one account. Money is carried in minor currency
/// units throughout the library.
pub struct AccountV {
    pub id: Seq<char>,
    pub name: Seq<char>,
    pub kind: AccountType,
    pub balance: int,
    pub currency: Currency,
    pub created_at: int,
    pub updated_at: int,
    pub transactions_count: int,
    pub transactions_id: Seq<Seq<char>>,
}

/// One account of the wallet.
pub struct Account {
    pub id: String,
    pub name: String,
    pub kind: AccountType,
    pub balance: i64,
    pub currency: Currency,
    pub created_at: u64,
    pub updated_at: u64,
    pub transactions_count: i32,
    pub transactions_id: Vec<String>,
}

impl View for Account {
    type V = AccountV;

    open spec fn view(&self) -> AccountV {
        AccountV {
            id: self.id@,
            name: self.name@,
            kind: self.kind,
            balance: self.balance as int,
            currency: self.currency,
            created_at: self.created_at as int,
            updated_at: self.updated_at as int,
            transactions_count: self.transactions_count as int,
            transactions_id: str_views(self.transactions_id@),
        }
    }
}

impl Clone for Account {
    fn clone(&self) -> (res: Self)
        ensures
            res@ == self@,
    {
        let res = Account {
            id: self.id.clone(),
            name: self.name.clone(),
            kind: self.kind,
            balance: self.balance,
            currency: self.currency,
            created_at: self.created_at,
            updated_at: self.updated_at,
            transactions_count: self.transactions_count,
            transactions_id: self.transactions_id.clone(),
        };
        proof {
            assert forall|j: int| 0 <= j < self.transactions_id@.len() implies str_views(
                res.transactions_id@,
            )[j] == str_views(self.transactions_id@)[j] by {
                assert(vstd::pervasive::cloned(self.transactions_id@[j], res.transactions_id@[j]));
            }
            assert(str_views(res.transactions_id@) =~= str_views(self.transactions_id@));
        }
        res
    }
}

/// The data of an account to be created.
pub struct NewAccount {
    pub name: String,
    pub kind: AccountType,
    pub balance: i64,
    pub currency: Currency,
}

impl NewAccount {
    /// The account this request describes, under the given identifier and
    /// creation time.
    pub fn into_account_with(self, id: String, now: u64) -> (r: Account)
        ensures
            r@.id == id@,
            r@.name == self.name@,
            r@.kind == self.kind,
            r@.balance == self.balance as int,
            r@.currency == self.currency,
            r@.created_at == now as int,
            r@.updated_at == now as int,
            r@.transactions_count == 0,
            r@.transactions_id == Seq::<Seq<char>>::empty(),
    {
        let r = Account {
            id,
            name: self.name,
            kind: self.kind,
            balance: self.balance,
            currency: self.currency,
            created_at: now,
            updated_at: now,
            transactions_count: 0,
            transactions_id: Vec::new(),
        };
        proof {
            assert(str_views(r.transactions_id@) =~= Seq::<Seq<char>>::empty());
        }
        r
    }

    /// The account this request describes, under a fresh random identifier
    /// and the current time.
    pub fn into_account(self) -> (r: Account)
        ensures
            r@.name == self.name@,
            r@.kind == self.kind,
            r@.balance == self.balance as int,
            r@.currency == self.currency,
            r@.transactions_count == 0,
            r@.transactions_id == Seq::<Seq<char>>::empty(),
    {
        let id = fresh_uuid();
        let now = now_millis();
        self.into_account_with(id, now)
    }
}

/// The fields of an account that an edit replaces.
pub struct EditAccount {
    pub name: String,
    pub kind: AccountType,
    pub balance: i64,
}

impl EditAccount {
    /// Replaces the editable fields of `account` and stamps the given time.
    pub fn apply_to_at(&self, account: &mut Account, now: u64)
        ensures
            final(account)@ == (AccountV {
                name: self.name@,
                kind: self.kind,
                balance: self.balance as int,
                updated_at: now as int,
                ..old(account)@
            }),
    {
        account.name = self.name.clone();
        account.kind = self.kind;
        account.balance = self.balance;
        account.updated_at = now;
    }

    /// Replaces the editable fields of `account` and stamps the current time.
    pub fn apply_to(&self, account: &mut Account)
        ensures
            final(account)@.name == self.name@,
            final(account)@.kind == self.kind,
            final(account)@.balance == self.balance as int,
            final(account)@.id == old(account)@.id,
            final(account)@.currency == old(account)@.currency,
            final(account)@.created_at == old(account)@.created_at,
            final(account)@.transactions_count == old(account)@.transactions_count,
            final(account)@.transactions_id == old(account)@.transactions_id,
    {
        let now = now_millis();
        self.apply_to_at(account, now);
    }
}

/// Sum of the balances of a sequence of accounts.
pub open spec fn sum_balances(s: Seq<AccountV>) -> int
    decreases s.len(),
{
    if s.len() == 0 {
        0
    } else {
        sum_balances(s.drop_last()) + s.last().balance
    }
}

/// Replacing one account changes the sum by the difference of the balances.
pub proof fn lemma_sum_update(s: Seq<AccountV>, i: int, a: AccountV)
    requires
        0 <= i < s.len(),
    ensures
        sum_balances(s.update(i, a)) == sum_balances(s) - s[i].balance + a.balance,
    decreases s.len(),
{
    if i == s.len() - 1 {
        assert(s.update(i, a).drop_last() =~= s.drop_last());
    } else {
        assert(s.update(i, a).drop_last() =~= s.drop_last().update(i, a));
        lemma_sum_update(s.drop_last(), i, a);
    }
}

/// Removing one account lowers the sum by its balance.
pub proof fn lemma_sum_remove(s: Seq<AccountV>, i: int)
    requires
        0 <= i < s.len(),
    ensures
        sum_balances(s.remove(i)) == sum_balances(s) - s[i].balance,
    decreases s.len(),
{
    if i == s.len() - 1 {
        assert(s.remove(i) =~= s.drop_last());
    } else {
        assert(s.remove(i).drop_last() =~= s.drop_last().remove(i));
        lemma_sum_remove(s.drop_last(), i);
    }
}

/// The models of a sequence of accounts.
pub open spec fn account_views(s: Seq<Account>) -> Seq<AccountV> {
    s.map_values(|a: Account| a@)
}

/// Whether some account of `s` carries the identifier `id`.
pub open spec fn has_account(s: Seq<AccountV>, id: Seq<char>) -> bool {
    exists|i: int| 0 <= i < s.len() && s[i].id == id
}

/// The index of the account carrying `id` (unique under `WalletV::wf`).
pub open spec fn account_index(s: Seq<AccountV>, id: Seq<char>) -> int {
    choose|i: int| 0 <= i < s.len() && s[i].id == id
}

/// The wallet's cached total always equals the sum of the account
/// balances: the invariant every constructor establishes and every mutation
/// of this library preserves, so it holds after any sequence of them.
pub proof fn lemma_total_balance_is_sum(w: WalletV)
    requires
        w.wf(),
    ensures
        w.total_balance == sum_balances(w.accounts),
{
}

/// Mathematical model of the wallet store.
pub struct WalletV {
    pub total_balance: int,
    pub accounts: Seq<AccountV>,
    pub schema_version: SchemaVersion,
}

impl WalletV {
    /// The store's invariant: the cached total equals the sum of the account
    /// balances, and identifiers are unique.
    pub open spec fn wf(self) -> bool {
        &&& self.total_balance == sum_balances(self.accounts)
        &&& forall|i: int, j: int|
            0 <= i < j < self.accounts.len() ==> self.accounts[i].id != self.accounts[j].id
    }
}

/// The wallet store: the accounts and their cached total balance.
pub struct WalletDB {
    pub total_balance: i64,
    pub accounts: Vec<Account>,
    pub schema_version: SchemaVersion,
}

impl View for WalletDB {
    type V = WalletV;

    open spec fn view(&self) -> WalletV {
        WalletV {
            total_balance: self.total_balance as int,
            accounts: account_views(self.accounts@),
            schema_version: self.schema_version,
        }
    }
}

impl WalletDB {
    /// The store's invariant; see `WalletV::wf`.
    pub open spec fn wf(&self) -> bool {
        self@.wf()
    }

    /// A wallet with no accounts.
    pub fn empty() -> (r: Self)
        ensures
            r@.accounts == Seq::<AccountV>::empty(),
            r@.total_balance == 0,
            r@.schema_version == SchemaVersion::V1,
            r.wf(),
    {
        let r = WalletDB { total_balance: 0, accounts: Vec::new(), schema_version: SchemaVersion::V1 };
        proof {
            assert(r@.accounts =~= Seq::<AccountV>::empty());
        }
        r
    }

    /// The position of the account carrying `id`, if any.
    pub fn find_account(&self, id: &str) -> (r: Option<usize>)
        ensures
            match r {
                Some(i) => i < self@.accounts.len() && self@.accounts[i as int].id == id@
                    && account_index(self@.accounts, id@) < self@.accounts.len(),
                None => !has_account(self@.accounts, id@),
            },
    {
        let mut i: usize = 0;
        while i < self.accounts.len()
            invariant
                i <= self.accounts.len(),
                self@.accounts.len() == self.accounts.len(),
                forall|j: int| 0 <= j < i ==> self@.accounts[j].id != id@,
            decreases self.accounts.len() - i,
        {
            if str_eq(self.accounts[i].id.as_str(), id) {
                return Some(i);
            }
            i = i + 1;
        }
        None
    }

    /// Adds the account described by `entry` under the given identifier and
    /// creation time, and raises the cached total by its opening balance.
    pub fn add_account_with(&mut self, entry: NewAccount, id: String, now: u64) -> (r: Account)
        requires
            old(self).wf(),
            !has_account(old(self)@.accounts, id@),
            i64::MIN <= old(self)@.total_balance + entry.balance <= i64::MAX,
        ensures
            final(self).wf(),
            final(self)@.accounts == old(self)@.accounts.push(r@),
            final(self)@.total_balance == old(self)@.total_balance + entry.balance as int,
            final(self)@.schema_version == old(self)@.schema_version,
            r@.id == id@,
            r@.name == entry.name@,
            r@.kind == entry.kind,
            r@.balance == entry.balance as int,
            r@.currency == entry.currency,
            r@.created_at == now as int,
            r@.updated_at == now as int,
            r@.transactions_count == 0,
            r@.transactions_id == Seq::<Seq<char>>::empty(),
    {
        let balance = entry.balance;
        let account = entry.into_account_with(id, now);
        let r = account.clone();
        self.total_balance = self.total_balance + balance;
        self.accounts.push(account);
        proof {
            assert(account_views(self.accounts@) =~= account_views(old(self).accounts@).push(r@));
            assert(self@.accounts.drop_last() =~= old(self)@.accounts);
        }
        r
    }

    /// Adds the account described by `entry` under a fresh random identifier.
    /// Returns `None`, leaving the wallet unchanged, in the vanishingly rare
    /// case that the fresh identifier is already taken.
    pub fn add_account(&mut self, entry: NewAccount) -> (r: Option<Account>)
        requires
            old(self).wf(),
            i64::MIN <= old(self)@.total_balance + entry.balance <= i64::MAX,
        ensures
            final(self).wf(),
            match r {
                Some(a) => final(self)@.accounts == old(self)@.accounts.push(a@)
                    && final(self)@.total_balance == old(self)@.total_balance + entry.balance as int
                    && a@.name == entry.name@ && a@.kind == entry.kind
                    && a@.balance == entry.balance as int && a@.currency == entry.currency
                    && a@.transactions_count == 0
                    && a@.transactions_id == Seq::<Seq<char>>::empty()
                    && !has_account(old(self)@.accounts, a@.id),
                None => final(self)@ == old(self)@,
            },
            final(self)@.schema_version == old(self)@.schema_version,
    {
        let id = fresh_uuid();
        let now = now_millis();
        if self.find_account(id.as_str()).is_some() {
            return None;
        }
        Some(self.add_account_with(entry, id, now))
    }

    /// Removes the account carrying `id` and lowers the cached total by its
    /// balance; fails if no account carries it.
    pub fn remove_account(&mut self, id: &str) -> (r: Result<Account, String>)
        requires
            old(self).wf(),
            forall|k: int|
                0 <= k < old(self)@.accounts.len() ==> i64::MIN <= old(self)@.total_balance
                    - #[trigger] old(self)@.accounts[k].balance <= i64::MAX,
        ensures
            final(self).wf(),
            final(self)@.schema_version == old(self)@.schema_version,
            match r {
                Ok(a) => {
                    let i = account_index(old(self)@.accounts, id@);
                    &&& has_account(old(self)@.accounts, id@)
                    &&& a@ == old(self)@.accounts[i]
                    &&& final(self)@.accounts == old(self)@.accounts.remove(i)
                    &&& final(self)@.total_balance == old(self)@.total_balance - a@.balance
                },
                Err(_) => !has_account(old(self)@.accounts, id@) && final(self)@ == old(self)@,
            },
    {
        match self.find_account(id) {
            None => Err("Account not found".to_owned()),
            Some(i) => {
                proof {
                    let j = account_index(old(self)@.accounts, id@);
                    assert(old(self)@.accounts[j].id == id@);
                    assert(j == i as int);
                    lemma_sum_remove(old(self)@.accounts, i as int);
                }
                let account = self.accounts.remove(i);
                self.total_balance = self.total_balance - account.balance;
                proof {
                    assert(account_views(self.accounts@) =~= account_views(
                        old(self).accounts@,
                    ).remove(i as int));
                }
                Ok(account)
            },
        }
    }

    /// Replaces the editable fields of the account carrying `id`, moving the
    /// cached total by the difference of the old and new balances; fails if
    /// no account carries it.
    pub fn edit_account_at(&mut self, id: &str, edit: EditAccount, now: u64) -> (r: Result<
        Account,
        String,
    >)
        requires
            old(self).wf(),
            forall|k: int|
                0 <= k < old(self)@.accounts.len() ==> i64::MIN <= old(self)@.total_balance
                    - #[trigger] old(self)@.accounts[k].balance <= i64::MAX,
            forall|k: int|
                0 <= k < old(self)@.accounts.len() ==> i64::MIN <= old(self)@.total_balance
                    - #[trigger] old(self)@.accounts[k].balance + edit.balance <= i64::MAX,
        ensures
            final(self).wf(),
            final(self)@.schema_version == old(self)@.schema_version,
            match r {
                Ok(a) => {
                    let i = account_index(old(self)@.accounts, id@);
                    &&& has_account(old(self)@.accounts, id@)
                    &&& a@ == (AccountV {
                        name: edit.name@,
                        kind: edit.kind,
                        balance: edit.balance as int,
                        updated_at: now as int,
                        ..old(self)@.accounts[i]
                    })
                    &&& final(self)@.accounts == old(self)@.accounts.update(i, a@)
                    &&& final(self)@.total_balance == old(self)@.total_balance
                        - old(self)@.accounts[i].balance + edit.balance
                },
                Err(_) => !has_account(old(self)@.accounts, id@) && final(self)@ == old(self)@,
            },
    {
        match self.find_account(id) {
            None => Err("Account not found".to_owned()),
            Some(i) => {
                proof {
                    let j = account_index(old(self)@.accounts, id@);
                    assert(old(self)@.accounts[j].id == id@);
                    assert(j == i as int);
                    assert(self.accounts@[i as int]@ == old(self)@.accounts[i as int]);
                    assert(i64::MIN <= old(self)@.total_balance - old(self)@.accounts[i as int].balance
                        <= i64::MAX);
                    assert(i64::MIN <= old(self)@.total_balance - old(self)@.accounts[i as int].balance
                        + edit.balance <= i64::MAX);
                }
                let old_balance = self.accounts[i].balance;
                self.total_balance = self.total_balance - old_balance + edit.balance;
                let mut account = self.accounts.remove(i);
                edit.apply_to_at(&mut account, now);
                let r = account.clone();
                self.accounts.insert(i, account);
                proof {
                    assert(account_views(self.accounts@) =~= account_views(
                        old(self).accounts@,
                    ).update(i as int, r@));
                    lemma_sum_update(old(self)@.accounts, i as int, r@);
                    assert forall|x: int, y: int|
                        0 <= x < y < self@.accounts.len() implies self@.accounts[x].id
                        != self@.accounts[y].id by {
                        assert(old(self)@.accounts[x].id != old(self)@.accounts[y].id);
                    }
                }
                Ok(r)
            },
        }
    }

    /// Replaces the editable fields of the account carrying `id`, stamping
    /// the current time.
    pub fn edit_account(&mut self, id: &str, edit: EditAccount) -> (r: Result<Account, String>)
        requires
            old(self).wf(),
            forall|k: int|
                0 <= k < old(self)@.accounts.len() ==> i64::MIN <= old(self)@.total_balance
                    - #[trigger] old(self)@.accounts[k].balance <= i64::MAX,
            forall|k: int|
                0 <= k < old(self)@.accounts.len() ==> i64::MIN <= old(self)@.total_balance
                    - #[trigger] old(self)@.accounts[k].balance + edit.balance <= i64::MAX,
        ensures
            final(self).wf(),
            final(self)@.schema_version == old(self)@.schema_version,
            match r {
                Ok(a) => {
                    let i = account_index(old(self)@.accounts, id@);
                    &&& has_account(old(self)@.accounts, id@)
                    &&& a@.name == edit.name@
                    &&& a@.kind == edit.kind
                    &&& a@.balance == edit.balance as int
                    &&& a@.id == old(self)@.accounts[i].id
                    &&& final(self)@.accounts == old(self)@.accounts.update(i, a@)
                    &&& final(self)@.total_balance == old(self)@.total_balance
                        - old(self)@.accounts[i].balance + edit.balance
                },
                Err(_) => !has_account(old(self)@.accounts, id@) && final(self)@ == old(self)@,
            },
    {
        let now = now_millis();
        self.edit_account_at(id, edit, now)
    }

    /// All accounts, in store order.
    pub fn get_accounts(&self) -> (r: Vec<Account>)
        ensures
            account_views(r@) == self@.accounts,
    {
        let mut out: Vec<Account> = Vec::new();
        let mut i: usize = 0;
        while i < self.accounts.len()
            invariant
                i <= self.accounts.len(),
                self@.accounts.len() == self.accounts.len(),
                account_views(out@) =~= self@.accounts.take(i as int),
            decreases self.accounts.len() - i,
        {
            let acct = self.accounts[i].clone();
            let ghost av = acct@;
            let ghost prev = out@;
            out.push(acct);
            proof {
                assert(av == self@.accounts[i as int]);
                assert(out@.len() == prev.len() + 1);
                assert(account_views(out@).len() == out@.len());
                assert(account_views(prev).len() == prev.len());
                assert(prev.len() == i as int);
                assert forall|j: int| 0 <= j < prev.len() + 1 implies account_views(out@)[j]
                    == self@.accounts.take(i as int + 1)[j] by {
                    assert(account_views(out@)[j] == out@[j]@);
                    assert(self@.accounts.take(i as int + 1)[j] == self@.accounts[j]);
                    if j < prev.len() {
                        assert(out@[j] == prev[j]);
                        assert(account_views(prev)[j] == prev[j]@);
                        assert(account_views(prev)[j] == self@.accounts.take(i as int)[j]);
                        assert(self@.accounts.take(i as int)[j] == self@.accounts[j]);
                    } else {
                        assert(j == i as int);
                        assert(out@[j]@ == av);
                    }
                }
                assert(account_views(out@) =~= self@.accounts.take(i as int + 1));
            }
            i = i + 1;
        }
        proof {
            assert(self@.accounts.take(self.accounts.len() as int) =~= self@.accounts);
        }
        out
    }

    /// How many accounts the wallet holds.
    pub fn accounts_count(&self) -> (r: u32)
        requires
            self@.accounts.len() <= u32::MAX,
        ensures
            r == self@.accounts.len(),
    {
        self.accounts.len() as u32
    }
}

} // verus!
