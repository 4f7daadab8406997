use vstd::prelude::*;

use crate::enums::{SchemaVersion, TransactionType};
use crate::strnum::str_eq;
use crate::trusted::{fresh_uuid, lower_of, now_millis};
use crate::views::{opt_str_view, within_i64};

verus! {

/// Mathematical model of one item line of a transaction.
pub struct TransactionItemRefV {
    pub item_id: Option<Seq<char>>,
    pub name: Seq<char>,
    pub quantity: Option<int>,
    pub price: Option<int>,
}

/// One item line of a transaction: a catalog reference (when resolved), a
/// display name, and the purchased quantity and unit price in minor units.
pub struct TransactionItemRef {
    pub item_id: Option<String>,
    pub name: String,
    pub quantity: Option<u32>,
    pub price: Option<i64>,
}

impl View for TransactionItemRef {
    type V = TransactionItemRefV;

    open spec fn view(&self) -> TransactionItemRefV {
        TransactionItemRefV {
            item_id: opt_str_view(self.item_id),
            name: self.name@,
            quantity: match self.quantity {
                Some(q) => Some(q as int),
                None => None,
            },
            price: match self.price {
                Some(p) => Some(p as int),
                None => None,
            },
        }
    }
}

impl Clone for TransactionItemRef {
    fn clone(&self) -> (res: Self)
        ensures
            res@ == self@,
    {
        TransactionItemRef {
            item_id: match &self.item_id {
                Some(s) => Some(s.clone()),
                None => None,
            },
            name: self.name.clone(),
            quantity: self.quantity,
            price: self.price,
        }
    }
}

/// The views of a sequence of item lines.
pub open spec fn item_ref_views(s: Seq<TransactionItemRef>) -> Seq<TransactionItemRefV> {
    s.map_values(|r: TransactionItemRef| r@)
}

/// Appending one item line appends its view.
pub proof fn lemma_item_ref_views_push(
    pre: Seq<TransactionItemRef>,
    post: Seq<TransactionItemRef>,
    xv: TransactionItemRefV,
)
    requires
        post.len() == pre.len() + 1,
        forall|j: int| 0 <= j < pre.len() ==> post[j] == pre[j],
        post[pre.len() as int]@ == xv,
    ensures
        item_ref_views(post) == item_ref_views(pre).push(xv),
{
    assert forall|j: int| 0 <= j < post.len() implies item_ref_views(post)[j] == item_ref_views(
        pre,
    ).push(xv)[j] by {
        assert(item_ref_views(post)[j] == post[j]@);
        if j < pre.len() {
            assert(item_ref_views(pre)[j] == pre[j]@);
        }
    }
    assert(item_ref_views(post) =~= item_ref_views(pre).push(xv));
}

/// The view of an optional list of item lines.
pub open spec fn opt_items_view(o: Option<Vec<TransactionItemRef>>) -> Option<
    Seq<TransactionItemRefV>,
> {
    match o {
        Some(v) => Some(item_ref_views(v@)),
        None => None,
    }
}

/// Mathematical model of one transaction. Amounts are minor currency units.
pub struct TransactionV {
    pub id: Seq<char>,
    pub amount: int,
    pub date: int,
    pub created_at: int,
    pub updated_at: int,
    pub details: Seq<char>,
    pub kind: TransactionType,
    pub affects_balance: bool,
    pub account_id: Seq<char>,
    pub category: Seq<char>,
    pub store_name: Option<Seq<char>>,
    pub items: Option<Seq<TransactionItemRefV>>,
    pub job: Option<Seq<char>>,
    pub employer: Option<Seq<char>>,
    pub extra_details: Option<Seq<char>>,
    pub client: Option<Seq<char>>,
    pub project: Option<Seq<char>>,
}

impl TransactionV {
    /// Whether the transaction raises the ledger's income total.
    pub open spec fn is_income(self) -> bool {
        self.kind == TransactionType::Income
    }
}

/// One ledger transaction.
pub struct Transaction {
    pub id: String,
    pub amount: i64,
    pub date: u64,
    pub created_at: u64,
    pub updated_at: u64,
    pub details: String,
    pub kind: TransactionType,
    pub affects_balance: bool,
    pub account_id: String,
    pub category: String,
    pub store_name: Option<String>,
    pub items: Option<Vec<TransactionItemRef>>,
    pub job: Option<String>,
    pub employer: Option<String>,
    pub extra_details: Option<String>,
    pub client: Option<String>,
    pub project: Option<String>,
}

impl View for Transaction {
    type V = TransactionV;

    open spec fn view(&self) -> TransactionV {
        TransactionV {
            id: self.id@,
            amount: self.amount as int,
            date: self.date as int,
            created_at: self.created_at as int,
            updated_at: self.updated_at as int,
            details: self.details@,
            kind: self.kind,
            affects_balance: self.affects_balance,
            account_id: self.account_id@,
            category: self.category@,
            store_name: opt_str_view(self.store_name),
            items: opt_items_view(self.items),
            job: opt_str_view(self.job),
            employer: opt_str_view(self.employer),
            extra_details: opt_str_view(self.extra_details),
            client: opt_str_view(self.client),
            project: opt_str_view(self.project),
        }
    }
}

/// Clones an optional string.
pub fn clone_opt_string(o: &Option<String>) -> (r: Option<String>)
    ensures
        opt_str_view(r) == opt_str_view(*o),
{
    match o {
        Some(s) => Some(s.clone()),
        None => None,
    }
}

/// Clones an optional list of item lines.
fn clone_opt_items(o: &Option<Vec<TransactionItemRef>>) -> (r: Option<Vec<TransactionItemRef>>)
    ensures
        opt_items_view(r) == opt_items_view(*o),
{
    match o {
        Some(v) => {
            let mut out: Vec<TransactionItemRef> = Vec::new();
            let mut i: usize = 0;
            while i < v.len()
                invariant
                    i <= v@.len(),
                    item_ref_views(out@) =~= item_ref_views(v@).take(i as int),
                decreases v@.len() - i,
            {
                let x = v[i].clone();
                let ghost xv = x@;
                let ghost prev = out@;
                out.push(x);
                proof {
                    lemma_item_ref_views_push(prev, out@, xv);
                    assert(item_ref_views(out@) =~= item_ref_views(v@).take(i as int + 1));
                }
                i = i + 1;
            }
            proof {
                assert(item_ref_views(v@).take(v@.len() as int) =~= item_ref_views(v@));
            }
            Some(out)
        },
        None => None,
    }
}

impl Clone for Transaction {
    fn clone(&self) -> (res: Self)
        ensures
            res@ == self@,
    {
        Transaction {
            id: self.id.clone(),
            amount: self.amount,
            date: self.date,
            created_at: self.created_at,
            updated_at: self.updated_at,
            details: self.details.clone(),
            kind: self.kind,
            affects_balance: self.affects_balance,
            account_id: self.account_id.clone(),
            category: self.category.clone(),
            store_name: clone_opt_string(&self.store_name),
            items: clone_opt_items(&self.items),
            job: clone_opt_string(&self.job),
            employer: clone_opt_string(&self.employer),
            extra_details: clone_opt_string(&self.extra_details),
            client: clone_opt_string(&self.client),
            project: clone_opt_string(&self.project),
        }
    }
}

impl Transaction {
    /// The transaction's direction as the word the wire format uses.
    pub fn get_type(&self) -> (r: String)
        ensures
            self@.kind == TransactionType::Income ==> r@ == "income"@,
            self@.kind == TransactionType::Expense ==> r@ == "expense"@,
    {
        match self.kind {
            TransactionType::Income => "income".to_owned(),
            TransactionType::Expense => "expense".to_owned(),
        }
    }

    /// Whether the transaction raises the ledger's income total.
    pub fn is_income(&self) -> (r: bool)
        ensures
            r == self@.is_income(),
    {
        self.kind == TransactionType::Income
    }
}

/// The data of a transaction to be created.
pub struct RequestCreateTransaction {
    pub amount: i64,
    pub date: u64,
    pub details: String,
    pub kind: TransactionType,
    pub affects_balance: bool,
    pub account_id: String,
    pub category: String,
    pub store_name: Option<String>,
    pub items: Option<Vec<TransactionItemRef>>,
    pub job: Option<String>,
    pub employer: Option<String>,
    pub extra_details: Option<String>,
    pub client: Option<String>,
    pub project: Option<String>,
}

impl RequestCreateTransaction {
    /// The transaction this request describes, viewed with the given
    /// identifier and creation time.
    pub open spec fn transaction_view(self, id: Seq<char>, now: int) -> TransactionV {
        TransactionV {
            id: id,
            amount: self.amount as int,
            date: self.date as int,
            created_at: now,
            updated_at: now,
            details: self.details@,
            kind: self.kind,
            affects_balance: self.affects_balance,
            account_id: self.account_id@,
            category: self.category@,
            store_name: opt_str_view(self.store_name),
            items: opt_items_view(self.items),
            job: opt_str_view(self.job),
            employer: opt_str_view(self.employer),
            extra_details: opt_str_view(self.extra_details),
            client: opt_str_view(self.client),
            project: opt_str_view(self.project),
        }
    }

    /// The transaction this request describes, under the given identifier
    /// and creation time.
    pub fn into_transaction_with(self, id: String, now: u64) -> (r: Transaction)
        ensures
            r@ == self.transaction_view(id@, now as int),
    {
        Transaction {
            id,
            amount: self.amount,
            date: self.date,
            created_at: now,
            updated_at: now,
            details: self.details,
            kind: self.kind,
            affects_balance: self.affects_balance,
            account_id: self.account_id,
            category: self.category,
            store_name: self.store_name,
            items: self.items,
            job: self.job,
            employer: self.employer,
            extra_details: self.extra_details,
            client: self.client,
            project: self.project,
        }
    }

    /// The transaction this request describes, under a fresh random
    /// identifier and the current time.
    pub fn into_transaction(self) -> (r: Transaction)
        ensures
            exists|id: Seq<char>, now: int| r@ == self.transaction_view(id, now),
    {
        let id = fresh_uuid();
        let now = now_millis();
        let ghost gid = id@;
        let r = self.into_transaction_with(id, now);
        proof {
            assert(r@ == self.transaction_view(gid, now as int));
        }
        r
    }
}

/// The fields of a transaction that an edit replaces.
pub struct RequestEditTransaction {
    pub amount: i64,
    pub date: u64,
    pub details: String,
    pub store_name: Option<String>,
    pub items: Option<Vec<TransactionItemRef>>,
    pub job: Option<String>,
    pub employer: Option<String>,
    pub extra_details: Option<String>,
    pub client: Option<String>,
    pub project: Option<String>,
}

impl RequestEditTransaction {
    /// The view of `t` after this edit is applied at time `now`.
    pub open spec fn edited_view(self, t: TransactionV, now: int) -> TransactionV {
        TransactionV {
            amount: self.amount as int,
            date: self.date as int,
            details: self.details@,
            store_name: opt_str_view(self.store_name),
            items: opt_items_view(self.items),
            job: opt_str_view(self.job),
            employer: opt_str_view(self.employer),
            extra_details: opt_str_view(self.extra_details),
            client: opt_str_view(self.client),
            project: opt_str_view(self.project),
            updated_at: now,
            ..t
        }
    }

    /// Replaces the editable fields of `transaction` and stamps the given
    /// time.
    pub fn apply_to_at(&self, transaction: &mut Transaction, now: u64)
        ensures
            final(transaction)@ == self.edited_view(old(transaction)@, now as int),
    {
        transaction.amount = self.amount;
        transaction.date = self.date;
        transaction.details = self.details.clone();
        transaction.store_name = clone_opt_string(&self.store_name);
        transaction.items = clone_opt_items(&self.items);
        transaction.job = clone_opt_string(&self.job);
        transaction.employer = clone_opt_string(&self.employer);
        transaction.extra_details = clone_opt_string(&self.extra_details);
        transaction.client = clone_opt_string(&self.client);
        transaction.project = clone_opt_string(&self.project);
        transaction.updated_at = now;
    }

    /// Replaces the editable fields of `transaction` and stamps the current
    /// time.
    pub fn apply_to(&self, transaction: &mut Transaction)
        ensures
            exists|now: int| final(transaction)@ == self.edited_view(old(transaction)@, now),
    {
        let now = now_millis();
        self.apply_to_at(transaction, now);
    }
}

/// The models of a sequence of transactions.
pub open spec fn transaction_views(s: Seq<Transaction>) -> Seq<TransactionV> {
    s.map_values(|t: Transaction| t@)
}

/// Appending one transaction appends its view.
pub proof fn lemma_transaction_views_push(
    pre: Seq<Transaction>,
    post: Seq<Transaction>,
    xv: TransactionV,
)
    requires
        post.len() == pre.len() + 1,
        forall|j: int| 0 <= j < pre.len() ==> post[j] == pre[j],
        post[pre.len() as int]@ == xv,
    ensures
        transaction_views(post) == transaction_views(pre).push(xv),
{
    assert forall|j: int| 0 <= j < post.len() implies transaction_views(post)[j]
        == transaction_views(pre).push(xv)[j] by {
        assert(transaction_views(post)[j] == post[j]@);
        if j < pre.len() {
            assert(transaction_views(pre)[j] == pre[j]@);
        }
    }
    assert(transaction_views(post) =~= transaction_views(pre).push(xv));
}

/// Sum of the amounts of the income transactions of `s`.
pub open spec fn sum_income(s: Seq<TransactionV>) -> int
    decreases s.len(),
{
    if s.len() == 0 {
        0
    } else {
        sum_income(s.drop_last()) + if s.last().is_income() {
            s.last().amount
        } else {
            0
        }
    }
}

/// Sum of the amounts of the non-income transactions of `s`.
pub open spec fn sum_expenses(s: Seq<TransactionV>) -> int
    decreases s.len(),
{
    if s.len() == 0 {
        0
    } else {
        sum_expenses(s.drop_last()) + if s.last().is_income() {
            0
        } else {
            s.last().amount
        }
    }
}

/// Removing one transaction lowers the matching total by its amount.
pub proof fn lemma_sums_remove(s: Seq<TransactionV>, i: int)
    requires
        0 <= i < s.len(),
    ensures
        sum_income(s.remove(i)) == sum_income(s) - if s[i].is_income() {
            s[i].amount
        } else {
            0
        },
        sum_expenses(s.remove(i)) == sum_expenses(s) - if s[i].is_income() {
            0
        } else {
            s[i].amount
        },
    decreases s.len(),
{
    if i == s.len() - 1 {
        assert(s.remove(i) =~= s.drop_last());
    } else {
        assert(s.remove(i).drop_last() =~= s.drop_last().remove(i));
        lemma_sums_remove(s.drop_last(), i);
    }
}

/// Replacing one transaction moves each total by the difference it carries.
pub proof fn lemma_sums_update(s: Seq<TransactionV>, i: int, t: TransactionV)
    requires
        0 <= i < s.len(),
    ensures
        sum_income(s.update(i, t)) == sum_income(s) - (if s[i].is_income() {
            s[i].amount
        } else {
            0
        }) + (if t.is_income() {
            t.amount
        } else {
            0
        }),
        sum_expenses(s.update(i, t)) == sum_expenses(s) - (if s[i].is_income() {
            0
        } else {
            s[i].amount
        }) + (if t.is_income() {
            0
        } else {
            t.amount
        }),
    decreases s.len(),
{
    if i == s.len() - 1 {
        assert(s.update(i, t).drop_last() =~= s.drop_last());
    } else {
        assert(s.update(i, t).drop_last() =~= s.drop_last().update(i, t));
        lemma_sums_update(s.drop_last(), i, t);
    }
}

/// The item lines of a transaction, or none.
pub open spec fn tx_refs(t: TransactionV) -> Seq<TransactionItemRefV> {
    match t.items {
        Some(s) => s,
        None => Seq::empty(),
    }
}

/// Whether the lower-cased query `q` occurs in the transaction's lower-cased
/// details or category (both texts must be machine-indexable).
pub open spec fn matches_query(t: TransactionV, q: Seq<char>) -> bool {
    ||| (lower_of(t.details).len() < usize::MAX && crate::strnum::contains_seq(
        lower_of(t.details),
        q,
    ))
    ||| (lower_of(t.category).len() < usize::MAX && crate::strnum::contains_seq(
        lower_of(t.category),
        q,
    ))
}

/// Whether some transaction of `s` carries the identifier `id`.
pub open spec fn has_transaction(s: Seq<TransactionV>, id: Seq<char>) -> bool {
    exists|i: int| 0 <= i < s.len() && s[i].id == id
}

/// The index of the transaction carrying `id` (unique under
/// `TransactionDBV::wf`).
pub open spec fn transaction_index(s: Seq<TransactionV>, id: Seq<char>) -> int {
    choose|i: int| 0 <= i < s.len() && s[i].id == id
}

/// The ledger totals, as the callers of the store read them.
pub struct FinancialSummary {
    pub net_balance: i64,
    pub total_income: i64,
    pub total_expenses: i64,
    pub transactions_count: usize,
}

/// Mathematical model of the transaction store.
pub struct TransactionDBV {
    pub data: Seq<TransactionV>,
    pub net_balance: int,
    pub total_income: int,
    pub total_expenses: int,
    pub schema_version: SchemaVersion,
}

impl TransactionDBV {
    /// The store's invariant: the cached totals equal the sums over the
    /// transactions, the net balance is income minus expenses, and
    /// identifiers are unique.
    pub open spec fn wf(self) -> bool {
        &&& self.total_income == sum_income(self.data)
        &&& self.total_expenses == sum_expenses(self.data)
        &&& self.net_balance == self.total_income - self.total_expenses
        &&& forall|i: int, j: int| 0 <= i < j < self.data.len() ==> self.data[i].id != self.data[j].id
    }
}

/// The net balance always equals total income minus total expenses, and the
/// cached totals always equal the sums over the stored transactions: the
/// invariant every constructor establishes and every mutation of this
/// library preserves.
pub proof fn lemma_net_balance_is_income_minus_expenses(db: TransactionDBV)
    requires
        db.wf(),
    ensures
        db.net_balance == db.total_income - db.total_expenses,
        db.total_income == sum_income(db.data),
        db.total_expenses == sum_expenses(db.data),
{
}

/// The transaction store: the ledger of what happened, with cached totals.
pub struct TransactionDB {
    pub data: Vec<Transaction>,
    pub net_balance: i64,
    pub total_income: i64,
    pub total_expenses: i64,
    pub schema_version: SchemaVersion,
}

impl View for TransactionDB {
    type V = TransactionDBV;

    open spec fn view(&self) -> TransactionDBV {
        TransactionDBV {
            data: transaction_views(self.data@),
            net_balance: self.net_balance as int,
            total_income: self.total_income as int,
            total_expenses: self.total_expenses as int,
            schema_version: self.schema_version,
        }
    }
}

impl TransactionDB {
    /// The store's invariant; see `TransactionDBV::wf`.
    pub open spec fn wf(&self) -> bool {
        self@.wf()
    }

    /// A ledger with no transactions.
    pub fn empty() -> (r: Self)
        ensures
            r@.data == Seq::<TransactionV>::empty(),
            r@.net_balance == 0,
            r@.total_income == 0,
            r@.total_expenses == 0,
            r@.schema_version == SchemaVersion::V1,
            r.wf(),
    {
        let r = TransactionDB {
            data: Vec::new(),
            net_balance: 0,
            total_income: 0,
            total_expenses: 0,
            schema_version: SchemaVersion::V1,
        };
        proof {
            assert(r@.data =~= Seq::<TransactionV>::empty());
        }
        r
    }

    /// A ledger with no transactions.
    pub fn new() -> (r: Self)
        ensures
            r@.data == Seq::<TransactionV>::empty(),
            r@.net_balance == 0,
            r@.total_income == 0,
            r@.total_expenses == 0,
            r.wf(),
    {
        Self::empty()
    }

    /// The position of the transaction carrying `id`, if any.
    pub fn find_transaction(&self, id: &str) -> (r: Option<usize>)
        ensures
            match r {
                Some(i) => i < self@.data.len() && self@.data[i as int].id == id@
                    && transaction_index(self@.data, id@) < self@.data.len(),
                None => !has_transaction(self@.data, id@),
            },
    {
        let mut i: usize = 0;
        while i < self.data.len()
            invariant
                i <= self.data.len(),
                self@.data.len() == self.data.len(),
                forall|j: int| 0 <= j < i ==> self@.data[j].id != id@,
            decreases self.data.len() - i,
        {
            if str_eq(self.data[i].id.as_str(), id) {
                return Some(i);
            }
            i = i + 1;
        }
        None
    }

    /// Adds the transaction described by `entry` under the given identifier
    /// and creation time, and raises the matching total by its amount.
    pub fn add_transaction_with(&mut self, entry: RequestCreateTransaction, id: String, now: u64)
        -> (r: Transaction)
        requires
            old(self).wf(),
            !has_transaction(old(self)@.data, id@),
            within_i64(old(self)@.total_income + entry.amount),
            within_i64(old(self)@.total_expenses + entry.amount),
            within_i64(old(self)@.total_income + entry.amount - old(self)@.total_expenses),
            within_i64(old(self)@.total_income - old(self)@.total_expenses - entry.amount),
        ensures
            final(self).wf(),
            r@ == entry.transaction_view(id@, now as int),
            final(self)@.data == old(self)@.data.push(r@),
            final(self)@.total_income == old(self)@.total_income + if r@.is_income() {
                r@.amount
            } else {
                0
            },
            final(self)@.total_expenses == old(self)@.total_expenses + if r@.is_income() {
                0
            } else {
                r@.amount
            },
            final(self)@.net_balance == final(self)@.total_income - final(self)@.total_expenses,
            final(self)@.schema_version == old(self)@.schema_version,
    {
        let transaction = entry.into_transaction_with(id, now);
        let r = transaction.clone();
        if transaction.is_income() {
            self.total_income = self.total_income + transaction.amount;
        } else {
            self.total_expenses = self.total_expenses + transaction.amount;
        }
        self.net_balance = self.total_income - self.total_expenses;
        self.data.push(transaction);
        proof {
            assert(transaction_views(self.data@) =~= transaction_views(old(self).data@).push(r@));
            assert(self@.data.drop_last() =~= old(self)@.data);
        }
        r
    }

    /// Books an already-built transaction and raises the matching total by
    /// its amount.
    pub fn insert_transaction(&mut self, transaction: Transaction)
        requires
            old(self).wf(),
            !has_transaction(old(self)@.data, transaction@.id),
            within_i64(old(self)@.total_income + transaction@.amount),
            within_i64(old(self)@.total_expenses + transaction@.amount),
            within_i64(old(self)@.total_income + transaction@.amount - old(self)@.total_expenses),
            within_i64(old(self)@.total_income - old(self)@.total_expenses - transaction@.amount),
        ensures
            final(self).wf(),
            final(self)@.data == old(self)@.data.push(transaction@),
            final(self)@.total_income == old(self)@.total_income + if transaction@.is_income() {
                transaction@.amount
            } else {
                0
            },
            final(self)@.total_expenses == old(self)@.total_expenses + if transaction@.is_income() {
                0
            } else {
                transaction@.amount
            },
            final(self)@.net_balance == final(self)@.total_income - final(self)@.total_expenses,
            final(self)@.schema_version == old(self)@.schema_version,
    {
        let ghost tv = transaction@;
        if transaction.is_income() {
            self.total_income = self.total_income + transaction.amount;
        } else {
            self.total_expenses = self.total_expenses + transaction.amount;
        }
        self.net_balance = self.total_income - self.total_expenses;
        let ghost prev = self.data@;
        self.data.push(transaction);
        proof {
            lemma_transaction_views_push(prev, self.data@, tv);
            assert(self@.data.drop_last() =~= old(self)@.data);
        }
    }

    /// Adds the transaction described by `entry` under a fresh random
    /// identifier and the current time. Returns `None`, leaving the ledger
    /// unchanged, in the vanishingly rare case that the fresh identifier is
    /// already taken.
    pub fn add_transaction(&mut self, entry: RequestCreateTransaction) -> (r: Option<Transaction>)
        requires
            old(self).wf(),
            within_i64(old(self)@.total_income + entry.amount),
            within_i64(old(self)@.total_expenses + entry.amount),
            within_i64(old(self)@.total_income + entry.amount - old(self)@.total_expenses),
            within_i64(old(self)@.total_income - old(self)@.total_expenses - entry.amount),
        ensures
            final(self).wf(),
            match r {
                Some(t) => final(self)@.data == old(self)@.data.push(t@)
                    && !has_transaction(old(self)@.data, t@.id)
                    && (exists|id: Seq<char>, now: int| t@ == entry.transaction_view(id, now))
                    && final(self)@.total_income == old(self)@.total_income + (if t@.is_income() {
                    t@.amount
                } else {
                    0
                })
                    && final(self)@.total_expenses == old(self)@.total_expenses + (
                if t@.is_income() {
                    0
                } else {
                    t@.amount
                }),
                None => final(self)@ == old(self)@,
            },
    {
        let id = fresh_uuid();
        let now = now_millis();
        if self.find_transaction(id.as_str()).is_some() {
            return None;
        }
        let ghost gid = id@;
        let t = self.add_transaction_with(entry, id, now);
        proof {
            assert(t@ == entry.transaction_view(gid, now as int));
        }
        Some(t)
    }

    /// Removes the transaction carrying `id` and lowers the matching total
    /// by its amount; fails if no transaction carries it.
    pub fn remove_transaction(&mut self, id: &str) -> (r: Result<Transaction, String>)
        requires
            old(self).wf(),
            has_transaction(old(self)@.data, id@) ==> ({
                let t = old(self)@.data[transaction_index(old(self)@.data, id@)];
                &&& within_i64(old(self)@.total_income - t.amount)
                &&& within_i64(old(self)@.total_expenses - t.amount)
                &&& within_i64(old(self)@.total_income - t.amount - old(self)@.total_expenses)
                &&& within_i64(old(self)@.total_income - (old(self)@.total_expenses - t.amount))
            }),
        ensures
            final(self).wf(),
            final(self)@.schema_version == old(self)@.schema_version,
            match r {
                Ok(t) => {
                    let i = transaction_index(old(self)@.data, id@);
                    &&& has_transaction(old(self)@.data, id@)
                    &&& t@ == old(self)@.data[i]
                    &&& final(self)@.data == old(self)@.data.remove(i)
                    &&& final(self)@.total_income == old(self)@.total_income - (if t@.is_income() {
                        t@.amount
                    } else {
                        0
                    })
                    &&& final(self)@.total_expenses == old(self)@.total_expenses - (
                    if t@.is_income() {
                        0
                    } else {
                        t@.amount
                    })
                    &&& final(self)@.net_balance == final(self)@.total_income - final(self)@.total_expenses
                },
                Err(_) => !has_transaction(old(self)@.data, id@) && final(self)@ == old(self)@,
            },
    {
        match self.find_transaction(id) {
            None => Err("Transaction not found".to_owned()),
            Some(i) => {
                proof {
                    let j = transaction_index(old(self)@.data, id@);
                    assert(old(self)@.data[j].id == id@);
                    assert(j == i as int);
                    lemma_sums_remove(old(self)@.data, i as int);
                }
                let transaction = self.data.remove(i);
                if transaction.is_income() {
                    self.total_income = self.total_income - transaction.amount;
                } else {
                    self.total_expenses = self.total_expenses - transaction.amount;
                }
                self.net_balance = self.total_income - self.total_expenses;
                proof {
                    assert(transaction_views(self.data@) =~= transaction_views(
                        old(self).data@,
                    ).remove(i as int));
                }
                Ok(transaction)
            },
        }
    }

    /// Replaces the editable fields of the transaction carrying `id` at the
    /// given time, moving the totals by the difference of the old and new
    /// amounts; fails if no transaction carries it.
    pub fn edit_transaction_at(&mut self, id: &str, edit: RequestEditTransaction, now: u64) -> (r:
        Result<Transaction, String>)
        requires
            old(self).wf(),
            has_transaction(old(self)@.data, id@) ==> ({
                let t = old(self)@.data[transaction_index(old(self)@.data, id@)];
                &&& within_i64(old(self)@.total_income - t.amount)
                &&& within_i64(old(self)@.total_expenses - t.amount)
                &&& within_i64(old(self)@.total_income - t.amount + edit.amount)
                &&& within_i64(old(self)@.total_expenses - t.amount + edit.amount)
                &&& within_i64(
                    old(self)@.total_income - t.amount + edit.amount - old(self)@.total_expenses,
                )
                &&& within_i64(
                    old(self)@.total_income - (old(self)@.total_expenses - t.amount + edit.amount),
                )
            }),
        ensures
            final(self).wf(),
            final(self)@.schema_version == old(self)@.schema_version,
            match r {
                Ok(t) => {
                    let i = transaction_index(old(self)@.data, id@);
                    &&& has_transaction(old(self)@.data, id@)
                    &&& t@ == edit.edited_view(old(self)@.data[i], now as int)
                    &&& final(self)@.data == old(self)@.data.update(i, t@)
                    &&& final(self)@.net_balance == final(self)@.total_income - final(self)@.total_expenses
                },
                Err(_) => !has_transaction(old(self)@.data, id@) && final(self)@ == old(self)@,
            },
    {
        match self.find_transaction(id) {
            None => Err("Transaction not found".to_owned()),
            Some(i) => {
                proof {
                    let j = transaction_index(old(self)@.data, id@);
                    assert(old(self)@.data[j].id == id@);
                    assert(j == i as int);
                }
                let mut transaction = self.data.remove(i);
                proof {
                    assert(transaction@ == old(self)@.data[i as int]);
                    assert(within_i64(old(self)@.total_income - transaction@.amount));
                    assert(within_i64(old(self)@.total_expenses - transaction@.amount));
                    assert(within_i64(
                        old(self)@.total_income - transaction@.amount + edit.amount,
                    ));
                    assert(within_i64(
                        old(self)@.total_expenses - transaction@.amount + edit.amount,
                    ));
                    assert(within_i64(
                        old(self)@.total_income - transaction@.amount + edit.amount - old(
                            self,
                        )@.total_expenses,
                    ));
                    assert(within_i64(
                        old(self)@.total_income - (old(self)@.total_expenses - transaction@.amount
                            + edit.amount),
                    ));
                }
                if transaction.is_income() {
                    self.total_income = self.total_income - transaction.amount;
                } else {
                    self.total_expenses = self.total_expenses - transaction.amount;
                }
                edit.apply_to_at(&mut transaction, now);
                if transaction.is_income() {
                    self.total_income = self.total_income + transaction.amount;
                } else {
                    self.total_expenses = self.total_expenses + transaction.amount;
                }
                self.net_balance = self.total_income - self.total_expenses;
                let r = transaction.clone();
                self.data.insert(i, transaction);
                proof {
                    assert(transaction_views(self.data@) =~= transaction_views(
                        old(self).data@,
                    ).update(i as int, r@));
                    lemma_sums_update(old(self)@.data, i as int, r@);
                    assert forall|x: int, y: int|
                        0 <= x < y < self@.data.len() implies self@.data[x].id
                        != self@.data[y].id by {
                        assert(old(self)@.data[x].id != old(self)@.data[y].id);
                    }
                }
                Ok(r)
            },
        }
    }

    /// Replaces the editable fields of the transaction carrying `id`,
    /// stamping the current time.
    pub fn edit_transaction(&mut self, id: &str, edit: RequestEditTransaction) -> (r: Result<
        Transaction,
        String,
    >)
        requires
            old(self).wf(),
            has_transaction(old(self)@.data, id@) ==> ({
                let t = old(self)@.data[transaction_index(old(self)@.data, id@)];
                &&& within_i64(old(self)@.total_income - t.amount)
                &&& within_i64(old(self)@.total_expenses - t.amount)
                &&& within_i64(old(self)@.total_income - t.amount + edit.amount)
                &&& within_i64(old(self)@.total_expenses - t.amount + edit.amount)
                &&& within_i64(
                    old(self)@.total_income - t.amount + edit.amount - old(self)@.total_expenses,
                )
                &&& within_i64(
                    old(self)@.total_income - (old(self)@.total_expenses - t.amount + edit.amount),
                )
            }),
        ensures
            final(self).wf(),
            final(self)@.schema_version == old(self)@.schema_version,
            match r {
                Ok(t) => {
                    let i = transaction_index(old(self)@.data, id@);
                    &&& has_transaction(old(self)@.data, id@)
                    &&& (exists|now: int| t@ == edit.edited_view(old(self)@.data[i], now))
                    &&& final(self)@.data == old(self)@.data.update(i, t@)
                },
                Err(_) => !has_transaction(old(self)@.data, id@) && final(self)@ == old(self)@,
            },
    {
        let now = now_millis();
        let r = self.edit_transaction_at(id, edit, now);
        proof {
            if r is Ok {
                let i = transaction_index(old(self)@.data, id@);
                assert(r->Ok_0@ == edit.edited_view(old(self)@.data[i], now as int));
            }
        }
        r
    }

    /// The cached ledger totals.
    pub fn get_financial_summary(&self) -> (r: FinancialSummary)
        ensures
            r.net_balance == self@.net_balance,
            r.total_income == self@.total_income,
            r.total_expenses == self@.total_expenses,
            r.transactions_count == self@.data.len(),
    {
        FinancialSummary {
            net_balance: self.net_balance,
            total_income: self.total_income,
            total_expenses: self.total_expenses,
            transactions_count: self.data.len(),
        }
    }

    /// All transactions, in store order.
    pub fn get_all_transactions(&self) -> (r: Vec<Transaction>)
        ensures
            transaction_views(r@) == self@.data,
    {
        let mut out: Vec<Transaction> = Vec::new();
        let mut i: usize = 0;
        while i < self.data.len()
            invariant
                i <= self.data.len(),
                self@.data.len() == self.data.len(),
                transaction_views(out@) =~= self@.data.take(i as int),
            decreases self.data.len() - i,
        {
            let x = self.data[i].clone();
            let ghost xv = x@;
            let ghost prev = out@;
            out.push(x);
            proof {
                lemma_transaction_views_push(prev, out@, xv);
                assert(xv == self@.data[i as int]);
                assert(transaction_views(out@) =~= self@.data.take(i as int + 1));
            }
            i = i + 1;
        }
        proof {
            assert(self@.data.take(self.data.len() as int) =~= self@.data);
        }
        out
    }

    /// Every transaction whose lower-cased details or category contain the
    /// lower-cased query, in store order; the empty query matches everything.
    /// (The machine-indexability conjuncts in `matches_query` only rule out
    /// texts longer than the address space.)
    pub fn search_transactions(&self, query: &str) -> (r: Vec<Transaction>)
        ensures
            lower_of(query@).len() == 0 ==> transaction_views(r@) == self@.data,
            lower_of(query@).len() > 0 ==> transaction_views(r@) == self@.data.filter(
                |t: TransactionV| matches_query(t, lower_of(query@)),
            ),
    {
        let query_lower = crate::trusted::lowercase(query);
        if query_lower.as_str().is_empty() {
            return self.get_all_transactions();
        }
        let ghost qv = lower_of(query@);
        let ghost pred = |t: TransactionV| matches_query(t, qv);
        let mut out: Vec<Transaction> = Vec::new();
        let mut i: usize = 0;
        proof {
            reveal(Seq::filter);
            assert(self@.data.take(0) =~= Seq::<TransactionV>::empty());
            assert(transaction_views(out@) =~= Seq::<TransactionV>::empty());
        }
        while i < self.data.len()
            invariant
                i <= self.data.len(),
                self@.data.len() == self.data.len(),
                qv == lower_of(query@),
                query_lower@ == qv,
                qv.len() > 0,
                pred == (|t: TransactionV| matches_query(t, qv)),
                transaction_views(out@) =~= self@.data.take(i as int).filter(pred),
            decreases self.data.len() - i,
        {
            proof {
                reveal(Seq::filter);
                assert(self@.data.take(i as int + 1).drop_last() =~= self@.data.take(i as int));
                assert(self@.data.take(i as int + 1).last() == self@.data[i as int]);
                assert(self@.data[i as int] == self.data@[i as int]@);
            }
            let tx = &self.data[i];
            let details_lower = crate::trusted::lowercase(tx.details.as_str());
            let category_lower = crate::trusted::lowercase(tx.category.as_str());
            let details_hit = details_lower.unicode_len() < usize::MAX && crate::strnum::contains_str(
                details_lower.as_str(),
                query_lower.as_str(),
            );
            let category_hit = category_lower.unicode_len() < usize::MAX
                && crate::strnum::contains_str(category_lower.as_str(), query_lower.as_str());
            if details_hit || category_hit {
                let x = tx.clone();
                let ghost xv = x@;
                let ghost prev = out@;
                out.push(x);
                proof {
                    lemma_transaction_views_push(prev, out@, xv);
                    assert(pred(self@.data[i as int]));
                    assert(self@.data.take(i as int + 1).filter(pred) == self@.data.take(
                        i as int,
                    ).filter(pred).push(self@.data[i as int]));
                }
            } else {
                proof {
                    assert(!pred(self@.data[i as int]));
                    assert(self@.data.take(i as int + 1).filter(pred) == self@.data.take(
                        i as int,
                    ).filter(pred));
                }
            }
            i = i + 1;
        }
        proof {
            assert(self@.data.take(self.data.len() as int) =~= self@.data);
        }
        out
    }

    /// The transactions booked against the account carrying `account_id`,
    /// in store order.
    pub fn get_by_account(&self, account_id: &str) -> (r: Vec<Transaction>)
        ensures
            transaction_views(r@) == self@.data.filter(|t: TransactionV| t.account_id == account_id@),
    {
        let ghost pred = |t: TransactionV| t.account_id == account_id@;
        let mut out: Vec<Transaction> = Vec::new();
        let mut i: usize = 0;
        while i < self.data.len()
            invariant
                i <= self.data.len(),
                self@.data.len() == self.data.len(),
                transaction_views(out@) =~= self@.data.take(i as int).filter(pred),
                pred == (|t: TransactionV| t.account_id == account_id@),
            decreases self.data.len() - i,
        {
            proof {
                assert(self@.data.take(i as int + 1).drop_last() =~= self@.data.take(i as int));
            }
            if str_eq(self.data[i].account_id.as_str(), account_id) {
                let x = self.data[i].clone();
                let ghost xv = x@;
                let ghost prev = out@;
                out.push(x);
                proof {
                    reveal(Seq::filter);
                    lemma_transaction_views_push(prev, out@, xv);
                    assert(xv == self@.data[i as int]);
                    assert(pred(self@.data[i as int]));
                    assert(self@.data.take(i as int + 1).filter(pred) == self@.data.take(
                        i as int,
                    ).filter(pred).push(self@.data[i as int]));
                }
            } else {
                proof {
                    reveal(Seq::filter);
                    assert(!pred(self@.data[i as int]));
                    assert(self@.data.take(i as int + 1).filter(pred) == self@.data.take(
                        i as int,
                    ).filter(pred));
                }
            }
            i = i + 1;
        }
        proof {
            assert(self@.data.take(self.data.len() as int) =~= self@.data);
        }
        out
    }

    /// The transactions filed under `category`, in store order.
    pub fn get_by_category(&self, category: &str) -> (r: Vec<Transaction>)
        ensures
            transaction_views(r@) == self@.data.filter(|t: TransactionV| t.category == category@),
    {
        let ghost pred = |t: TransactionV| t.category == category@;
        let mut out: Vec<Transaction> = Vec::new();
        let mut i: usize = 0;
        while i < self.data.len()
            invariant
                i <= self.data.len(),
                self@.data.len() == self.data.len(),
                transaction_views(out@) =~= self@.data.take(i as int).filter(pred),
                pred == (|t: TransactionV| t.category == category@),
            decreases self.data.len() - i,
        {
            proof {
                assert(self@.data.take(i as int + 1).drop_last() =~= self@.data.take(i as int));
            }
            if str_eq(self.data[i].category.as_str(), category) {
                let x = self.data[i].clone();
                let ghost xv = x@;
                let ghost prev = out@;
                out.push(x);
                proof {
                    reveal(Seq::filter);
                    lemma_transaction_views_push(prev, out@, xv);
                    assert(xv == self@.data[i as int]);
                    assert(pred(self@.data[i as int]));
                    assert(self@.data.take(i as int + 1).filter(pred) == self@.data.take(
                        i as int,
                    ).filter(pred).push(self@.data[i as int]));
                }
            } else {
                proof {
                    reveal(Seq::filter);
                    assert(!pred(self@.data[i as int]));
                    assert(self@.data.take(i as int + 1).filter(pred) == self@.data.take(
                        i as int,
                    ).filter(pred));
                }
            }
            i = i + 1;
        }
        proof {
            assert(self@.data.take(self.data.len() as int) =~= self@.data);
        }
        out
    }
}

} // verus!
