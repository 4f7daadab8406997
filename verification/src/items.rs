use vstd::prelude::*;

use crate::enums::LeakDateRange;
use crate::strnum::str_eq;
use crate::trusted::{fresh_uuid, now_millis, random_string};
use crate::views::opt_str_view;

verus! {

/// Mathematical model of one recorded purchase of an item. Prices are minor
/// currency units.
pub struct PurchaseV {
    pub id: Seq<char>,
    pub price: int,
    pub date: int,
    pub transaction_name: Seq<char>,
    pub quantity: int,
}

/// One recorded purchase of an item.
pub struct PurchaseHistoryInfo {
    pub id: String,
    pub price: i64,
    pub date: u64,
    pub transaction_name: String,
    pub quantity: u32,
}

impl View for PurchaseHistoryInfo {
    type V = PurchaseV;

    open spec fn view(&self) -> PurchaseV {
        PurchaseV {
            id: self.id@,
            price: self.price as int,
            date: self.date as int,
            transaction_name: self.transaction_name@,
            quantity: self.quantity as int,
        }
    }
}

impl Clone for PurchaseHistoryInfo {
    fn clone(&self) -> (res: Self)
        ensures
            res@ == self@,
    {
        PurchaseHistoryInfo {
            id: self.id.clone(),
            price: self.price,
            date: self.date,
            transaction_name: self.transaction_name.clone(),
            quantity: self.quantity,
        }
    }
}

impl PurchaseHistoryInfo {
    /// Stamps a fresh random identifier onto this purchase record.
    pub fn generate_id(&mut self)
        ensures
            final(self)@ == (PurchaseV { id: final(self)@.id, ..old(self)@ }),
            final(self)@.id.len() == 14,
    {
        self.id = random_string(14);
    }
}

/// The views of a sequence of purchase records.
pub open spec fn purchase_views(s: Seq<PurchaseHistoryInfo>) -> Seq<PurchaseV> {
    s.map_values(|p: PurchaseHistoryInfo| p@)
}

/// Appending one purchase record appends its view.
pub proof fn lemma_purchase_views_push(
    pre: Seq<PurchaseHistoryInfo>,
    post: Seq<PurchaseHistoryInfo>,
    xv: PurchaseV,
)
    requires
        post.len() == pre.len() + 1,
        forall|j: int| 0 <= j < pre.len() ==> post[j] == pre[j],
        post[pre.len() as int]@ == xv,
    ensures
        purchase_views(post) == purchase_views(pre).push(xv),
{
    assert forall|j: int| 0 <= j < post.len() implies purchase_views(post)[j] == purchase_views(
        pre,
    ).push(xv)[j] by {
        assert(purchase_views(post)[j] == post[j]@);
        if j < pre.len() {
            assert(purchase_views(pre)[j] == pre[j]@);
        }
    }
    assert(purchase_views(post) =~= purchase_views(pre).push(xv));
}

/// Mathematical model of one catalog item.
pub struct ItemV {
    pub id: Seq<char>,
    pub name: Seq<char>,
    pub brand: Option<Seq<char>>,
    pub has_warranty: Option<bool>,
    pub is_spending_leak: Option<bool>,
    pub has_exceeded_spend_money_limit: Option<bool>,
    pub spend_money_limit: Option<int>,
    pub spend_amount_limit: Option<int>,
    pub leak_date_range: Option<LeakDateRange>,
    pub purchase_history: Seq<PurchaseV>,
    pub created_at: int,
    pub updated_at: int,
}

/// One item of the catalog, with its purchase history and optional
/// spending-leak limits.
pub struct Item {
    pub id: String,
    pub name: String,
    pub brand: Option<String>,
    pub has_warranty: Option<bool>,
    pub is_spending_leak: Option<bool>,
    pub has_exceeded_spend_money_limit: Option<bool>,
    pub spend_money_limit: Option<u32>,
    pub spend_amount_limit: Option<u32>,
    pub leak_date_range: Option<LeakDateRange>,
    pub purchase_history: Vec<PurchaseHistoryInfo>,
    pub created_at: u64,
    pub updated_at: u64,
}

impl View for Item {
    type V = ItemV;

    open spec fn view(&self) -> ItemV {
        ItemV {
            id: self.id@,
            name: self.name@,
            brand: opt_str_view(self.brand),
            has_warranty: self.has_warranty,
            is_spending_leak: self.is_spending_leak,
            has_exceeded_spend_money_limit: self.has_exceeded_spend_money_limit,
            spend_money_limit: match self.spend_money_limit {
                Some(l) => Some(l as int),
                None => None,
            },
            spend_amount_limit: match self.spend_amount_limit {
                Some(l) => Some(l as int),
                None => None,
            },
            leak_date_range: self.leak_date_range,
            purchase_history: purchase_views(self.purchase_history@),
            created_at: self.created_at as int,
            updated_at: self.updated_at as int,
        }
    }
}

/// Clones an optional string.
fn clone_opt_string(o: &Option<String>) -> (r: Option<String>)
    ensures
        opt_str_view(r) == opt_str_view(*o),
{
    match o {
        Some(s) => Some(s.clone()),
        None => None,
    }
}

impl Clone for Item {
    fn clone(&self) -> (res: Self)
        ensures
            res@ == self@,
    {
        let mut history: Vec<PurchaseHistoryInfo> = Vec::new();
        let mut i: usize = 0;
        while i < self.purchase_history.len()
            invariant
                i <= self.purchase_history@.len(),
                purchase_views(history@) =~= purchase_views(self.purchase_history@).take(i as int),
            decreases self.purchase_history@.len() - i,
        {
            let x = self.purchase_history[i].clone();
            let ghost xv = x@;
            let ghost prev = history@;
            history.push(x);
            proof {
                lemma_purchase_views_push(prev, history@, xv);
                assert(purchase_views(history@) =~= purchase_views(self.purchase_history@).take(
                    i as int + 1,
                ));
            }
            i = i + 1;
        }
        proof {
            assert(purchase_views(self.purchase_history@).take(self.purchase_history@.len() as int)
                =~= purchase_views(self.purchase_history@));
        }
        Item {
            id: self.id.clone(),
            name: self.name.clone(),
            brand: clone_opt_string(&self.brand),
            has_warranty: self.has_warranty,
            is_spending_leak: self.is_spending_leak,
            has_exceeded_spend_money_limit: self.has_exceeded_spend_money_limit,
            spend_money_limit: self.spend_money_limit,
            spend_amount_limit: self.spend_amount_limit,
            leak_date_range: self.leak_date_range,
            purchase_history: history,
            created_at: self.created_at,
            updated_at: self.updated_at,
        }
    }
}

impl Item {
    /// Appends a purchase to the item's history and stamps the given time.
    pub fn add_purchase_at(&mut self, info: PurchaseHistoryInfo, now: u64)
        ensures
            final(self)@ == (ItemV {
                purchase_history: old(self)@.purchase_history.push(info@),
                updated_at: now as int,
                ..old(self)@
            }),
    {
        let ghost xv = info@;
        let ghost prev = self.purchase_history@;
        self.purchase_history.push(info);
        self.updated_at = now;
        proof {
            lemma_purchase_views_push(prev, self.purchase_history@, xv);
        }
    }

    /// Appends a purchase to the item's history and stamps the current time.
    pub fn add_purchase(&mut self, info: PurchaseHistoryInfo)
        ensures
            final(self)@.purchase_history == old(self)@.purchase_history.push(info@),
            final(self)@.id == old(self)@.id,
            final(self)@.name == old(self)@.name,
            final(self)@.brand == old(self)@.brand,
            final(self)@.is_spending_leak == old(self)@.is_spending_leak,
            final(self)@.spend_money_limit == old(self)@.spend_money_limit,
            final(self)@.spend_amount_limit == old(self)@.spend_amount_limit,
            final(self)@.leak_date_range == old(self)@.leak_date_range,
            final(self)@.created_at == old(self)@.created_at,
    {
        let now = now_millis();
        self.add_purchase_at(info, now);
    }

    /// Whether the item is marked as a spending leak.
    pub fn is_spending_leak(&self) -> (r: bool)
        ensures
            r == (self@.is_spending_leak == Some(true)),
    {
        match self.is_spending_leak {
            Some(b) => b,
            None => false,
        }
    }

    /// The window of the item's leak limits; a month when none is set.
    pub fn get_leak_date_range(&self) -> (r: LeakDateRange)
        ensures
            r == match self@.leak_date_range {
                Some(d) => d,
                None => LeakDateRange::Month,
            },
    {
        match self.leak_date_range {
            Some(d) => d,
            None => LeakDateRange::Month,
        }
    }
}

/// The data of a catalog item to be created.
pub struct RequestCreateItem {
    pub name: String,
    pub brand: Option<String>,
    pub has_warranty: Option<bool>,
}

impl RequestCreateItem {
    /// The item this request describes, viewed with the given identifier and
    /// creation time.
    pub open spec fn item_view(self, id: Seq<char>, now: int) -> ItemV {
        ItemV {
            id: id,
            name: self.name@,
            brand: opt_str_view(self.brand),
            has_warranty: self.has_warranty,
            is_spending_leak: Some(false),
            has_exceeded_spend_money_limit: None,
            spend_money_limit: None,
            spend_amount_limit: None,
            leak_date_range: None,
            purchase_history: Seq::empty(),
            created_at: now,
            updated_at: now,
        }
    }

    /// The item this request describes, under the given identifier and
    /// creation time.
    pub fn into_item_with(self, id: String, now: u64) -> (r: Item)
        ensures
            r@ == self.item_view(id@, now as int),
    {
        let r = Item {
            id,
            name: self.name,
            brand: self.brand,
            has_warranty: self.has_warranty,
            is_spending_leak: Some(false),
            has_exceeded_spend_money_limit: None,
            spend_money_limit: None,
            spend_amount_limit: None,
            leak_date_range: None,
            purchase_history: Vec::new(),
            created_at: now,
            updated_at: now,
        };
        proof {
            assert(purchase_views(r.purchase_history@) =~= Seq::<PurchaseV>::empty());
        }
        r
    }

    /// The item this request describes, under a fresh random identifier and
    /// the current time.
    pub fn into_item(self) -> (r: Item)
        ensures
            exists|id: Seq<char>, now: int| r@ == self.item_view(id, now),
    {
        let id = fresh_uuid();
        let now = now_millis();
        let ghost gid = id@;
        let r = self.into_item_with(id, now);
        proof {
            assert(r@ == self.item_view(gid, now as int));
        }
        r
    }
}

/// The fields of a catalog item that an edit may replace.
pub struct RequestEditItem {
    pub name: Option<String>,
    pub brand: Option<String>,
    pub has_warranty: Option<bool>,
}

impl RequestEditItem {
    /// The view of `item` after this edit is applied at time `now`. A field
    /// the request leaves out keeps its old value.
    pub open spec fn edited_view(self, item: ItemV, now: int) -> ItemV {
        ItemV {
            name: match self.name {
                Some(n) => n@,
                None => item.name,
            },
            brand: match self.brand {
                Some(b) => Some(b@),
                None => item.brand,
            },
            has_warranty: match self.has_warranty {
                Some(w) => Some(w),
                None => item.has_warranty,
            },
            updated_at: now,
            ..item
        }
    }

    /// Replaces the present fields of `item` and stamps the given time.
    pub fn apply_to_at(&self, item: &mut Item, now: u64)
        ensures
            final(item)@ == self.edited_view(old(item)@, now as int),
    {
        match &self.name {
            Some(name) => {
                item.name = name.clone();
            },
            None => {},
        }
        match &self.brand {
            Some(brand) => {
                item.brand = Some(brand.clone());
            },
            None => {},
        }
        match self.has_warranty {
            Some(has_warranty) => {
                item.has_warranty = Some(has_warranty);
            },
            None => {},
        }
        item.updated_at = now;
    }

    /// Replaces the present fields of `item` and stamps the current time.
    pub fn apply_to(&self, item: &mut Item)
        ensures
            exists|now: int| final(item)@ == self.edited_view(old(item)@, now),
    {
        let now = now_millis();
        self.apply_to_at(item, now);
    }
}

/// A request to mark or unmark an item as a spending leak, with its limits.
pub struct RequestIsSpendingLeak {
    pub item_id: String,
    pub is_spending_leak: bool,
    pub spend_money_limit: Option<u32>,
    pub spend_amount_limit: Option<u32>,
    pub leak_date_range: Option<LeakDateRange>,
}

impl RequestIsSpendingLeak {
    /// The view of `item` after this request is applied at time `now`.
    pub open spec fn applied_view(self, item: ItemV, now: int) -> ItemV {
        ItemV {
            is_spending_leak: Some(self.is_spending_leak),
            spend_money_limit: match self.spend_money_limit {
                Some(l) => Some(l as int),
                None => None,
            },
            spend_amount_limit: match self.spend_amount_limit {
                Some(l) => Some(l as int),
                None => None,
            },
            leak_date_range: self.leak_date_range,
            updated_at: now,
            ..item
        }
    }

    /// Replaces the leak settings of `item` and stamps the given time.
    pub fn apply_to_at(&self, item: &mut Item, now: u64)
        ensures
            final(item)@ == self.applied_view(old(item)@, now as int),
    {
        item.is_spending_leak = Some(self.is_spending_leak);
        item.spend_money_limit = self.spend_money_limit;
        item.spend_amount_limit = self.spend_amount_limit;
        item.leak_date_range = self.leak_date_range;
        item.updated_at = now;
    }
}

/// The kind of limit a spending-leak warning reports.
#[derive(Clone, Copy, Debug, PartialEq, Eq, Structural)]
pub enum LimitType {
    Money,
    Quantity,
}

/// A warning that a new purchase would take an item past one of its limits.
/// Money figures are minor currency units.
pub struct ItemLimitWarning {
    pub item_id: String,
    pub item_name: String,
    pub limit_type: LimitType,
    pub limit: i64,
    pub current: i64,
    pub exceeded: i64,
}

/// The models of a sequence of items.
pub open spec fn item_views(s: Seq<Item>) -> Seq<ItemV> {
    s.map_values(|x: Item| x@)
}

/// Appending one item appends its view.
pub proof fn lemma_item_views_push(pre: Seq<Item>, post: Seq<Item>, xv: ItemV)
    requires
        post.len() == pre.len() + 1,
        forall|j: int| 0 <= j < pre.len() ==> post[j] == pre[j],
        post[pre.len() as int]@ == xv,
    ensures
        item_views(post) == item_views(pre).push(xv),
{
    assert forall|j: int| 0 <= j < post.len() implies item_views(post)[j] == item_views(pre).push(
        xv,
    )[j] by {
        assert(item_views(post)[j] == post[j]@);
        if j < pre.len() {
            assert(item_views(pre)[j] == pre[j]@);
        }
    }
    assert(item_views(post) =~= item_views(pre).push(xv));
}

/// Whether `a` comes no later than `b` when the catalog is sorted by
/// lower-cased name.
pub open spec fn item_name_le(a: ItemV, b: ItemV) -> bool {
    crate::strnum::lex_le(crate::trusted::lower_of(a.name), crate::trusted::lower_of(b.name))
}

/// Sorted by lower-cased name, first name first.
pub open spec fn sorted_by_name(s: Seq<ItemV>) -> bool {
    forall|i: int, j: int| 0 <= i < j < s.len() ==> item_name_le(#[trigger] s[i], #[trigger] s[j])
}

/// Whether `a` sorts no later than `b`, computed over the lower-cased names.
fn item_name_le_cmp(a: &Item, b: &Item) -> (r: bool)
    ensures
        r == item_name_le(a@, b@),
{
    let an = crate::trusted::lowercase(a.name.as_str());
    let bn = crate::trusted::lowercase(b.name.as_str());
    crate::strnum::lex_le_str(an.as_str(), bn.as_str())
}

/// Inserting an item into a sequence inserts its view into the multiset.
proof fn lemma_item_seq_insert_multiset(s: Seq<ItemV>, p: int, x: ItemV)
    requires
        0 <= p <= s.len(),
    ensures
        s.insert(p, x).to_multiset() == s.to_multiset().insert(x),
{
    broadcast use vstd::seq_lib::group_to_multiset_ensures;

    vstd::seq_lib::to_multiset_insert(s, p, x);
}

/// Inserts `c` into a name-sorted vector, keeping it sorted and adding
/// exactly one occurrence of `c`.
fn insert_sorted_by_name(out: &mut Vec<Item>, c: Item)
    requires
        sorted_by_name(item_views(old(out)@)),
    ensures
        sorted_by_name(item_views(final(out)@)),
        item_views(final(out)@).to_multiset() == item_views(old(out)@).to_multiset().insert(c@),
        final(out)@.len() == old(out)@.len() + 1,
{
    broadcast use vstd::seq_lib::group_to_multiset_ensures;

    let ghost cv = c@;
    let ghost s0 = item_views(out@);
    let mut p: usize = 0;
    while p < out.len() && item_name_le_cmp(&out[p], &c)
        invariant
            out@ == old(out)@,
            p <= out@.len(),
            forall|k: int| 0 <= k < p ==> item_name_le(#[trigger] item_views(out@)[k], cv),
            cv == c@,
        decreases out@.len() - p,
    {
        proof {
            assert(item_views(out@)[p as int] == out@[p as int]@);
        }
        p = p + 1;
    }
    proof {
        if p < out@.len() {
            assert(!item_name_le(out@[p as int]@, cv));
            crate::strnum::lemma_lex_total(
                crate::trusted::lower_of(cv.name),
                crate::trusted::lower_of(out@[p as int]@.name),
            );
            assert(item_name_le(cv, out@[p as int]@));
        }
    }
    out.insert(p, c);
    proof {
        let s1 = item_views(out@);
        assert(s1.len() == s0.len() + 1);
        assert forall|k: int| 0 <= k < s1.len() implies #[trigger] s1[k] == (if k < p {
            s0[k]
        } else if k == p {
            cv
        } else {
            s0[k - 1]
        }) by {
            assert(s1[k] == out@[k]@);
            if k < p {
                assert(out@[k] == old(out)@[k]);
                assert(s0[k] == old(out)@[k]@);
            } else if k > p {
                assert(out@[k] == old(out)@[k - 1]);
                assert(s0[k - 1] == old(out)@[k - 1]@);
            }
        }
        assert forall|i: int, j: int| 0 <= i < j < s1.len() implies item_name_le(
            #[trigger] s1[i],
            #[trigger] s1[j],
        ) by {
            if i < p && j < p {
                assert(item_name_le(s0[i], s0[j]));
            } else if i < p && j == p {
                assert(item_name_le(s0[i], cv));
            } else if i < p && j > p {
                assert(item_name_le(s0[i], s0[j - 1]));
            } else if i == p && j > p {
                if p < s0.len() {
                    assert(item_name_le(cv, s0[p as int]));
                    if j - 1 > p {
                        assert(item_name_le(s0[p as int], s0[j - 1]));
                        crate::strnum::lemma_lex_trans(
                            crate::trusted::lower_of(cv.name),
                            crate::trusted::lower_of(s0[p as int].name),
                            crate::trusted::lower_of(s0[j - 1].name),
                        );
                    }
                }
            } else {
                assert(item_name_le(s0[i - 1], s0[j - 1]));
            }
        }
        assert forall|k: int| 0 <= k < out@.len() implies #[trigger] item_views(out@)[k] == (
        item_views(old(out)@).insert(p as int, cv))[k] by {
            assert(item_views(out@)[k] == s1[k]);
        }
        assert(item_views(out@) =~= item_views(old(out)@).insert(p as int, cv));
        lemma_item_seq_insert_multiset(item_views(old(out)@), p as int, cv);
    }
}

/// Whether some item of `s` carries the identifier `id`.
pub open spec fn has_item(s: Seq<ItemV>, id: Seq<char>) -> bool {
    exists|i: int| 0 <= i < s.len() && s[i].id == id
}

/// The index of the item carrying `id` (unique under `ItemsDB::wf`).
pub open spec fn item_index(s: Seq<ItemV>, id: Seq<char>) -> int {
    choose|i: int| 0 <= i < s.len() && s[i].id == id
}

/// The item catalog.
pub struct ItemsDB {
    pub data: Vec<Item>,
}

impl View for ItemsDB {
    type V = Seq<ItemV>;

    open spec fn view(&self) -> Seq<ItemV> {
        item_views(self.data@)
    }
}

impl ItemsDB {
    /// The catalog's invariant: identifiers are unique.
    pub open spec fn wf(&self) -> bool {
        forall|i: int, j: int| 0 <= i < j < self@.len() ==> self@[i].id != self@[j].id
    }

    /// An empty catalog.
    pub fn empty() -> (r: Self)
        ensures
            r@ == Seq::<ItemV>::empty(),
            r.wf(),
    {
        let r = ItemsDB { data: Vec::new() };
        proof {
            assert(r@ =~= Seq::<ItemV>::empty());
        }
        r
    }

    /// An empty catalog.
    pub fn new() -> (r: Self)
        ensures
            r@ == Seq::<ItemV>::empty(),
            r.wf(),
    {
        Self::empty()
    }

    /// The position of the item carrying `id`, if any.
    pub fn find_item(&self, id: &str) -> (r: Option<usize>)
        ensures
            match r {
                Some(i) => i < self@.len() && self@[i as int].id == id@ && item_index(self@, id@)
                    < self@.len(),
                None => !has_item(self@, id@),
            },
    {
        let mut i: usize = 0;
        while i < self.data.len()
            invariant
                i <= self.data.len(),
                self@.len() == self.data.len(),
                forall|j: int| 0 <= j < i ==> self@[j].id != id@,
            decreases self.data.len() - i,
        {
            if str_eq(self.data[i].id.as_str(), id) {
                return Some(i);
            }
            i = i + 1;
        }
        None
    }

    /// Adds the item described by `request` under the given identifier and
    /// creation time.
    pub fn add_item_with(&mut self, request: RequestCreateItem, id: String, now: u64) -> (r: Item)
        requires
            old(self).wf(),
            !has_item(old(self)@, id@),
        ensures
            final(self).wf(),
            final(self)@ == old(self)@.push(r@),
            r@ == request.item_view(id@, now as int),
    {
        let item = request.into_item_with(id, now);
        let r = item.clone();
        let ghost prev = self.data@;
        self.data.push(item);
        proof {
            lemma_item_views_push(prev, self.data@, r@);
        }
        r
    }

    /// Adds the item described by `request` under a fresh random identifier.
    /// Returns `None`, leaving the catalog unchanged, in the vanishingly rare
    /// case that the fresh identifier is already taken.
    pub fn add_item(&mut self, request: RequestCreateItem) -> (r: Option<Item>)
        requires
            old(self).wf(),
        ensures
            final(self).wf(),
            match r {
                Some(item) => final(self)@ == old(self)@.push(item@) && !has_item(
                    old(self)@,
                    item@.id,
                ) && (exists|id: Seq<char>, now: int| item@ == request.item_view(id, now)),
                None => final(self)@ == old(self)@,
            },
    {
        let id = fresh_uuid();
        let now = now_millis();
        if self.find_item(id.as_str()).is_some() {
            return None;
        }
        let ghost gid = id@;
        let item = self.add_item_with(request, id, now);
        proof {
            assert(item@ == request.item_view(gid, now as int));
        }
        Some(item)
    }

    /// Adds a fully formed item to the catalog; fails, leaving the catalog
    /// unchanged, if its identifier is already taken.
    pub fn insert_item(&mut self, item: Item) -> (r: Result<(), String>)
        requires
            old(self).wf(),
        ensures
            final(self).wf(),
            match r {
                Ok(_) => !has_item(old(self)@, item@.id) && final(self)@ == old(self)@.push(item@),
                Err(_) => has_item(old(self)@, item@.id) && final(self)@ == old(self)@,
            },
    {
        if self.find_item(item.id.as_str()).is_some() {
            return Err("Item identifier already taken".to_owned());
        }
        let ghost xv = item@;
        let ghost prev = self.data@;
        self.data.push(item);
        proof {
            lemma_item_views_push(prev, self.data@, xv);
        }
        Ok(())
    }

    /// Removes the item carrying `id`; fails if no item carries it.
    pub fn remove_item(&mut self, id: &str) -> (r: Result<Item, String>)
        requires
            old(self).wf(),
        ensures
            final(self).wf(),
            match r {
                Ok(item) => {
                    let i = item_index(old(self)@, id@);
                    &&& has_item(old(self)@, id@)
                    &&& item@ == old(self)@[i]
                    &&& final(self)@ == old(self)@.remove(i)
                },
                Err(_) => !has_item(old(self)@, id@) && final(self)@ == old(self)@,
            },
    {
        match self.find_item(id) {
            None => Err("Item not found".to_owned()),
            Some(i) => {
                proof {
                    let j = item_index(old(self)@, id@);
                    assert(old(self)@[j].id == id@);
                    assert(j == i as int);
                }
                let item = self.data.remove(i);
                proof {
                    assert(item_views(self.data@) =~= item_views(old(self).data@).remove(i as int));
                }
                Ok(item)
            },
        }
    }

    /// Replaces the present fields of the item carrying `id` at the given
    /// time; fails if no item carries it.
    pub fn edit_item_at(&mut self, id: &str, edit: RequestEditItem, now: u64) -> (r: Result<
        Item,
        String,
    >)
        requires
            old(self).wf(),
        ensures
            final(self).wf(),
            match r {
                Ok(item) => {
                    let i = item_index(old(self)@, id@);
                    &&& has_item(old(self)@, id@)
                    &&& item@ == edit.edited_view(old(self)@[i], now as int)
                    &&& final(self)@ == old(self)@.update(i, item@)
                },
                Err(_) => !has_item(old(self)@, id@) && final(self)@ == old(self)@,
            },
    {
        match self.find_item(id) {
            None => Err("Item not found".to_owned()),
            Some(i) => {
                proof {
                    let j = item_index(old(self)@, id@);
                    assert(old(self)@[j].id == id@);
                    assert(j == i as int);
                }
                let mut item = self.data.remove(i);
                edit.apply_to_at(&mut item, now);
                let r = item.clone();
                self.data.insert(i, item);
                proof {
                    assert(item_views(self.data@) =~= item_views(old(self).data@).update(
                        i as int,
                        r@,
                    ));
                    assert forall|x: int, y: int|
                        0 <= x < y < self@.len() implies self@[x].id != self@[y].id by {
                        assert(old(self)@[x].id != old(self)@[y].id);
                    }
                }
                Ok(r)
            },
        }
    }

    /// Replaces the present fields of the item carrying `id`, stamping the
    /// current time.
    pub fn edit_item(&mut self, id: &str, edit: RequestEditItem) -> (r: Result<Item, String>)
        requires
            old(self).wf(),
        ensures
            final(self).wf(),
            match r {
                Ok(item) => {
                    let i = item_index(old(self)@, id@);
                    &&& has_item(old(self)@, id@)
                    &&& (exists|now: int| item@ == edit.edited_view(old(self)@[i], now))
                    &&& final(self)@ == old(self)@.update(i, item@)
                },
                Err(_) => !has_item(old(self)@, id@) && final(self)@ == old(self)@,
            },
    {
        let now = now_millis();
        let r = self.edit_item_at(id, edit, now);
        proof {
            if r is Ok {
                let i = item_index(old(self)@, id@);
                assert(r->Ok_0@ == edit.edited_view(old(self)@[i], now as int));
            }
        }
        r
    }

    /// Replaces the leak settings of the item the request names at the given
    /// time; fails if no item carries its identifier.
    pub fn update_spending_leak_at(&mut self, request: RequestIsSpendingLeak, now: u64) -> (r:
        Result<Item, String>)
        requires
            old(self).wf(),
        ensures
            final(self).wf(),
            match r {
                Ok(item) => {
                    let i = item_index(old(self)@, request.item_id@);
                    &&& has_item(old(self)@, request.item_id@)
                    &&& item@ == request.applied_view(old(self)@[i], now as int)
                    &&& final(self)@ == old(self)@.update(i, item@)
                },
                Err(_) => !has_item(old(self)@, request.item_id@) && final(self)@ == old(self)@,
            },
    {
        let idx = self.find_item(request.item_id.as_str());
        match idx {
            None => Err("Item not found".to_owned()),
            Some(i) => {
                proof {
                    let j = item_index(old(self)@, request.item_id@);
                    assert(old(self)@[j].id == request.item_id@);
                    assert(j == i as int);
                }
                let mut item = self.data.remove(i);
                request.apply_to_at(&mut item, now);
                let r = item.clone();
                self.data.insert(i, item);
                proof {
                    assert(item_views(self.data@) =~= item_views(old(self).data@).update(
                        i as int,
                        r@,
                    ));
                    assert forall|x: int, y: int|
                        0 <= x < y < self@.len() implies self@[x].id != self@[y].id by {
                        assert(old(self)@[x].id != old(self)@[y].id);
                    }
                }
                Ok(r)
            },
        }
    }

    /// Replaces the leak settings of the item the request names, stamping
    /// the current time.
    pub fn update_spending_leak(&mut self, request: RequestIsSpendingLeak) -> (r: Result<
        Item,
        String,
    >)
        requires
            old(self).wf(),
        ensures
            final(self).wf(),
            match r {
                Ok(item) => {
                    let i = item_index(old(self)@, request.item_id@);
                    &&& has_item(old(self)@, request.item_id@)
                    &&& (exists|now: int| item@ == request.applied_view(old(self)@[i], now))
                    &&& final(self)@ == old(self)@.update(i, item@)
                },
                Err(_) => !has_item(old(self)@, request.item_id@) && final(self)@ == old(self)@,
            },
    {
        let now = now_millis();
        let ghost req = request;
        let r = self.update_spending_leak_at(request, now);
        proof {
            if r is Ok {
                let i = item_index(old(self)@, req.item_id@);
                assert(r->Ok_0@ == req.applied_view(old(self)@[i], now as int));
            }
        }
        r
    }

    /// All items, sorted by their lower-cased names.
    pub fn get_all_sorted(&self) -> (r: Vec<Item>)
        ensures
            item_views(r@).to_multiset() == self@.to_multiset(),
            sorted_by_name(item_views(r@)),
    {
        broadcast use vstd::seq_lib::group_to_multiset_ensures;

        let mut out: Vec<Item> = Vec::new();
        let mut i: usize = 0;
        proof {
            assert(item_views(out@) =~= Seq::<ItemV>::empty());
            assert(self@.take(0) =~= Seq::<ItemV>::empty());
            assert(Seq::<ItemV>::empty().to_multiset() =~= vstd::multiset::Multiset::<
                ItemV,
            >::empty());
        }
        while i < self.data.len()
            invariant
                i <= self.data.len(),
                self@.len() == self.data.len(),
                sorted_by_name(item_views(out@)),
                out@.len() == i,
                item_views(out@).to_multiset() == self@.take(i as int).to_multiset(),
            decreases self.data.len() - i,
        {
            let c = self.data[i].clone();
            proof {
                assert(c@ == self@[i as int]);
            }
            insert_sorted_by_name(&mut out, c);
            proof {
                let mtake = self@.take(i as int);
                let elem = self@[i as int];
                assert(self@.take(i as int + 1) =~= mtake.push(elem));
                vstd::seq_lib::to_multiset_build(mtake, elem);
                assert(self@.take(i as int + 1).to_multiset() == mtake.to_multiset().insert(elem));
            }
            i = i + 1;
        }
        proof {
            assert(self@.take(self.data.len() as int) =~= self@);
        }
        out
    }

    /// Appends a purchase to the history of the item carrying `item_id` at
    /// the given time; fails if no item carries it.
    pub fn add_purchase_to_item_at(&mut self, item_id: &str, purchase: PurchaseHistoryInfo, now: u64)
        -> (r: Result<(), String>)
        requires
            old(self).wf(),
        ensures
            final(self).wf(),
            match r {
                Ok(_) => {
                    let i = item_index(old(self)@, item_id@);
                    &&& has_item(old(self)@, item_id@)
                    &&& final(self)@ == old(self)@.update(
                        i,
                        ItemV {
                            purchase_history: old(self)@[i].purchase_history.push(purchase@),
                            updated_at: now as int,
                            ..old(self)@[i]
                        },
                    )
                },
                Err(_) => !has_item(old(self)@, item_id@) && final(self)@ == old(self)@,
            },
    {
        match self.find_item(item_id) {
            None => Err("Item not found".to_owned()),
            Some(i) => {
                proof {
                    let j = item_index(old(self)@, item_id@);
                    assert(old(self)@[j].id == item_id@);
                    assert(j == i as int);
                }
                let ghost pv = purchase@;
                let mut item = self.data.remove(i);
                let ghost before = item@;
                item.add_purchase_at(purchase, now);
                let ghost after = item@;
                self.data.insert(i, item);
                proof {
                    assert(after == (ItemV {
                        purchase_history: before.purchase_history.push(pv),
                        updated_at: now as int,
                        ..before
                    }));
                    assert(item_views(self.data@) =~= item_views(old(self).data@).update(
                        i as int,
                        after,
                    ));
                    assert forall|x: int, y: int|
                        0 <= x < y < self@.len() implies self@[x].id != self@[y].id by {
                        assert(old(self)@[x].id != old(self)@[y].id);
                    }
                }
                Ok(())
            },
        }
    }

    /// Appends a purchase to the history of the item carrying `item_id`,
    /// stamping the current time; fails if no item carries it.
    pub fn add_purchase_to_item(&mut self, item_id: &str, purchase: PurchaseHistoryInfo) -> (r:
        Result<(), String>)
        requires
            old(self).wf(),
        ensures
            final(self).wf(),
            match r {
                Ok(_) => {
                    let i = item_index(old(self)@, item_id@);
                    &&& has_item(old(self)@, item_id@)
                    &&& final(self)@.len() == old(self)@.len()
                    &&& final(self)@ == old(self)@.update(i, final(self)@[i])
                    &&& final(self)@[i].purchase_history == old(self)@[i].purchase_history.push(
                        purchase@,
                    )
                    &&& final(self)@[i].id == old(self)@[i].id
                    &&& final(self)@[i].name == old(self)@[i].name
                    &&& final(self)@[i].brand == old(self)@[i].brand
                    &&& final(self)@[i].is_spending_leak == old(self)@[i].is_spending_leak
                    &&& final(self)@[i].spend_money_limit == old(self)@[i].spend_money_limit
                    &&& final(self)@[i].spend_amount_limit == old(self)@[i].spend_amount_limit
                    &&& final(self)@[i].leak_date_range == old(self)@[i].leak_date_range
                    &&& final(self)@[i].created_at == old(self)@[i].created_at
                },
                Err(_) => !has_item(old(self)@, item_id@) && final(self)@ == old(self)@,
            },
    {
        let now = now_millis();
        self.add_purchase_to_item_at(item_id, purchase, now)
    }
}

} // verus!
