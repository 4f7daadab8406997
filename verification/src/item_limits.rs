use vstd::prelude::*;

use crate::enums::LeakDateRange;
use crate::items::{purchase_views, Item, ItemLimitWarning, LimitType, PurchaseHistoryInfo, PurchaseV};
use crate::views::within_i64;

verus! {

/// Milliseconds in the given window.
pub open spec fn range_millis(range: LeakDateRange) -> int {
    match range {
        LeakDateRange::Week => 604800000int,
        LeakDateRange::Month => 2592000000int,
        LeakDateRange::Year => 31536000000int,
    }
}

/// The earliest timestamp inside the window that ends at `last_date`,
/// floored at the epoch.
pub open spec fn spec_range_edge(last_date: int, range: LeakDateRange) -> int {
    if last_date >= range_millis(range) {
        last_date - range_millis(range)
    } else {
        0
    }
}

/// The earliest timestamp inside the window that ends at `last_date`.
pub fn get_range_edge(last_date: u64, range: LeakDateRange) -> (r: u64)
    ensures
        r as int == spec_range_edge(last_date as int, range),
{
    let millis: u64 = match range {
        LeakDateRange::Week => 7 * 24 * 60 * 60 * 1000,
        LeakDateRange::Month => 30 * 24 * 60 * 60 * 1000,
        LeakDateRange::Year => 365 * 24 * 60 * 60 * 1000,
    };
    if last_date >= millis {
        last_date - millis
    } else {
        0
    }
}

/// Sum of the prices of the purchases on or after `edge`.
pub open spec fn spending_since(ps: Seq<PurchaseV>, edge: int) -> int
    decreases ps.len(),
{
    if ps.len() == 0 {
        0
    } else {
        spending_since(ps.drop_last(), edge) + if ps.last().date >= edge {
            ps.last().price
        } else {
            0
        }
    }
}

/// Sum of the quantities of the purchases on or after `edge`.
pub open spec fn quantity_since(ps: Seq<PurchaseV>, edge: int) -> int
    decreases ps.len(),
{
    if ps.len() == 0 {
        0
    } else {
        quantity_since(ps.drop_last(), edge) + if ps.last().date >= edge {
            ps.last().quantity
        } else {
            0
        }
    }
}

/// The money already spent in the item's window, plus the new amount. The
/// window ends at the date of the latest recorded purchase; with no history
/// the new amount stands alone.
pub open spec fn spec_current_spending(
    range: LeakDateRange,
    ps: Seq<PurchaseV>,
    new_amount: int,
) -> int {
    if ps.len() == 0 {
        new_amount
    } else {
        spending_since(ps, spec_range_edge(ps.last().date, range)) + new_amount
    }
}

/// The units already bought in the item's window, plus the new quantity.
pub open spec fn spec_current_quantity(
    range: LeakDateRange,
    ps: Seq<PurchaseV>,
    new_quantity: int,
) -> int {
    if ps.len() == 0 {
        new_quantity
    } else {
        quantity_since(ps, spec_range_edge(ps.last().date, range)) + new_quantity
    }
}

/// The money spent in the item's window plus `new_amount`, in minor units.
pub fn calculate_current_spending(
    range: LeakDateRange,
    purchase_history: &[PurchaseHistoryInfo],
    new_amount: i64,
) -> (r: i64)
    requires
        within_i64(spec_current_spending(range, purchase_views(purchase_history@), new_amount as int)),
    ensures
        r as int == spec_current_spending(
            range,
            purchase_views(purchase_history@),
            new_amount as int,
        ),
{
    let ghost psv = purchase_views(purchase_history@);
    let n = purchase_history.len();
    if n == 0 {
        proof {
            assert(psv.len() == 0);
        }
        return new_amount;
    }
    proof {
        assert(psv.len() == n as int);
        assert(psv.last() == purchase_history@[n - 1]@);
    }
    let last_date = purchase_history[n - 1].date;
    let edge = get_range_edge(last_date, range);
    let ghost edge_v = spec_range_edge(psv.last().date, range);
    let mut acc: i128 = 0;
    let mut i: usize = 0;
    proof {
        assert(psv.take(0) =~= Seq::<PurchaseV>::empty());
        assert forall|k: int|
            0 <= k < psv.len() implies -0x8000_0000_0000_0000 <= (#[trigger] psv[k].price)
            <= 0x8000_0000_0000_0000 by {
            assert(psv[k] == purchase_history@[k]@);
        }
    }
    while i < n
        invariant
            n == purchase_history@.len(),
            psv == purchase_views(purchase_history@),
            psv.len() == n as int,
            i <= n,
            edge as int == edge_v,
            acc as int == spending_since(psv.take(i as int), edge_v),
            -((i as int) * 0x8000_0000_0000_0000) <= acc as int <= (i as int)
                * 0x8000_0000_0000_0000,
        decreases n - i,
    {
        proof {
            assert(psv.take(i as int + 1).drop_last() =~= psv.take(i as int));
            assert(psv.take(i as int + 1).last() == psv[i as int]);
            assert(psv[i as int] == purchase_history@[i as int]@);
            assert((i as int + 1) * 0x8000_0000_0000_0000 == (i as int) * 0x8000_0000_0000_0000
                + 0x8000_0000_0000_0000) by (nonlinear_arith);
            assert(-((i as int + 1) * 0x8000_0000_0000_0000) == -((i as int)
                * 0x8000_0000_0000_0000) - 0x8000_0000_0000_0000) by (nonlinear_arith);
            assert((i as int) * 0x8000_0000_0000_0000 <= 0xffff_ffff_ffff_ffff
                * 0x8000_0000_0000_0000) by (nonlinear_arith)
                requires
                    0 <= i as int <= 0xffff_ffff_ffff_ffff,
            ;
            assert(psv[i as int].price >= -0x8000_0000_0000_0000 && psv[i as int].price
                <= 0x8000_0000_0000_0000);
        }
        if purchase_history[i].date >= edge {
            acc = acc + purchase_history[i].price as i128;
        }
        i = i + 1;
    }
    proof {
        assert(psv.take(n as int) =~= psv);
        assert(acc as int == spending_since(psv, edge_v));
    }
    proof {
        assert((n as int) * 0x8000_0000_0000_0000 <= 0xffff_ffff_ffff_ffff * 0x8000_0000_0000_0000)
            by (nonlinear_arith)
            requires
                0 <= n as int <= 0xffff_ffff_ffff_ffff,
        ;
    }
    let total = acc + new_amount as i128;
    total as i64
}

/// The units bought in the item's window plus `new_quantity`.
pub fn calculate_current_quantity(
    range: LeakDateRange,
    purchase_history: &[PurchaseHistoryInfo],
    new_quantity: u32,
) -> (r: u64)
    requires
        spec_current_quantity(range, purchase_views(purchase_history@), new_quantity as int)
            <= u64::MAX,
    ensures
        r as int == spec_current_quantity(
            range,
            purchase_views(purchase_history@),
            new_quantity as int,
        ),
{
    let ghost psv = purchase_views(purchase_history@);
    let n = purchase_history.len();
    if n == 0 {
        proof {
            assert(psv.len() == 0);
        }
        return new_quantity as u64;
    }
    proof {
        assert(psv.len() == n as int);
        assert(psv.last() == purchase_history@[n - 1]@);
    }
    let last_date = purchase_history[n - 1].date;
    let edge = get_range_edge(last_date, range);
    let ghost edge_v = spec_range_edge(psv.last().date, range);
    let mut acc: u128 = 0;
    let mut i: usize = 0;
    proof {
        assert(psv.take(0) =~= Seq::<PurchaseV>::empty());
    }
    while i < n
        invariant
            n == purchase_history@.len(),
            psv == purchase_views(purchase_history@),
            psv.len() == n as int,
            i <= n,
            edge as int == edge_v,
            acc as int == quantity_since(psv.take(i as int), edge_v),
            0 <= acc as int <= (i as int) * 0xffff_ffff,
        decreases n - i,
    {
        proof {
            assert(psv.take(i as int + 1).drop_last() =~= psv.take(i as int));
            assert(psv.take(i as int + 1).last() == psv[i as int]);
            assert(psv[i as int] == purchase_history@[i as int]@);
            assert((i as int + 1) * 0xffff_ffff == (i as int) * 0xffff_ffff + 0xffff_ffff)
                by (nonlinear_arith);
            assert((i as int) * 0xffff_ffff <= 0xffff_ffff_ffff_ffff * 0xffff_ffff)
                by (nonlinear_arith)
                requires
                    0 <= i as int <= 0xffff_ffff_ffff_ffff,
            ;
        }
        if purchase_history[i].date >= edge {
            acc = acc + purchase_history[i].quantity as u128;
        }
        i = i + 1;
    }
    proof {
        assert(psv.take(n as int) =~= psv);
        assert(acc as int == quantity_since(psv, edge_v));
    }
    let total = acc + new_quantity as u128;
    total as u64
}

/// The warnings a new purchase of `new_quantity` units at `new_price` each
/// raises against the item's spending-leak limits.
pub open spec fn spec_check_limits(item: crate::items::ItemV, new_quantity: int, new_price: int)
    -> Seq<(LimitType, int, int)> {
    if item.is_spending_leak != Some(true) {
        Seq::empty()
    } else {
        let range = match item.leak_date_range {
            Some(d) => d,
            None => LeakDateRange::Month,
        };
        let money = match item.spend_money_limit {
            Some(limit) => {
                let current = spec_current_spending(
                    range,
                    item.purchase_history,
                    new_quantity * new_price,
                );
                if current > limit {
                    seq![(LimitType::Money, limit, current)]
                } else {
                    Seq::empty()
                }
            },
            None => Seq::<(LimitType, int, int)>::empty(),
        };
        let quantity = match item.spend_amount_limit {
            Some(limit) => {
                let current = spec_current_quantity(range, item.purchase_history, new_quantity);
                if current > limit {
                    seq![(LimitType::Quantity, limit, current)]
                } else {
                    Seq::empty()
                }
            },
            None => Seq::<(LimitType, int, int)>::empty(),
        };
        money + quantity
    }
}

impl Item {
    /// The warnings a new purchase raises against this item's limits: one
    /// per exceeded limit, money first, carrying the limit, the would-be
    /// figure and the overrun.
    pub fn check_limits(&self, new_quantity: u32, new_price: i64) -> (r: Vec<ItemLimitWarning>)
        requires
            within_i64(new_quantity as int * new_price),
            within_i64(
                spec_current_spending(
                    match self@.leak_date_range {
                        Some(d) => d,
                        None => LeakDateRange::Month,
                    },
                    self@.purchase_history,
                    new_quantity as int * new_price,
                ),
            ),
            spec_current_quantity(
                match self@.leak_date_range {
                    Some(d) => d,
                    None => LeakDateRange::Month,
                },
                self@.purchase_history,
                new_quantity as int,
            ) <= i64::MAX,
        ensures
            r@.len() == spec_check_limits(self@, new_quantity as int, new_price as int).len(),
            forall|k: int|
                0 <= k < r@.len() ==> {
                    let w = #[trigger] r@[k];
                    let e = spec_check_limits(self@, new_quantity as int, new_price as int)[k];
                    &&& w.item_id@ == self@.id
                    &&& w.item_name@ == self@.name
                    &&& w.limit_type == e.0
                    &&& w.limit as int == e.1
                    &&& w.current as int == e.2
                    &&& w.exceeded as int == e.2 - e.1
                },
    {
        let mut warnings: Vec<ItemLimitWarning> = Vec::new();
        if !self.is_spending_leak() {
            return warnings;
        }
        let range = self.get_leak_date_range();
        let total_i128 = (new_quantity as i128) * (new_price as i128);
        proof {
            assert((new_quantity as i128) * (new_price as i128) == new_quantity as int * new_price)
                by (nonlinear_arith)
                requires
                    new_quantity as i128 == new_quantity as int,
                    new_price as i128 == new_price as int,
            ;
        }
        let transaction_total = total_i128 as i64;

        match self.spend_money_limit {
            Some(money_limit) => {
                let current = calculate_current_spending(
                    range,
                    self.purchase_history.as_slice(),
                    transaction_total,
                );
                if current > money_limit as i64 {
                    warnings.push(
                        ItemLimitWarning {
                            item_id: self.id.clone(),
                            item_name: self.name.clone(),
                            limit_type: LimitType::Money,
                            limit: money_limit as i64,
                            current,
                            exceeded: current - money_limit as i64,
                        },
                    );
                }
            },
            None => {},
        }
        match self.spend_amount_limit {
            Some(quantity_limit) => {
                let current = calculate_current_quantity(
                    range,
                    self.purchase_history.as_slice(),
                    new_quantity,
                );
                if current > quantity_limit as u64 {
                    proof {
                        assert(within_i64(current as int));
                    }
                    warnings.push(
                        ItemLimitWarning {
                            item_id: self.id.clone(),
                            item_name: self.name.clone(),
                            limit_type: LimitType::Quantity,
                            limit: quantity_limit as i64,
                            current: current as i64,
                            exceeded: (current - quantity_limit as u64) as i64,
                        },
                    );
                }
            },
            None => {},
        }
        warnings
    }
}

} // verus!
