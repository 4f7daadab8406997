use vstd::prelude::*;

use crate::items::{has_item, item_index, Item, ItemV, ItemsDB, PurchaseHistoryInfo, PurchaseV};
use crate::transaction::{tx_refs, Transaction, TransactionItemRef, TransactionItemRefV, TransactionV};
use crate::trusted::fresh_uuid;

verus! {

/// Whether `p` records a purchase of `quantity` units at `price` each, taken
/// from the transaction `t`, under some fresh identifier.
pub open spec fn purchase_of(p: PurchaseV, t: TransactionV, price: int, quantity: int) -> bool {
    &&& p.date == t.date
    &&& p.price == price
    &&& p.transaction_name == t.details
    &&& p.quantity == quantity
}

/// How syncing one item line of transaction `t` takes the catalog from
/// `pre` to `post`. A line that names a cataloged item appends one purchase
/// record to it when it carries a price and touches nothing otherwise; a
/// line that names no item appends one fresh catalog entry, with the
/// purchase recorded when the line carries a price. The fresh identifiers
/// are random, so the relation leaves them open.
pub open spec fn line_synced(
    rv: TransactionItemRefV,
    t: TransactionV,
    pre: Seq<ItemV>,
    post: Seq<ItemV>,
) -> bool {
    match rv.item_id {
        Some(id) => {
            if !has_item(pre, id) {
                post == pre
            } else if rv.price is None {
                post == pre
            } else {
                let i = item_index(pre, id);
                &&& post.len() == pre.len()
                &&& post == pre.update(i, post[i])
                &&& post[i].id == pre[i].id
                &&& post[i].name == pre[i].name
                &&& post[i].brand == pre[i].brand
                &&& post[i].is_spending_leak == pre[i].is_spending_leak
                &&& post[i].spend_money_limit == pre[i].spend_money_limit
                &&& post[i].spend_amount_limit == pre[i].spend_amount_limit
                &&& post[i].leak_date_range == pre[i].leak_date_range
                &&& post[i].created_at == pre[i].created_at
                &&& post[i].purchase_history.len() == pre[i].purchase_history.len() + 1
                &&& post[i].purchase_history.drop_last() == pre[i].purchase_history
                &&& purchase_of(
                    post[i].purchase_history.last(),
                    t,
                    rv.price->Some_0,
                    match rv.quantity {
                        Some(q) => q,
                        None => 1,
                    },
                )
            }
        },
        None => {
            &&& post.len() == pre.len() + 1
            &&& post.drop_last() == pre
            &&& post.last().name == rv.name
            &&& post.last().brand is None
            &&& post.last().is_spending_leak == Some(false)
            &&& post.last().purchase_history.len() == (if rv.price is Some {
                1int
            } else {
                0int
            })
            &&& (rv.price is Some ==> purchase_of(
                post.last().purchase_history.last(),
                t,
                rv.price->Some_0,
                match rv.quantity {
                    Some(q) => q,
                    None => 1,
                },
            ))
        },
    }
}

/// How syncing the item lines `refs` of transaction `t`, first to last,
/// takes the catalog from `pre` to `post`: a chain of `line_synced` steps.
pub open spec fn items_synced(
    refs: Seq<TransactionItemRefV>,
    t: TransactionV,
    pre: Seq<ItemV>,
    post: Seq<ItemV>,
) -> bool
    decreases refs.len(),
{
    if refs.len() == 0 {
        post == pre
    } else {
        exists|mid: Seq<ItemV>|
            #![auto]
            items_synced(refs.drop_last(), t, pre, mid) && line_synced(refs.last(), t, mid, post)
    }
}

/// Syncs one item line of `transaction` into the catalog, exactly as
/// `line_synced` lays out; the only failure is a fresh-identifier collision
/// while creating a new entry, which leaves the catalog untouched.
pub fn sync_single_item(
    item_ref: &TransactionItemRef,
    transaction: &Transaction,
    items_db: &mut ItemsDB,
) -> (r: Result<(), String>)
    requires
        old(items_db).wf(),
    ensures
        final(items_db).wf(),
        r is Ok ==> line_synced(item_ref@, transaction@, old(items_db)@, final(items_db)@),
        r is Err ==> final(items_db)@ == old(items_db)@ && item_ref@.item_id is None,
{
    match &item_ref.item_id {
        Some(id) => {
            if items_db.find_item(id.as_str()).is_some() {
                match item_ref.price {
                    Some(price) => {
                        let mut purchase = PurchaseHistoryInfo {
                            id: String::new(),
                            date: transaction.date,
                            price,
                            transaction_name: transaction.details.clone(),
                            quantity: match item_ref.quantity {
                                Some(q) => q,
                                None => 1,
                            },
                        };
                        purchase.generate_id();
                        let r = items_db.add_purchase_to_item(id.as_str(), purchase);
                        proof {
                            assert(r is Ok);
                            assert(item_ref@.item_id is Some);
                            let ix = item_index(old(items_db)@, item_ref@.item_id->Some_0);
                            assert(items_db@[ix].purchase_history.drop_last() =~= old(
                                items_db,
                            )@[ix].purchase_history);
                            assert(line_synced(
                                item_ref@,
                                transaction@,
                                old(items_db)@,
                                items_db@,
                            ));
                        }
                        r
                    },
                    None => Ok(()),
                }
            } else {
                Ok(())
            }
        },
        None => {
            let now = crate::trusted::now_millis();
            let mut new_item = Item {
                id: fresh_uuid(),
                name: item_ref.name.clone(),
                brand: None,
                has_warranty: None,
                purchase_history: Vec::new(),
                is_spending_leak: Some(false),
                spend_money_limit: None,
                spend_amount_limit: None,
                has_exceeded_spend_money_limit: None,
                leak_date_range: None,
                created_at: now,
                updated_at: now,
            };
            match item_ref.price {
                Some(price) => {
                    let mut purchase = PurchaseHistoryInfo {
                        id: String::new(),
                        date: transaction.date,
                        price,
                        transaction_name: transaction.details.clone(),
                        quantity: match item_ref.quantity {
                            Some(q) => q,
                            None => 1,
                        },
                    };
                    purchase.generate_id();
                    new_item.add_purchase_at(purchase, now);
                },
                None => {},
            }
            proof {
                assert(crate::items::purchase_views(new_item.purchase_history@)
                    =~= new_item@.purchase_history);
            }
            let r = items_db.insert_item(new_item);
            match r {
                Ok(_) => {
                    proof {
                        assert(item_ref@.item_id is None);
                        assert(items_db@.drop_last() =~= old(items_db)@);
                        assert(line_synced(item_ref@, transaction@, old(items_db)@, items_db@));
                    }
                    Ok(())
                },
                Err(e) => Err(e),
            }
        },
    }
}

impl Transaction {
    /// Syncs every item line of this transaction into the catalog, first to
    /// last, stopping at the first line that fails: on success the catalog
    /// moved by the whole `items_synced` chain, on failure by the chain of
    /// the lines before the failing one, which itself changed nothing.
    pub fn sync_items_to_db(&self, items_db: &mut ItemsDB) -> (r: Result<(), String>)
        requires
            old(items_db).wf(),
        ensures
            final(items_db).wf(),
            self.items is None ==> r is Ok && final(items_db)@ == old(items_db)@,
            tx_refs(self@).len() == 0 ==> r is Ok && final(items_db)@ == old(items_db)@,
            r is Ok ==> items_synced(tx_refs(self@), self@, old(items_db)@, final(items_db)@),
            r is Err ==> exists|k: int|
                #![auto]
                0 <= k < tx_refs(self@).len() && items_synced(
                    tx_refs(self@).take(k),
                    self@,
                    old(items_db)@,
                    final(items_db)@,
                ),
    {
        match &self.items {
            None => {
                proof {
                    assert(tx_refs(self@) =~= Seq::<TransactionItemRefV>::empty());
                }
                Ok(())
            },
            Some(items) => {
                let ghost refs = crate::transaction::item_ref_views(items@);
                let ghost pre = items_db@;
                proof {
                    assert(tx_refs(self@) == refs);
                    assert(refs.take(0) =~= Seq::<TransactionItemRefV>::empty());
                }
                let mut i: usize = 0;
                while i < items.len()
                    invariant
                        items_db.wf(),
                        self.items is Some,
                        refs == tx_refs(self@),
                        refs == crate::transaction::item_ref_views(items@),
                        refs.len() == items@.len(),
                        i <= items@.len(),
                        items_synced(refs.take(i as int), self@, pre, items_db@),
                        pre == old(items_db)@,
                    decreases items@.len() - i,
                {
                    proof {
                        assert(refs.take(i as int + 1).drop_last() =~= refs.take(i as int));
                        assert(refs.take(i as int + 1).last() == refs[i as int]);
                        assert(refs[i as int] == items@[i as int]@);
                    }
                    let ghost mid = items_db@;
                    let r = sync_single_item(&items[i], self, items_db);
                    match r {
                        Ok(_) => {
                            proof {
                                assert(items_synced(refs.take(i as int), self@, pre, mid)
                                    && line_synced(
                                    refs.take(i as int + 1).last(),
                                    self@,
                                    mid,
                                    items_db@,
                                ));
                                assert(items_synced(refs.take(i as int + 1), self@, pre, items_db@));
                            }
                        },
                        Err(e) => {
                            proof {
                                assert(items_db@ == mid);
                                assert((i as int) < refs.len());
                                assert(items_synced(refs.take(i as int), self@, pre, items_db@));
                            }
                            return Err(e);
                        },
                    }
                    i = i + 1;
                }
                proof {
                    assert(refs.take(refs.len() as int) =~= refs);
                }
                Ok(())
            },
        }
    }
}

} // verus!
