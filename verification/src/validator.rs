use vstd::prelude::*;
use vstd::multiset::Multiset;
use vstd::string::*;

use crate::items::{ItemV, ItemsDB};
use crate::similarity::{
    above_threshold, calculate_similarity, min2, similarity_above_threshold, similarity_den,
    similarity_num,
};
use crate::sync_models::{
    conflict_views, match_views, ConflictType, ConflictTypeV, ItemMatch, ItemMatchV, SyncConflict,
    SyncConflictV,
};
use crate::transaction::{
    transaction_views, tx_refs, Transaction, TransactionItemRefV, TransactionV,
};
use crate::trusted::{lower_of, lowercase};
use crate::wallet::{account_index, has_account, WalletDB, WalletV};

verus! {

/// Whether a character sequence is short enough for the machine to index.
pub open spec fn small_seq(s: Seq<char>) -> bool {
    s.len() < usize::MAX
}

/// The candidate entry for `item` against the lower-cased probe `probe`.
pub open spec fn match_of(item: ItemV, probe: Seq<char>) -> ItemMatchV {
    ItemMatchV {
        item_id: item.id,
        name: item.name,
        brand: item.brand,
        score_num: similarity_num(probe, lower_of(item.name)),
        score_den: similarity_den(probe, lower_of(item.name)),
    }
}

/// Whether `item` clears the similarity threshold against the lower-cased
/// probe `probe` (its lower-cased name must also be machine-indexable).
pub open spec fn qualifies(item: ItemV, probe: Seq<char>) -> bool {
    &&& small_seq(lower_of(item.name))
    &&& above_threshold(
        similarity_num(probe, lower_of(item.name)),
        similarity_den(probe, lower_of(item.name)),
    )
}

/// The candidate entries of every catalog item that clears the threshold, in
/// catalog order.
pub open spec fn qualifying_matches(items: Seq<ItemV>, probe: Seq<char>) -> Seq<ItemMatchV>
    decreases items.len(),
{
    if items.len() == 0 {
        Seq::empty()
    } else {
        qualifying_matches(items.drop_last(), probe) + if qualifies(items.last(), probe) {
            seq![match_of(items.last(), probe)]
        } else {
            Seq::empty()
        }
    }
}

/// A well-formed score fraction: between zero and one, positive denominator.
pub open spec fn score_wf(m: ItemMatchV) -> bool {
    0 <= m.score_num <= m.score_den && 0 < m.score_den
}

/// All entries carry well-formed score fractions.
pub open spec fn all_scores_wf(s: Seq<ItemMatchV>) -> bool {
    forall|i: int| 0 <= i < s.len() ==> score_wf(#[trigger] s[i])
}

/// Whether `a` scores at least as high as `b`, by cross-multiplication.
pub open spec fn score_ge(a: ItemMatchV, b: ItemMatchV) -> bool {
    a.score_num * b.score_den >= b.score_num * a.score_den
}

/// Sorted by score, highest first.
pub open spec fn sorted_desc(s: Seq<ItemMatchV>) -> bool {
    forall|i: int, j: int| 0 <= i < j < s.len() ==> score_ge(#[trigger] s[i], #[trigger] s[j])
}

/// The score order is transitive on well-formed fractions.
pub proof fn lemma_score_ge_trans(a: ItemMatchV, b: ItemMatchV, c: ItemMatchV)
    requires
        score_wf(a),
        score_wf(b),
        score_wf(c),
        score_ge(a, b),
        score_ge(b, c),
    ensures
        score_ge(a, c),
{
    assert(a.score_num * c.score_den >= c.score_num * a.score_den) by (nonlinear_arith)
        requires
            a.score_num * b.score_den >= b.score_num * a.score_den,
            b.score_num * c.score_den >= c.score_num * b.score_den,
            0 < a.score_den,
            0 < b.score_den,
            0 < c.score_den,
            0 <= a.score_num,
            0 <= b.score_num,
            0 <= c.score_num,
    ;
}

/// Inserts `m` into a score-sorted list, after every entry that scores at
/// least as high: the stable insertion the executable sort performs, so
/// entries with equal scores keep their original order.
pub open spec fn insert_desc(s: Seq<ItemMatchV>, m: ItemMatchV) -> Seq<ItemMatchV>
    decreases s.len(),
{
    if s.len() == 0 {
        seq![m]
    } else if score_ge(s.first(), m) {
        seq![s.first()] + insert_desc(s.drop_first(), m)
    } else {
        seq![m] + s
    }
}

/// The stable descending sort of `s` by score: entries inserted first to
/// last, each after the entries scoring at least as high, so candidates with
/// equal scores stay in catalog order.
pub open spec fn sort_desc_seq(s: Seq<ItemMatchV>) -> Seq<ItemMatchV>
    decreases s.len(),
{
    if s.len() == 0 {
        Seq::empty()
    } else {
        insert_desc(sort_desc_seq(s.drop_last()), s.last())
    }
}

/// Inserting after exactly the first `p` entries — all scoring at least as
/// high, the next one lower — is inserting at position `p`.
proof fn lemma_insert_desc_at(s: Seq<ItemMatchV>, m: ItemMatchV, p: int)
    requires
        0 <= p <= s.len(),
        forall|k: int| 0 <= k < p ==> score_ge(#[trigger] s[k], m),
        p < s.len() ==> !score_ge(s[p], m),
    ensures
        insert_desc(s, m) == s.insert(p, m),
    decreases s.len(),
{
    if p == 0 {
        if s.len() == 0 {
            assert(insert_desc(s, m) =~= s.insert(0, m));
        } else {
            assert(!score_ge(s.first(), m));
            assert(insert_desc(s, m) =~= s.insert(0, m));
        }
    } else {
        assert(score_ge(s[0], m));
        assert forall|k: int| 0 <= k < p - 1 implies score_ge(#[trigger] s.drop_first()[k], m) by {
            assert(s.drop_first()[k] == s[k + 1]);
        }
        if p - 1 < s.drop_first().len() {
            assert(s.drop_first()[p - 1] == s[p]);
        }
        lemma_insert_desc_at(s.drop_first(), m, p - 1);
        assert(insert_desc(s, m) =~= s.insert(p, m));
    }
}

/// Whether `a` scores at least as high as `b`, computed without overflow.
fn score_ge_cmp(a: &ItemMatch, b: &ItemMatch) -> (r: bool)
    ensures
        r == score_ge(a@, b@),
{
    proof {
        assert(((a.score_num as u128) as int) * ((b.score_den as u128) as int) <= u128::MAX
            && ((b.score_num as u128) as int) * ((a.score_den as u128) as int) <= u128::MAX)
            by (nonlinear_arith)
            requires
                ((a.score_num as u128) as int) < 0x1_0000_0000_0000_0000,
                ((b.score_num as u128) as int) < 0x1_0000_0000_0000_0000,
                ((a.score_den as u128) as int) < 0x1_0000_0000_0000_0000,
                ((b.score_den as u128) as int) < 0x1_0000_0000_0000_0000,
                ((a.score_num as u128) as int) >= 0,
                ((b.score_num as u128) as int) >= 0,
                ((a.score_den as u128) as int) >= 0,
                ((b.score_den as u128) as int) >= 0,
        ;
    }
    let left = (a.score_num as u128) * (b.score_den as u128);
    let right = (b.score_num as u128) * (a.score_den as u128);
    left >= right
}

/// Inserts `c` into a descending-sorted vector, keeping it sorted and adding
/// exactly one occurrence of `c`.
fn insert_sorted_desc(out: &mut Vec<ItemMatch>, c: ItemMatch)
    requires
        sorted_desc(match_views(old(out)@)),
        all_scores_wf(match_views(old(out)@)),
        score_wf(c@),
    ensures
        sorted_desc(match_views(final(out)@)),
        all_scores_wf(match_views(final(out)@)),
        match_views(final(out)@).to_multiset() == match_views(old(out)@).to_multiset().insert(c@),
        match_views(final(out)@) == insert_desc(match_views(old(out)@), c@),
        final(out)@.len() == old(out)@.len() + 1,
{
    broadcast use vstd::seq_lib::group_to_multiset_ensures;

    let ghost cv = c@;
    let ghost s0 = match_views(out@);
    let mut p: usize = 0;
    while p < out.len() && score_ge_cmp(&out[p], &c)
        invariant
            out@ == old(out)@,
            p <= out@.len(),
            forall|k: int| 0 <= k < p ==> score_ge(#[trigger] match_views(out@)[k], cv),
            cv == c@,
        decreases out@.len() - p,
    {
        proof {
            assert(match_views(out@)[p as int] == out@[p as int]@);
        }
        p = p + 1;
    }
    proof {
        if p < out@.len() {
            assert(!score_ge(out@[p as int]@, cv));
            assert(score_ge(cv, out@[p as int]@));
        }
    }
    out.insert(p, c);
    proof {
        let s1 = match_views(out@);
        assert(s1.len() == s0.len() + 1);
        assert forall|k: int| 0 <= k < s1.len() implies #[trigger] s1[k] == (if k < p {
            s0[k]
        } else if k == p {
            cv
        } else {
            s0[k - 1]
        }) by {
            assert(s1[k] == out@[k]@);
            if k < p {
                assert(out@[k] == old(out)@[k]);
                assert(s0[k] == old(out)@[k]@);
            } else if k > p {
                assert(out@[k] == old(out)@[k - 1]);
                assert(s0[k - 1] == old(out)@[k - 1]@);
            }
        }
        assert forall|i: int, j: int| 0 <= i < j < s1.len() implies score_ge(
            #[trigger] s1[i],
            #[trigger] s1[j],
        ) by {
            if i < p && j < p {
                assert(score_ge(s0[i], s0[j]));
            } else if i < p && j == p {
                assert(score_ge(s0[i], cv));
            } else if i < p && j > p {
                assert(score_ge(s0[i], s0[j - 1]));
            } else if i == p && j > p {
                if p < s0.len() {
                    assert(score_ge(cv, s0[p as int]));
                    if j - 1 > p {
                        assert(score_ge(s0[p as int], s0[j - 1]));
                        lemma_score_ge_trans(cv, s0[p as int], s0[j - 1]);
                    }
                }
            } else {
                assert(score_ge(s0[i - 1], s0[j - 1]));
            }
        }
        // The exec position is exactly the stable insertion point.
        assert(match_views(out@) =~= s0.insert(p as int, cv));
        lemma_insert_desc_at(s0, cv, p as int);
        // One more occurrence of `c`, nothing else changed.
        assert(out@.remove(p as int) =~= old(out)@);
        assert(out@.remove(p as int).to_multiset() =~= out@.to_multiset().remove(out@[p as int]));
        assert(out@[p as int] == c);
        assert(out@.to_multiset().contains(c));
        assert(match_views(out@).to_multiset() =~= match_views(old(out)@).to_multiset().insert(cv))
            by {
            lemma_match_views_multiset(old(out)@, out@, p as int, c);
        }
    }
}

/// Inserting an entry into a vector inserts its view into the view multiset.
proof fn lemma_match_views_multiset(
    pre: Seq<ItemMatch>,
    post: Seq<ItemMatch>,
    p: int,
    c: ItemMatch,
)
    requires
        0 <= p <= pre.len(),
        post == pre.insert(p, c),
    ensures
        match_views(post).to_multiset() == match_views(pre).to_multiset().insert(c@),
    decreases pre.len(),
{
    broadcast use vstd::seq_lib::group_to_multiset_ensures;

    assert forall|k: int| 0 <= k < post.len() implies #[trigger] match_views(post)[k] == (if k < p {
        match_views(pre)[k]
    } else if k == p {
        c@
    } else {
        match_views(pre)[k - 1]
    }) by {
        assert(match_views(post)[k] == post[k]@);
        if k < p {
            assert(post[k] == pre[k]);
            assert(match_views(pre)[k] == pre[k]@);
        } else if k > p {
            assert(post[k] == pre[k - 1]);
            assert(match_views(pre)[k - 1] == pre[k - 1]@);
        }
    }
    assert(match_views(post) =~= match_views(pre).insert(p, c@));
    lemma_seq_insert_multiset(match_views(pre), p, c@);
}

/// Inserting into a sequence inserts into its multiset.
proof fn lemma_seq_insert_multiset(s: Seq<ItemMatchV>, p: int, x: ItemMatchV)
    requires
        0 <= p <= s.len(),
    ensures
        s.insert(p, x).to_multiset() == s.to_multiset().insert(x),
{
    broadcast use vstd::seq_lib::group_to_multiset_ensures;

    let t = s.insert(p, x);
    assert(t.remove(p) =~= s);
    assert(t.remove(p).to_multiset() =~= t.to_multiset().remove(t[p]));
    assert(t[p] == x);
    assert(t.to_multiset().count(x) > 0) by {
        assert(t.contains(x));
    }
    assert(t.to_multiset() =~= t.to_multiset().remove(x).insert(x));
    assert(t.to_multiset() =~= s.to_multiset().insert(x));
}

/// Sorts candidate entries by score, highest first.
fn sort_matches_desc(cands: Vec<ItemMatch>) -> (r: Vec<ItemMatch>)
    requires
        all_scores_wf(match_views(cands@)),
    ensures
        sorted_desc(match_views(r@)),
        all_scores_wf(match_views(r@)),
        match_views(r@).to_multiset() == match_views(cands@).to_multiset(),
        match_views(r@) == sort_desc_seq(match_views(cands@)),
        r@.len() == cands@.len(),
{
    broadcast use vstd::seq_lib::group_to_multiset_ensures;

    let mut out: Vec<ItemMatch> = Vec::new();
    let mut i: usize = 0;
    proof {
        assert(match_views(out@) =~= Seq::<ItemMatchV>::empty());
        assert(match_views(cands@).take(0) =~= Seq::<ItemMatchV>::empty());
        assert(Seq::<ItemMatchV>::empty().to_multiset() =~= Multiset::<ItemMatchV>::empty());
    }
    while i < cands.len()
        invariant
            i <= cands@.len(),
            sorted_desc(match_views(out@)),
            all_scores_wf(match_views(out@)),
            all_scores_wf(match_views(cands@)),
            out@.len() == i,
            match_views(out@).to_multiset() == match_views(cands@).take(i as int).to_multiset(),
            match_views(out@) == sort_desc_seq(match_views(cands@).take(i as int)),
        decreases cands@.len() - i,
    {
        let c = cands[i].clone();
        proof {
            assert(c@ == match_views(cands@)[i as int]);
        }
        insert_sorted_desc(&mut out, c);
        proof {
            let mtake = match_views(cands@).take(i as int);
            let elem = match_views(cands@)[i as int];
            assert(match_views(cands@).take(i as int + 1) =~= mtake.push(elem));
            vstd::seq_lib::to_multiset_build(mtake, elem);
            assert(mtake.push(elem).to_multiset() =~= mtake.to_multiset().insert(elem));
            assert(match_views(cands@).take(i as int + 1).to_multiset() == mtake.to_multiset().insert(
                elem,
            ));
            assert(mtake.push(elem).drop_last() =~= mtake);
            assert(sort_desc_seq(mtake.push(elem)) == insert_desc(sort_desc_seq(mtake), elem));
        }
        i = i + 1;
    }
    proof {
        assert(match_views(cands@).take(cands@.len() as int) =~= match_views(cands@));
    }
    out
}

/// The fixed description a balance conflict carries.
pub open spec fn balance_conflict_description() -> Seq<char> {
    "Transaction amount exceeds the account's current balance"@
}

/// The fixed suggestion a balance conflict carries.
pub open spec fn balance_conflict_suggestion() -> Seq<char> {
    "Reduce the amount or select a different account"@
}

/// The fixed description an unknown-item conflict carries.
pub open spec fn unknown_item_description() -> Seq<char> {
    "Item not found in database. Possible matches found."@
}

/// The fixed suggestion an unknown-item conflict carries.
pub open spec fn unknown_item_suggestion() -> Seq<char> {
    "Map to existing item or create new one"@
}

/// The balance conflict `t` raises against the wallet snapshot `w`: a
/// balance-affecting expense whose amount exceeds the referenced account's
/// balance is flagged with the account's figures; anything else passes.
pub open spec fn balance_conflict(w: WalletV, t: TransactionV) -> Option<SyncConflictV> {
    if !t.affects_balance || t.is_income() {
        None
    } else if !has_account(w.accounts, t.account_id) {
        None
    } else {
        let a = w.accounts[account_index(w.accounts, t.account_id)];
        if t.amount > a.balance {
            Some(
                SyncConflictV {
                    conflict_type: ConflictTypeV::InsufficientBalance {
                        account_id: a.id,
                        account_name: a.name,
                        current_balance: a.balance,
                        required: t.amount,
                    },
                    transaction_id: t.id,
                    description: balance_conflict_description(),
                    suggestion: Some(balance_conflict_suggestion()),
                },
            )
        } else {
            None
        }
    }
}

/// The view of an optional conflict.
pub open spec fn opt_conflict_view(r: Option<SyncConflict>) -> Option<SyncConflictV> {
    match r {
        Some(c) => Some(c@),
        None => None,
    }
}

/// The candidate list for the lower-cased probe `probe` against `catalog`:
/// exactly the first five (or fewer) entries of the stable descending sort
/// of every qualifying catalog item — a pure function of the snapshot and
/// the probe, with equal scores kept in catalog order.
pub open spec fn matches_ok(ms: Seq<ItemMatchV>, probe: Seq<char>, catalog: Seq<ItemV>) -> bool {
    &&& sorted_desc(ms)
    &&& ms.len() == min2(5, qualifying_matches(catalog, probe).len() as int)
    &&& ms == sort_desc_seq(qualifying_matches(catalog, probe)).take(
        min2(5, qualifying_matches(catalog, probe).len() as int),
    )
}

/// The item lines of `t` that raise an unknown-item conflict: unresolved
/// lines with at least one qualifying catalog candidate.
pub open spec fn flagged_refs(refs: Seq<TransactionItemRefV>, catalog: Seq<ItemV>) -> Seq<
    TransactionItemRefV,
> {
    refs.filter(
        |r: TransactionItemRefV|
            r.item_id is None && small_seq(lower_of(r.name)) && qualifying_matches(
                catalog,
                lower_of(r.name),
            ).len() > 0,
    )
}

/// Whether `c` is the unknown-item conflict for the line `rv` of transaction
/// `t` against `catalog`.
pub open spec fn unknown_conflict_ok(
    c: SyncConflictV,
    t: TransactionV,
    rv: TransactionItemRefV,
    catalog: Seq<ItemV>,
) -> bool {
    &&& c.transaction_id == t.id
    &&& c.description == unknown_item_description()
    &&& c.suggestion == Some(unknown_item_suggestion())
    &&& match c.conflict_type {
        ConflictTypeV::UnknownItem { item_name, suggested_matches } => item_name == rv.name
            && matches_ok(suggested_matches, lower_of(rv.name), catalog),
        _ => false,
    }
}

/// The conflict list `balance_conflict` contributes for one transaction.
pub open spec fn balance_block(w: WalletV, t: TransactionV) -> Seq<SyncConflictV> {
    match balance_conflict(w, t) {
        Some(c) => seq![c],
        None => Seq::empty(),
    }
}

/// Whether `b` is the unknown-item conflict block for transaction `t`.
pub open spec fn item_block_ok(b: Seq<SyncConflictV>, t: TransactionV, catalog: Seq<ItemV>) -> bool {
    &&& b.len() == flagged_refs(tx_refs(t), catalog).len()
    &&& forall|j: int|
        0 <= j < b.len() ==> unknown_conflict_ok(
            #[trigger] b[j],
            t,
            flagged_refs(tx_refs(t), catalog)[j],
            catalog,
        )
}

/// The conflicts of a batch: for each transaction in order, its balance
/// block followed by its unknown-item block.
pub open spec fn assembled_conflicts(
    w: WalletV,
    txs: Seq<TransactionV>,
    ibs: Seq<Seq<SyncConflictV>>,
) -> Seq<SyncConflictV>
    decreases txs.len(),
{
    if txs.len() == 0 {
        Seq::empty()
    } else {
        assembled_conflicts(w, txs.drop_last(), ibs.drop_last()) + balance_block(w, txs.last())
            + ibs.last()
    }
}

/// The conflict detector: a referentially transparent check of an incoming
/// transaction batch against a snapshot of the wallet and the item catalog.
pub struct SyncValidator {
    pub wallet_db: WalletDB,
    pub items_db: ItemsDB,
}

impl SyncValidator {
    /// A detector over the given ledger snapshot.
    pub fn new(wallet_db: WalletDB, items_db: ItemsDB) -> (r: Self)
        ensures
            r.wallet_db@ == wallet_db@,
            r.items_db@ == items_db@,
    {
        SyncValidator { wallet_db, items_db }
    }

    /// The catalog items whose names score above the similarity threshold
    /// against `name`, highest score first, at most five, with equal scores
    /// kept in catalog order. The scores compare the lower-cased forms of
    /// both names; the result is a pure function of the catalog and the
    /// name.
    pub fn find_similar_items(&self, name: &str) -> (r: Vec<ItemMatch>)
        ensures
            small_seq(lower_of(name@)) ==> matches_ok(
                match_views(r@),
                lower_of(name@),
                self.items_db@,
            ),
            !small_seq(lower_of(name@)) ==> r@.len() == 0,
    {
        broadcast use vstd::seq_lib::group_to_multiset_ensures;

        let probe = lowercase(name);
        let plen = probe.unicode_len();
        if plen == usize::MAX {
            return Vec::new();
        }
        let ghost pv = probe@;
        let ghost catalog = self.items_db@;

        let mut cands: Vec<ItemMatch> = Vec::new();
        let mut i: usize = 0;
        proof {
            assert(match_views(cands@) =~= Seq::<ItemMatchV>::empty());
            assert(qualifying_matches(catalog.take(0), pv) =~= Seq::<ItemMatchV>::empty());
        }
        while i < self.items_db.data.len()
            invariant
                i <= self.items_db.data.len(),
                catalog == self.items_db@,
                catalog.len() == self.items_db.data.len(),
                pv == lower_of(name@),
                probe@ == pv,
                pv.len() < usize::MAX,
                match_views(cands@) =~= qualifying_matches(catalog.take(i as int), pv),
                all_scores_wf(match_views(cands@)),
            decreases self.items_db.data.len() - i,
        {
            proof {
                assert(catalog.take(i as int + 1).drop_last() =~= catalog.take(i as int));
                assert(catalog.take(i as int + 1).last() == catalog[i as int]);
                assert(catalog[i as int] == self.items_db.data@[i as int]@);
            }
            let item = &self.items_db.data[i];
            let lowered = lowercase(item.name.as_str());
            let llen = lowered.unicode_len();
            if llen < usize::MAX {
                let score = calculate_similarity(probe.as_str(), lowered.as_str());
                if similarity_above_threshold(score.0, score.1) {
                    let m = ItemMatch {
                        item_id: item.id.clone(),
                        name: item.name.clone(),
                        brand: match &item.brand {
                            Some(b) => Some(b.clone()),
                            None => None,
                        },
                        score_num: score.0,
                        score_den: score.1,
                    };
                    let ghost mv = m@;
                    let ghost prev = cands@;
                    cands.push(m);
                    proof {
                        assert(lowered@ == lower_of(catalog[i as int].name));
                        assert(mv.item_id == catalog[i as int].id);
                        assert(mv.name == catalog[i as int].name);
                        assert(mv.brand == catalog[i as int].brand);
                        assert(mv.score_num == similarity_num(pv, lower_of(catalog[i as int].name)));
                        assert(mv.score_den == similarity_den(pv, lower_of(catalog[i as int].name)));
                        assert(mv == match_of(catalog[i as int], pv));
                        assert(qualifies(catalog[i as int], pv));
                        crate::sync_models::lemma_match_views_push(prev, cands@, mv);
                        assert(match_views(cands@) =~= qualifying_matches(
                            catalog.take(i as int + 1),
                            pv,
                        ));
                    }
                } else {
                    proof {
                        assert(!qualifies(catalog[i as int], pv));
                        assert(match_views(cands@) =~= qualifying_matches(
                            catalog.take(i as int + 1),
                            pv,
                        ));
                    }
                }
            } else {
                proof {
                    assert(!qualifies(catalog[i as int], pv));
                    assert(match_views(cands@) =~= qualifying_matches(
                        catalog.take(i as int + 1),
                        pv,
                    ));
                }
            }
            i = i + 1;
        }
        proof {
            assert(catalog.take(catalog.len() as int) =~= catalog);
        }

        let mut sorted = sort_matches_desc(cands);
        let ghost all = match_views(sorted@);
        proof {
            assert(all.to_multiset().len() == all.len());
            assert(qualifying_matches(catalog, pv).to_multiset().len() == qualifying_matches(
                catalog,
                pv,
            ).len());
        }
        if sorted.len() > 5 {
            sorted.truncate(5);
        }
        proof {
            assert(match_views(sorted@) =~= all.take(min2(5, all.len() as int)));
        }
        sorted
    }

    /// The balance conflict `tx` raises against the wallet snapshot, exactly
    /// as `balance_conflict` describes.
    pub fn check_balance_conflict(&self, tx: &Transaction) -> (r: Option<SyncConflict>)
        requires
            self.wallet_db.wf(),
        ensures
            opt_conflict_view(r) == balance_conflict(self.wallet_db@, tx@),
    {
        if !tx.affects_balance || tx.is_income() {
            return None;
        }
        match self.wallet_db.find_account(tx.account_id.as_str()) {
            None => None,
            Some(i) => {
                proof {
                    let j = account_index(self.wallet_db@.accounts, tx@.account_id);
                    assert(self.wallet_db@.accounts[j].id == tx@.account_id);
                    assert(j == i as int);
                }
                let account = &self.wallet_db.accounts[i];
                if tx.amount > account.balance {
                    Some(
                        SyncConflict {
                            conflict_type: ConflictType::InsufficientBalance {
                                account_id: account.id.clone(),
                                account_name: account.name.clone(),
                                current_balance: account.balance,
                                required: tx.amount,
                            },
                            transaction_id: tx.id.clone(),
                            description: "Transaction amount exceeds the account's current balance".to_owned(),
                            suggestion: Some(
                                "Reduce the amount or select a different account".to_owned(),
                            ),
                        },
                    )
                } else {
                    None
                }
            },
        }
    }

    /// The unknown-item conflicts `tx` raises: one per unresolved item line
    /// with at least one qualifying catalog candidate; none when no line
    /// qualifies.
    pub fn check_items_conflicts(&self, tx: &Transaction) -> (r: Option<Vec<SyncConflict>>)
        ensures
            match r {
                Some(v) => flagged_refs(tx_refs(tx@), self.items_db@).len() > 0 && item_block_ok(
                    conflict_views(v@),
                    tx@,
                    self.items_db@,
                ),
                None => flagged_refs(tx_refs(tx@), self.items_db@).len() == 0,
            },
    {
        broadcast use vstd::seq_lib::group_to_multiset_ensures;

        let ghost catalog = self.items_db@;
        match &tx.items {
            None => {
                proof {
                    reveal(Seq::filter);
                    assert(tx_refs(tx@) =~= Seq::<TransactionItemRefV>::empty());
                }
                None
            },
            Some(items) => {
                let ghost refs = crate::transaction::item_ref_views(items@);
                proof {
                    assert(tx_refs(tx@) == refs);
                }
                let mut out: Vec<SyncConflict> = Vec::new();
                let mut i: usize = 0;
                proof {
                    reveal(Seq::filter);
                    assert(refs.take(0) =~= Seq::<TransactionItemRefV>::empty());
                    assert(conflict_views(out@) =~= Seq::<SyncConflictV>::empty());
                }
                while i < items.len()
                    invariant
                        i <= items@.len(),
                        tx.items is Some,
                        catalog == self.items_db@,
                        refs == crate::transaction::item_ref_views(items@),
                        refs.len() == items@.len(),
                        conflict_views(out@).len() == flagged_refs(refs.take(i as int), catalog).len(),
                        forall|j: int|
                            0 <= j < conflict_views(out@).len() ==> unknown_conflict_ok(
                                #[trigger] conflict_views(out@)[j],
                                tx@,
                                flagged_refs(refs.take(i as int), catalog)[j],
                                catalog,
                            ),
                    decreases items@.len() - i,
                {
                    proof {
                        reveal(Seq::filter);
                        assert(refs.take(i as int + 1).drop_last() =~= refs.take(i as int));
                        assert(refs.take(i as int + 1).last() == refs[i as int]);
                        assert(refs[i as int] == items@[i as int]@);
                    }
                    let item_ref = &items[i];
                    if item_ref.item_id.is_none() {
                        let matches = self.find_similar_items(item_ref.name.as_str());
                        if matches.len() > 0 {
                            proof {
                                if !small_seq(lower_of(refs[i as int].name)) {
                                    assert(matches@.len() == 0);
                                    assert(false);
                                }
                                assert(matches_ok(
                                    match_views(matches@),
                                    lower_of(refs[i as int].name),
                                    catalog,
                                ));
                                assert(min2(
                                    5,
                                    qualifying_matches(
                                        catalog,
                                        lower_of(refs[i as int].name),
                                    ).len() as int,
                                ) > 0);
                            }
                            let conflict = SyncConflict {
                                conflict_type: ConflictType::UnknownItem {
                                    item_name: item_ref.name.clone(),
                                    suggested_matches: matches,
                                },
                                transaction_id: tx.id.clone(),
                                description: "Item not found in database. Possible matches found.".to_owned(),
                                suggestion: Some("Map to existing item or create new one".to_owned()),
                            };
                            let ghost cv = conflict@;
                            let ghost prev = out@;
                            out.push(conflict);
                            proof {
                                crate::sync_models::lemma_conflict_views_push(prev, out@, cv);
                                assert(unknown_conflict_ok(cv, tx@, refs[i as int], catalog));
                                assert(flagged_refs(refs.take(i as int + 1), catalog)
                                    =~= flagged_refs(refs.take(i as int), catalog).push(
                                    refs[i as int],
                                ));
                            }
                        } else {
                            proof {
                                if small_seq(lower_of(refs[i as int].name)) {
                                    assert(matches_ok(
                                        match_views(matches@),
                                        lower_of(refs[i as int].name),
                                        catalog,
                                    ));
                                    assert(qualifying_matches(
                                        catalog,
                                        lower_of(refs[i as int].name),
                                    ).len() == 0);
                                }
                                assert(flagged_refs(refs.take(i as int + 1), catalog)
                                    =~= flagged_refs(refs.take(i as int), catalog));
                            }
                        }
                    } else {
                        proof {
                            assert(refs[i as int].item_id is Some);
                            assert(flagged_refs(refs.take(i as int + 1), catalog) =~= flagged_refs(
                                refs.take(i as int),
                                catalog,
                            ));
                        }
                    }
                    i = i + 1;
                }
                proof {
                    assert(refs.take(refs.len() as int) =~= refs);
                }
                if out.len() > 0 {
                    Some(out)
                } else {
                    None
                }
            },
        }
    }

    /// Every conflict of the batch, in order: for each transaction, its
    /// balance conflict (if any) followed by its unknown-item conflicts.
    /// Referentially transparent: the same batch against the same snapshot
    /// always yields the same findings.
    pub fn validate_transactions(&self, transactions: &Vec<Transaction>) -> (r: Vec<SyncConflict>)
        requires
            self.wallet_db.wf(),
        ensures
            exists|ibs: Seq<Seq<SyncConflictV>>|
                #![auto]
                ibs.len() == transactions@.len() && conflict_views(r@) == assembled_conflicts(
                    self.wallet_db@,
                    transaction_views(transactions@),
                    ibs,
                ) && forall|k: int|
                    0 <= k < ibs.len() ==> item_block_ok(
                        ibs[k],
                        transaction_views(transactions@)[k],
                        self.items_db@,
                    ),
    {
        let ghost txv = transaction_views(transactions@);
        let mut out: Vec<SyncConflict> = Vec::new();
        let ghost mut ibs: Seq<Seq<SyncConflictV>> = Seq::empty();
        let mut i: usize = 0;
        proof {
            assert(conflict_views(out@) =~= Seq::<SyncConflictV>::empty());
            assert(assembled_conflicts(self.wallet_db@, txv.take(0), ibs) =~= Seq::<
                SyncConflictV,
            >::empty());
        }
        while i < transactions.len()
            invariant
                i <= transactions@.len(),
                txv == transaction_views(transactions@),
                txv.len() == transactions@.len(),
                self.wallet_db.wf(),
                ibs.len() == i,
                conflict_views(out@) == assembled_conflicts(self.wallet_db@, txv.take(i as int), ibs),
                forall|k: int|
                    0 <= k < ibs.len() ==> item_block_ok(#[trigger] ibs[k], txv[k], self.items_db@),
            decreases transactions@.len() - i,
        {
            let tx = &transactions[i];
            proof {
                assert(tx@ == txv[i as int]);
            }
            let ghost out_pre = conflict_views(out@);
            match self.check_balance_conflict(tx) {
                Some(c) => {
                    let ghost cv = c@;
                    let ghost prev = out@;
                    out.push(c);
                    proof {
                        crate::sync_models::lemma_conflict_views_push(prev, out@, cv);
                        assert(conflict_views(out@) =~= out_pre + balance_block(
                            self.wallet_db@,
                            txv[i as int],
                        ));
                    }
                },
                None => {
                    proof {
                        assert(conflict_views(out@) =~= out_pre + balance_block(
                            self.wallet_db@,
                            txv[i as int],
                        ));
                    }
                },
            }
            let ghost out_mid = conflict_views(out@);
            let ic = self.check_items_conflicts(tx);
            let ghost block: Seq<SyncConflictV> = match &ic {
                Some(v) => conflict_views(v@),
                None => Seq::empty(),
            };
            proof {
                assert(item_block_ok(block, txv[i as int], self.items_db@));
            }
            match ic {
                Some(mut v) => {
                    let ghost prev = out@;
                    let ghost addv = v@;
                    out.append(&mut v);
                    proof {
                        assert(out@ =~= prev + addv);
                        assert forall|k: int| 0 <= k < out@.len() implies #[trigger] conflict_views(
                            out@,
                        )[k] == (out_mid + block)[k] by {
                            assert(conflict_views(out@)[k] == out@[k]@);
                            if k < prev.len() {
                                assert(out@[k] == prev[k]);
                                assert(conflict_views(prev)[k] == prev[k]@);
                            } else {
                                assert(out@[k] == addv[k - prev.len()]);
                                assert(conflict_views(addv)[k - prev.len()] == addv[k - prev.len()]@);
                            }
                        }
                        assert(conflict_views(out@) =~= out_mid + block);
                    }
                },
                None => {
                    proof {
                        assert(conflict_views(out@) =~= out_mid + block);
                    }
                },
            }
            proof {
                let ibs_prev = ibs;
                ibs = ibs.push(block);
                assert(ibs.drop_last() =~= ibs_prev);
                assert(ibs.last() == block);
                assert(txv.take(i as int + 1).drop_last() =~= txv.take(i as int));
                assert(txv.take(i as int + 1).last() == txv[i as int]);
                assert(assembled_conflicts(self.wallet_db@, txv.take(i as int + 1), ibs)
                    == assembled_conflicts(self.wallet_db@, txv.take(i as int), ibs_prev)
                    + balance_block(self.wallet_db@, txv[i as int]) + block);
                assert(conflict_views(out@) =~= out_pre + balance_block(
                    self.wallet_db@,
                    txv[i as int],
                ) + block);
                assert(conflict_views(out@) == assembled_conflicts(
                    self.wallet_db@,
                    txv.take(i as int + 1),
                    ibs,
                ));
            }
            i = i + 1;
        }
        proof {
            assert(txv.take(transactions@.len() as int) =~= txv);
        }
        out
    }
}

/// Two conflicts satisfying `unknown_conflict_ok` for the same line against
/// the same snapshot are the same conflict: every field is pinned.
pub proof fn lemma_unknown_conflict_unique(
    c1: SyncConflictV,
    c2: SyncConflictV,
    t: TransactionV,
    rv: TransactionItemRefV,
    catalog: Seq<ItemV>,
)
    requires
        unknown_conflict_ok(c1, t, rv, catalog),
        unknown_conflict_ok(c2, t, rv, catalog),
    ensures
        c1 == c2,
{
    match c1.conflict_type {
        ConflictTypeV::UnknownItem { item_name: n1, suggested_matches: m1 } => {
            match c2.conflict_type {
                ConflictTypeV::UnknownItem { item_name: n2, suggested_matches: m2 } => {
                    assert(n1 == n2);
                    assert(m1 == m2);
                },
                _ => {
                    assert(false);
                },
            }
        },
        _ => {
            assert(false);
        },
    }
}

/// Two blocks satisfying `item_block_ok` for the same transaction against
/// the same snapshot are equal.
pub proof fn lemma_item_block_unique(
    b1: Seq<SyncConflictV>,
    b2: Seq<SyncConflictV>,
    t: TransactionV,
    catalog: Seq<ItemV>,
)
    requires
        item_block_ok(b1, t, catalog),
        item_block_ok(b2, t, catalog),
    ensures
        b1 == b2,
{
    assert forall|j: int| 0 <= j < b1.len() implies b1[j] == b2[j] by {
        lemma_unknown_conflict_unique(b1[j], b2[j], t, flagged_refs(tx_refs(t), catalog)[j], catalog);
    }
    assert(b1 =~= b2);
}

/// The detector is referentially transparent: its contract pins one conflict
/// list per batch and ledger snapshot, so any two results that meet it — in
/// particular, the results of two runs over equal inputs — are equal.
pub proof fn lemma_detector_deterministic(
    r1: Seq<SyncConflictV>,
    r2: Seq<SyncConflictV>,
    w: WalletV,
    txs: Seq<TransactionV>,
    catalog: Seq<ItemV>,
    ibs1: Seq<Seq<SyncConflictV>>,
    ibs2: Seq<Seq<SyncConflictV>>,
)
    requires
        ibs1.len() == txs.len(),
        ibs2.len() == txs.len(),
        r1 == assembled_conflicts(w, txs, ibs1),
        r2 == assembled_conflicts(w, txs, ibs2),
        forall|k: int| 0 <= k < txs.len() ==> item_block_ok(#[trigger] ibs1[k], txs[k], catalog),
        forall|k: int| 0 <= k < txs.len() ==> item_block_ok(#[trigger] ibs2[k], txs[k], catalog),
    ensures
        r1 == r2,
{
    assert forall|k: int| 0 <= k < txs.len() implies ibs1[k] == ibs2[k] by {
        lemma_item_block_unique(ibs1[k], ibs2[k], txs[k], catalog);
    }
    assert(ibs1 =~= ibs2);
}

} // verus!
