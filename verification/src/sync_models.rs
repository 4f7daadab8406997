use vstd::prelude::*;

use crate::transaction::{transaction_views, Transaction, TransactionV};
use crate::views::opt_str_view;

verus! {

/// Mathematical model of one pairing session.
pub struct SyncSessionV {
    pub pin: Seq<char>,
    pub token: Option<Seq<char>>,
    pub created_at: int,
    pub expires_at: int,
    pub is_active: bool,
    pub device_name: Option<Seq<char>>,
}

/// One pairing session: a short-lived PIN, the bearer token issued against
/// it, and its validity window.
pub struct SyncSession {
    pub pin: String,
    pub token: Option<String>,
    pub created_at: u64,
    pub expires_at: u64,
    pub is_active: bool,
    pub device_name: Option<String>,
}

impl View for SyncSession {
    type V = SyncSessionV;

    open spec fn view(&self) -> SyncSessionV {
        SyncSessionV {
            pin: self.pin@,
            token: opt_str_view(self.token),
            created_at: self.created_at as int,
            expires_at: self.expires_at as int,
            is_active: self.is_active,
            device_name: opt_str_view(self.device_name),
        }
    }
}

/// Clones an optional string.
fn clone_opt_string(o: &Option<String>) -> (r: Option<String>)
    ensures
        opt_str_view(r) == opt_str_view(*o),
{
    match o {
        Some(s) => Some(s.clone()),
        None => None,
    }
}

impl Clone for SyncSession {
    fn clone(&self) -> (res: Self)
        ensures
            res@ == self@,
    {
        SyncSession {
            pin: self.pin.clone(),
            token: clone_opt_string(&self.token),
            created_at: self.created_at,
            expires_at: self.expires_at,
            is_active: self.is_active,
            device_name: clone_opt_string(&self.device_name),
        }
    }
}

/// The views of a sequence of sessions.
pub open spec fn session_views(s: Seq<SyncSession>) -> Seq<SyncSessionV> {
    s.map_values(|x: SyncSession| x@)
}

/// The body of an authentication request: the PIN read off the host device,
/// and the caller's device name.
pub struct SyncAuthRequest {
    pub pin: String,
    pub device_name: String,
}

/// The body of an authentication response.
pub struct SyncAuthResponse {
    pub success: bool,
    pub token: Option<String>,
    pub expires_in: Option<u64>,
    pub message: String,
}

/// Mathematical model of one candidate catalog match for an unknown item.
pub struct ItemMatchV {
    pub item_id: Seq<char>,
    pub name: Seq<char>,
    pub brand: Option<Seq<char>>,
    pub score_num: int,
    pub score_den: int,
}

/// One candidate catalog match for an unknown item, with its similarity
/// score as an exact fraction.
pub struct ItemMatch {
    pub item_id: String,
    pub name: String,
    pub brand: Option<String>,
    pub score_num: usize,
    pub score_den: usize,
}

impl View for ItemMatch {
    type V = ItemMatchV;

    open spec fn view(&self) -> ItemMatchV {
        ItemMatchV {
            item_id: self.item_id@,
            name: self.name@,
            brand: opt_str_view(self.brand),
            score_num: self.score_num as int,
            score_den: self.score_den as int,
        }
    }
}

impl Clone for ItemMatch {
    fn clone(&self) -> (res: Self)
        ensures
            res@ == self@,
    {
        ItemMatch {
            item_id: self.item_id.clone(),
            name: self.name.clone(),
            brand: clone_opt_string(&self.brand),
            score_num: self.score_num,
            score_den: self.score_den,
        }
    }
}

/// The views of a sequence of candidate matches.
pub open spec fn match_views(s: Seq<ItemMatch>) -> Seq<ItemMatchV> {
    s.map_values(|x: ItemMatch| x@)
}

/// Appending one candidate match appends its view.
pub proof fn lemma_match_views_push(pre: Seq<ItemMatch>, post: Seq<ItemMatch>, xv: ItemMatchV)
    requires
        post.len() == pre.len() + 1,
        forall|j: int| 0 <= j < pre.len() ==> post[j] == pre[j],
        post[pre.len() as int]@ == xv,
    ensures
        match_views(post) == match_views(pre).push(xv),
{
    assert forall|j: int| 0 <= j < post.len() implies match_views(post)[j] == match_views(pre).push(
        xv,
    )[j] by {
        assert(match_views(post)[j] == post[j]@);
        if j < pre.len() {
            assert(match_views(pre)[j] == pre[j]@);
        }
    }
    assert(match_views(post) =~= match_views(pre).push(xv));
}

/// Mathematical model of a conflict's kind and payload.
pub enum ConflictTypeV {
    InsufficientBalance {
        account_id: Seq<char>,
        account_name: Seq<char>,
        current_balance: int,
        required: int,
    },
    UnknownItem { item_name: Seq<char>, suggested_matches: Seq<ItemMatchV> },
    DuplicateTransaction,
    InvalidAccount,
}

/// The kind and payload of one detected conflict. Money figures are minor
/// currency units.
pub enum ConflictType {
    InsufficientBalance {
        account_id: String,
        account_name: String,
        current_balance: i64,
        required: i64,
    },
    UnknownItem { item_name: String, suggested_matches: Vec<ItemMatch> },
    DuplicateTransaction,
    InvalidAccount,
}

impl View for ConflictType {
    type V = ConflictTypeV;

    open spec fn view(&self) -> ConflictTypeV {
        match self {
            ConflictType::InsufficientBalance { account_id, account_name, current_balance, required } => {
                ConflictTypeV::InsufficientBalance {
                    account_id: account_id@,
                    account_name: account_name@,
                    current_balance: *current_balance as int,
                    required: *required as int,
                }
            },
            ConflictType::UnknownItem { item_name, suggested_matches } => {
                ConflictTypeV::UnknownItem {
                    item_name: item_name@,
                    suggested_matches: match_views(suggested_matches@),
                }
            },
            ConflictType::DuplicateTransaction => ConflictTypeV::DuplicateTransaction,
            ConflictType::InvalidAccount => ConflictTypeV::InvalidAccount,
        }
    }
}

/// Clones a vector of candidate matches.
fn clone_matches(v: &Vec<ItemMatch>) -> (r: Vec<ItemMatch>)
    ensures
        match_views(r@) == match_views(v@),
{
    let mut out: Vec<ItemMatch> = Vec::new();
    let mut i: usize = 0;
    while i < v.len()
        invariant
            i <= v@.len(),
            match_views(out@) =~= match_views(v@).take(i as int),
        decreases v@.len() - i,
    {
        let x = v[i].clone();
        let ghost xv = x@;
        let ghost prev = out@;
        out.push(x);
        proof {
            lemma_match_views_push(prev, out@, xv);
            assert(match_views(out@) =~= match_views(v@).take(i as int + 1));
        }
        i = i + 1;
    }
    proof {
        assert(match_views(v@).take(v@.len() as int) =~= match_views(v@));
    }
    out
}

impl Clone for ConflictType {
    fn clone(&self) -> (res: Self)
        ensures
            res@ == self@,
    {
        match self {
            ConflictType::InsufficientBalance { account_id, account_name, current_balance, required } => {
                ConflictType::InsufficientBalance {
                    account_id: account_id.clone(),
                    account_name: account_name.clone(),
                    current_balance: *current_balance,
                    required: *required,
                }
            },
            ConflictType::UnknownItem { item_name, suggested_matches } => {
                ConflictType::UnknownItem {
                    item_name: item_name.clone(),
                    suggested_matches: clone_matches(suggested_matches),
                }
            },
            ConflictType::DuplicateTransaction => ConflictType::DuplicateTransaction,
            ConflictType::InvalidAccount => ConflictType::InvalidAccount,
        }
    }
}

/// Mathematical model of one detected conflict.
pub struct SyncConflictV {
    pub conflict_type: ConflictTypeV,
    pub transaction_id: Seq<char>,
    pub description: Seq<char>,
    pub suggestion: Option<Seq<char>>,
}

/// One detected conflict, tied to the transaction that raised it.
pub struct SyncConflict {
    pub conflict_type: ConflictType,
    pub transaction_id: String,
    pub description: String,
    pub suggestion: Option<String>,
}

impl View for SyncConflict {
    type V = SyncConflictV;

    open spec fn view(&self) -> SyncConflictV {
        SyncConflictV {
            conflict_type: self.conflict_type@,
            transaction_id: self.transaction_id@,
            description: self.description@,
            suggestion: opt_str_view(self.suggestion),
        }
    }
}

impl Clone for SyncConflict {
    fn clone(&self) -> (res: Self)
        ensures
            res@ == self@,
    {
        SyncConflict {
            conflict_type: self.conflict_type.clone(),
            transaction_id: self.transaction_id.clone(),
            description: self.description.clone(),
            suggestion: clone_opt_string(&self.suggestion),
        }
    }
}

/// The views of a sequence of conflicts.
pub open spec fn conflict_views(s: Seq<SyncConflict>) -> Seq<SyncConflictV> {
    s.map_values(|x: SyncConflict| x@)
}

/// Appending one conflict appends its view.
pub proof fn lemma_conflict_views_push(pre: Seq<SyncConflict>, post: Seq<SyncConflict>, xv: SyncConflictV)
    requires
        post.len() == pre.len() + 1,
        forall|j: int| 0 <= j < pre.len() ==> post[j] == pre[j],
        post[pre.len() as int]@ == xv,
    ensures
        conflict_views(post) == conflict_views(pre).push(xv),
{
    assert forall|j: int| 0 <= j < post.len() implies conflict_views(post)[j] == conflict_views(
        pre,
    ).push(xv)[j] by {
        assert(conflict_views(post)[j] == post[j]@);
        if j < pre.len() {
            assert(conflict_views(pre)[j] == pre[j]@);
        }
    }
    assert(conflict_views(post) =~= conflict_views(pre).push(xv));
}

/// Clones a vector of conflicts.
pub fn clone_conflicts(v: &Vec<SyncConflict>) -> (r: Vec<SyncConflict>)
    ensures
        conflict_views(r@) == conflict_views(v@),
{
    let mut out: Vec<SyncConflict> = Vec::new();
    let mut i: usize = 0;
    while i < v.len()
        invariant
            i <= v@.len(),
            conflict_views(out@) =~= conflict_views(v@).take(i as int),
        decreases v@.len() - i,
    {
        let x = v[i].clone();
        let ghost xv = x@;
        let ghost prev = out@;
        out.push(x);
        proof {
            lemma_conflict_views_push(prev, out@, xv);
            assert(conflict_views(out@) =~= conflict_views(v@).take(i as int + 1));
        }
        i = i + 1;
    }
    proof {
        assert(conflict_views(v@).take(v@.len() as int) =~= conflict_views(v@));
    }
    out
}

/// Mathematical model of a pushed batch body.
pub struct SyncDataPayloadV {
    pub transactions: Seq<TransactionV>,
    pub device_name: Seq<char>,
    pub timestamp: int,
}

/// The body of a data push: the submitted transactions, the pushing device's
/// name, and its submission timestamp.
pub struct SyncDataPayload {
    pub transactions: Vec<Transaction>,
    pub device_name: String,
    pub timestamp: u64,
}

impl View for SyncDataPayload {
    type V = SyncDataPayloadV;

    open spec fn view(&self) -> SyncDataPayloadV {
        SyncDataPayloadV {
            transactions: transaction_views(self.transactions@),
            device_name: self.device_name@,
            timestamp: self.timestamp as int,
        }
    }
}

impl Clone for SyncDataPayload {
    fn clone(&self) -> (res: Self)
        ensures
            res@ == self@,
    {
        let mut txs: Vec<Transaction> = Vec::new();
        let mut i: usize = 0;
        while i < self.transactions.len()
            invariant
                i <= self.transactions@.len(),
                transaction_views(txs@) =~= transaction_views(self.transactions@).take(i as int),
            decreases self.transactions@.len() - i,
        {
            let x = self.transactions[i].clone();
            let ghost xv = x@;
            let ghost prev = txs@;
            txs.push(x);
            proof {
                crate::transaction::lemma_transaction_views_push(prev, txs@, xv);
                assert(transaction_views(txs@) =~= transaction_views(self.transactions@).take(
                    i as int + 1,
                ));
            }
            i = i + 1;
        }
        proof {
            assert(transaction_views(self.transactions@).take(self.transactions@.len() as int)
                =~= transaction_views(self.transactions@));
        }
        SyncDataPayload {
            transactions: txs,
            device_name: self.device_name.clone(),
            timestamp: self.timestamp,
        }
    }
}

/// The body of a data-push response: detected conflicts are data here, not a
/// transport failure.
pub struct SyncDataResponse {
    pub success: bool,
    pub pending_approval: bool,
    pub conflicts: Vec<SyncConflict>,
    pub message: String,
}

/// Mathematical model of one received, not yet approved batch.
pub struct PendingSyncDataV {
    pub id: Seq<char>,
    pub payload: SyncDataPayloadV,
    pub conflicts: Seq<SyncConflictV>,
    pub received_at: int,
    pub device_name: Seq<char>,
}

/// One received batch, waiting for the human approve-or-reject decision.
pub struct PendingSyncData {
    pub id: String,
    pub payload: SyncDataPayload,
    pub conflicts: Vec<SyncConflict>,
    pub received_at: u64,
    pub device_name: String,
}

impl View for PendingSyncData {
    type V = PendingSyncDataV;

    open spec fn view(&self) -> PendingSyncDataV {
        PendingSyncDataV {
            id: self.id@,
            payload: self.payload@,
            conflicts: conflict_views(self.conflicts@),
            received_at: self.received_at as int,
            device_name: self.device_name@,
        }
    }
}

impl Clone for PendingSyncData {
    fn clone(&self) -> (res: Self)
        ensures
            res@ == self@,
    {
        PendingSyncData {
            id: self.id.clone(),
            payload: self.payload.clone(),
            conflicts: clone_conflicts(&self.conflicts),
            received_at: self.received_at,
            device_name: self.device_name.clone(),
        }
    }
}

/// The views of a sequence of pending batches.
pub open spec fn pending_views(s: Seq<PendingSyncData>) -> Seq<PendingSyncDataV> {
    s.map_values(|x: PendingSyncData| x@)
}

/// Mathematical model of a per-transaction resolution choice.
pub enum ConflictResolutionV {
    SkipTransaction,
    AdjustAmount { new_amount: int },
    MapItem { item_id: Seq<char> },
    CreateNewItem,
}

/// How one conflicted transaction is to be handled at approval time.
pub enum ConflictResolution {
    SkipTransaction,
    AdjustAmount { new_amount: i64 },
    MapItem { item_id: String },
    CreateNewItem,
}

impl View for ConflictResolution {
    type V = ConflictResolutionV;

    open spec fn view(&self) -> ConflictResolutionV {
        match self {
            ConflictResolution::SkipTransaction => ConflictResolutionV::SkipTransaction,
            ConflictResolution::AdjustAmount { new_amount } => ConflictResolutionV::AdjustAmount {
                new_amount: *new_amount as int,
            },
            ConflictResolution::MapItem { item_id } => ConflictResolutionV::MapItem {
                item_id: item_id@,
            },
            ConflictResolution::CreateNewItem => ConflictResolutionV::CreateNewItem,
        }
    }
}

impl Clone for ConflictResolution {
    fn clone(&self) -> (res: Self)
        ensures
            res@ == self@,
    {
        match self {
            ConflictResolution::SkipTransaction => ConflictResolution::SkipTransaction,
            ConflictResolution::AdjustAmount { new_amount } => ConflictResolution::AdjustAmount {
                new_amount: *new_amount,
            },
            ConflictResolution::MapItem { item_id } => ConflictResolution::MapItem {
                item_id: item_id.clone(),
            },
            ConflictResolution::CreateNewItem => ConflictResolution::CreateNewItem,
        }
    }
}

/// An approval decision: the batch it names, the verdict, and the chosen
/// resolutions keyed by transaction identifier.
pub struct SyncApprovalRequest {
    pub sync_id: String,
    pub approved: bool,
    pub conflict_resolutions: Vec<(String, ConflictResolution)>,
}

} // verus!
