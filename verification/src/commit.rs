use vstd::prelude::*;

use crate::trusted::atomic_write;

verus! {

/// How a dual-document commit can fail.
pub enum CommitError {
    /// The transaction-ledger write failed; nothing was changed.
    TransactionWriteFailed(String),
    /// The wallet-ledger write failed after the transaction ledger was
    /// written; the transaction ledger was restored to its prior content.
    WalletWriteFailedRolledBack(String),
    /// The wallet-ledger write failed and so did the restoring write: the
    /// two documents may be inconsistent on disk. The first message is the
    /// wallet failure, the second the rollback failure.
    WalletWriteFailedRollbackFailed(String, String),
}

/// Mathematical model of the two persisted documents.
pub struct LedgerDocs {
    pub tx_doc: Seq<char>,
    pub wallet_doc: Seq<char>,
}

/// The outcome class of one dual-document commit.
pub enum CommitOutcomeV {
    /// Both documents hold the new content.
    Committed,
    /// The first write failed: both documents hold the old content.
    NothingWritten,
    /// The second write failed and the rollback succeeded: both documents
    /// hold the old content, and the failure is reported.
    RolledBack,
    /// The second write failed and so did the rollback: the transaction
    /// document holds the new content while the wallet document holds the
    /// old one — the recoverable inconsistency the protocol reports at
    /// higher severity.
    Inconsistent,
}

/// The dual-write protocol as a function of the three write outcomes: write
/// the transaction document, then the wallet document; if the second write
/// fails, restore the first from its prior content.
pub open spec fn dual_commit_model(
    docs: LedgerDocs,
    tx_new: Seq<char>,
    wallet_new: Seq<char>,
    tx_write_ok: bool,
    wallet_write_ok: bool,
    rollback_ok: bool,
) -> (LedgerDocs, CommitOutcomeV) {
    if !tx_write_ok {
        (docs, CommitOutcomeV::NothingWritten)
    } else if wallet_write_ok {
        (LedgerDocs { tx_doc: tx_new, wallet_doc: wallet_new }, CommitOutcomeV::Committed)
    } else if rollback_ok {
        (docs, CommitOutcomeV::RolledBack)
    } else {
        (
            LedgerDocs { tx_doc: tx_new, wallet_doc: docs.wallet_doc },
            CommitOutcomeV::Inconsistent,
        )
    }
}

/// If the wallet write fails right after a successful transaction write and
/// the rollback goes through, the transaction document is restored to its
/// pre-operation content, the wallet document was never touched, and the
/// commit reports failure rather than success.
pub proof fn lemma_rollback_restores(
    docs: LedgerDocs,
    tx_new: Seq<char>,
    wallet_new: Seq<char>,
)
    ensures
        ({
            let (after, outcome) = dual_commit_model(docs, tx_new, wallet_new, true, false, true);
            &&& after.tx_doc == docs.tx_doc
            &&& after.wallet_doc == docs.wallet_doc
            &&& outcome == CommitOutcomeV::RolledBack
            &&& outcome != CommitOutcomeV::Committed
        }),
{
}

/// A commit succeeds exactly when both writes succeed, and only then do the
/// documents change together.
pub proof fn lemma_commit_all_or_nothing(
    docs: LedgerDocs,
    tx_new: Seq<char>,
    wallet_new: Seq<char>,
    tx_ok: bool,
    wallet_ok: bool,
    rb_ok: bool,
)
    ensures
        ({
            let (after, outcome) = dual_commit_model(docs, tx_new, wallet_new, tx_ok, wallet_ok, rb_ok);
            &&& (outcome == CommitOutcomeV::Committed <==> tx_ok && wallet_ok)
            &&& (outcome == CommitOutcomeV::Committed ==> after.tx_doc == tx_new
                && after.wallet_doc == wallet_new)
            &&& (outcome == CommitOutcomeV::NothingWritten || outcome == CommitOutcomeV::RolledBack
                ==> after.tx_doc == docs.tx_doc && after.wallet_doc == docs.wallet_doc)
            &&& (outcome == CommitOutcomeV::Inconsistent ==> after.wallet_doc == docs.wallet_doc)
        }),
{
}

/// Commits one logical change across the two ledger documents: the
/// transaction ledger first (the source of truth), then the wallet ledger
/// (the derived projection); a wallet failure triggers one restoring write
/// of the transaction ledger from `tx_old`. Each write is atomic, so no
/// reader ever sees a partial document; which branch runs is decided by the
/// file system, exactly as `dual_commit_model` lays out over the three write
/// outcomes. A rollback that itself fails is surfaced as the distinct,
/// higher-severity `WalletWriteFailedRollbackFailed`.
pub fn commit_ledger_documents(
    tx_path: &str,
    wallet_path: &str,
    tx_new: &str,
    wallet_new: &str,
    tx_old: &str,
) -> (r: Result<bool, CommitError>)
    ensures
        r is Ok ==> r == Ok::<bool, CommitError>(true),
{
    match atomic_write(tx_path, tx_new) {
        Err(e) => Err(CommitError::TransactionWriteFailed(e)),
        Ok(_) => {
            match atomic_write(wallet_path, wallet_new) {
                Ok(_) => Ok(true),
                Err(wallet_err) => {
                    match atomic_write(tx_path, tx_old) {
                        Ok(_) => Err(CommitError::WalletWriteFailedRolledBack(wallet_err)),
                        Err(rollback_err) => Err(
                            CommitError::WalletWriteFailedRollbackFailed(wallet_err, rollback_err),
                        ),
                    }
                },
            }
        },
    }
}

} // verus!
