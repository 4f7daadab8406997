use vstd::prelude::*;

use crate::sync_models::{
    conflict_views, PendingSyncData, SyncAuthRequest, SyncAuthResponse, SyncDataPayload,
    SyncDataResponse,
};
use crate::sync_state::{
    auth_step, has_pending, pending_index, token_matches, AuthError, AuthOutcomeV, SyncServerState,
};
use crate::validator::{assembled_conflicts, item_block_ok, SyncValidator};
use crate::views::opt_str_view;

verus! {

/// Answers one authentication request at time `now`, issuing `fresh_token`
/// if the PIN authenticates for the first time. The session list moves
/// exactly as `auth_step` describes; failures come back as a response with
/// `success` false, never as a transport error.
pub fn handle_auth(
    state: &mut SyncServerState,
    request: &SyncAuthRequest,
    now: u64,
    fresh_token: String,
) -> (r: SyncAuthResponse)
    requires
        old(state).wf(),
    ensures
        final(state).wf(),
        final(state)@.pending == old(state)@.pending,
        final(state)@.server_running == old(state)@.server_running,
        final(state)@.port == old(state)@.port,
        final(state)@.started_at == old(state)@.started_at,
        final(state)@.sessions == auth_step(
            old(state)@.sessions,
            request.pin@,
            request.device_name@,
            now as int,
            fresh_token@,
        ).0,
        match auth_step(
            old(state)@.sessions,
            request.pin@,
            request.device_name@,
            now as int,
            fresh_token@,
        ).1 {
            AuthOutcomeV::Granted { token, expires_in } => r.success && opt_str_view(r.token)
                == Some(token) && (r.expires_in matches Some(e) && e as int == expires_in)
                && r.message@ == "Authentication successful"@,
            AuthOutcomeV::ExpiredPin => !r.success && r.token is None && r.expires_in is None
                && r.message@ == "PIN expired"@,
            AuthOutcomeV::InvalidPin => !r.success && r.token is None && r.expires_in is None
                && r.message@ == "Invalid PIN"@,
        },
{
    match state.authenticate(
        request.pin.as_str(),
        request.device_name.as_str(),
        now,
        fresh_token,
    ) {
        Ok((token, expires_in)) => SyncAuthResponse {
            success: true,
            token: Some(token),
            expires_in: Some(expires_in),
            message: "Authentication successful".to_owned(),
        },
        Err(AuthError::ExpiredPin) => SyncAuthResponse {
            success: false,
            token: None,
            expires_in: None,
            message: "PIN expired".to_owned(),
        },
        Err(_) => SyncAuthResponse {
            success: false,
            token: None,
            expires_in: None,
            message: "Invalid PIN".to_owned(),
        },
    }
}

/// Answers one authentication request by the current clock, with a freshly
/// generated token at hand: for the clock reading and token actually drawn,
/// the session list moves by `auth_step` and the response reports that
/// step's outcome.
pub fn handle_auth_now(state: &mut SyncServerState, request: &SyncAuthRequest) -> (r:
    SyncAuthResponse)
    requires
        old(state).wf(),
    ensures
        final(state).wf(),
        final(state)@.pending == old(state)@.pending,
        final(state)@.server_running == old(state)@.server_running,
        final(state)@.started_at == old(state)@.started_at,
        final(state)@.port == old(state)@.port,
        exists|now: int, fresh: Seq<char>|
            #![auto]
            {
                &&& final(state)@.sessions == auth_step(
                    old(state)@.sessions,
                    request.pin@,
                    request.device_name@,
                    now,
                    fresh,
                ).0
                &&& match auth_step(
                    old(state)@.sessions,
                    request.pin@,
                    request.device_name@,
                    now,
                    fresh,
                ).1 {
                    AuthOutcomeV::Granted { token, expires_in } => r.success && opt_str_view(r.token)
                        == Some(token) && (r.expires_in matches Some(e) && e as int == expires_in)
                        && r.message@ == "Authentication successful"@,
                    AuthOutcomeV::ExpiredPin => !r.success && r.token is None && r.expires_in
                        is None && r.message@ == "PIN expired"@,
                    AuthOutcomeV::InvalidPin => !r.success && r.token is None && r.expires_in
                        is None && r.message@ == "Invalid PIN"@,
                }
            },
{
    let now = crate::trusted::now_millis();
    let fresh_token = SyncServerState::generate_token(request.pin.as_str());
    let ghost gnow = now as int;
    let ghost gfresh = fresh_token@;
    let r = handle_auth(state, request, now, fresh_token);
    proof {
        assert(final(state)@.sessions == auth_step(
            old(state)@.sessions,
            request.pin@,
            request.device_name@,
            gnow,
            gfresh,
        ).0);
    }
    r
}

/// Takes one pushed batch at time `now`. The bearer token is checked before
/// anything else: a missing or invalid token is turned away with
/// `Unauthorized` and the state untouched — only then is the batch run
/// through the conflict detector and queued under `fresh_id` for approval.
/// Detected conflicts come back in a successful response: they are data for
/// the caller, not a transport failure.
pub fn handle_data(
    state: &mut SyncServerState,
    detector: &SyncValidator,
    bearer: Option<&str>,
    payload: SyncDataPayload,
    now: u64,
    fresh_id: String,
) -> (r: Result<SyncDataResponse, AuthError>)
    requires
        old(state).wf(),
        detector.wallet_db.wf(),
    ensures
        final(state).wf(),
        final(state)@.sessions == old(state)@.sessions,
        final(state)@.server_running == old(state)@.server_running,
        final(state)@.started_at == old(state)@.started_at,
        final(state)@.port == old(state)@.port,
        match r {
            Err(e) => {
                &&& e == AuthError::Unauthorized
                &&& final(state)@ == old(state)@
                &&& match bearer {
                    None => true,
                    Some(t) => forall|i: int|
                        0 <= i < old(state)@.sessions.len() ==> !token_matches(
                            #[trigger] old(state)@.sessions[i],
                            t@,
                            now as int,
                        ),
                }
            },
            Ok(resp) => {
                &&& bearer is Some
                &&& exists|i: int|
                    0 <= i < old(state)@.sessions.len() && token_matches(
                        #[trigger] old(state)@.sessions[i],
                        bearer->Some_0@,
                        now as int,
                    )
                &&& resp.success
                &&& resp.pending_approval
                &&& resp.message@ == "Data received, pending user approval"@
                &&& (exists|ibs: Seq<Seq<crate::sync_models::SyncConflictV>>|
                    #![auto]
                    ibs.len() == payload@.transactions.len() && conflict_views(resp.conflicts@)
                        == assembled_conflicts(
                        detector.wallet_db@,
                        payload@.transactions,
                        ibs,
                    ) && forall|k: int|
                        0 <= k < ibs.len() ==> item_block_ok(
                            ibs[k],
                            payload@.transactions[k],
                            detector.items_db@,
                        ))
                &&& ({
                    let entry = crate::sync_models::PendingSyncDataV {
                        id: fresh_id@,
                        payload: payload@,
                        conflicts: conflict_views(resp.conflicts@),
                        received_at: now as int,
                        device_name: payload@.device_name,
                    };
                    if has_pending(old(state)@.pending, fresh_id@) {
                        final(state)@.pending == old(state)@.pending.update(
                            pending_index(old(state)@.pending, fresh_id@),
                            entry,
                        )
                    } else {
                        final(state)@.pending == old(state)@.pending.push(entry)
                    }
                })
            },
        },
{
    let token = match bearer {
        None => {
            return Err(AuthError::Unauthorized);
        },
        Some(t) => t,
    };
    if state.validate_token_at(token, now).is_none() {
        return Err(AuthError::Unauthorized);
    }
    let conflicts = detector.validate_transactions(&payload.transactions);
    let ghost cv = conflict_views(conflicts@);
    let response_conflicts = crate::sync_models::clone_conflicts(&conflicts);
    let device_name = payload.device_name.clone();
    let ghost payload_v = payload@;
    proof {
        assert(payload_v.transactions == crate::transaction::transaction_views(
            payload.transactions@,
        ));
        assert(exists|ibs: Seq<Seq<crate::sync_models::SyncConflictV>>|
            #![auto]
            ibs.len() == payload_v.transactions.len() && cv == assembled_conflicts(
                detector.wallet_db@,
                payload_v.transactions,
                ibs,
            ) && forall|k: int|
                0 <= k < ibs.len() ==> item_block_ok(
                    ibs[k],
                    payload_v.transactions[k],
                    detector.items_db@,
                ));
    }
    let pending = PendingSyncData {
        id: fresh_id,
        payload,
        conflicts,
        received_at: now,
        device_name,
    };
    proof {
        assert(pending@.payload == payload_v);
    }
    state.enqueue_pending(pending);
    proof {
        assert(conflict_views(response_conflicts@) == cv);
    }
    Ok(
        SyncDataResponse {
            success: true,
            pending_approval: true,
            conflicts: response_conflicts,
            message: "Data received, pending user approval".to_owned(),
        },
    )
}

/// The figures the status endpoint reports.
pub fn handle_status(state: &SyncServerState) -> (r: (bool, usize, usize))
    ensures
        r.0 == state@.server_running,
        r.1 == state@.sessions.len(),
        r.2 == state@.pending.len(),
{
    state.status()
}

} // verus!
